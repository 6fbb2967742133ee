//! Laws of the extractors and the dispatcher, stated over the specification
//! functions that the executable functions' contracts use.

use vstd::prelude::*;

use crate::dom::{children_of, heading_token, markup_of, Document, Node};
use crate::extract::{
    is_etymology_section, is_role_section, is_spanish_block, l1_block_frags, l1_frags,
    l2_block_frags, l2_ety_frags, l2_frags, layout1_fragments, layout1_malformed,
    layout2_fragments, layout2_malformed, parse_spec, MalformedInput,
};
use crate::headings::{lemma_promoted_no_h5, no_h5, promoted};
use crate::vocab::is_role;

verus! {

/// Whether no top-level section of the sequence is a Spanish block.
pub open spec fn no_spanish_block(bs: Seq<Node>) -> bool {
    forall|i: int| 0 <= i < bs.len() ==> !is_spanish_block(bs[i])
}

proof fn lemma_l1_frags_empty_without_spanish(bs: Seq<Node>, n: int)
    requires
        n <= bs.len(),
        no_spanish_block(bs),
    ensures
        l1_frags(bs, n).len() == 0,
    decreases n,
{
    if n > 0 {
        lemma_l1_frags_empty_without_spanish(bs, n - 1);
    }
}

proof fn lemma_l2_frags_empty_without_spanish(bs: Seq<Node>, n: int)
    requires
        n <= bs.len(),
        no_spanish_block(bs),
    ensures
        l2_frags(bs, n).len() == 0,
    decreases n,
{
    if n > 0 {
        lemma_l2_frags_empty_without_spanish(bs, n - 1);
    }
}

/// A document without a Spanish block yields no match under either layout,
/// and the dispatcher reports it as not found.
pub proof fn lemma_no_spanish_not_found(doc: Document)
    requires
        no_spanish_block(doc.body@),
    ensures
        layout1_fragments(doc).len() == 0,
        !layout1_malformed(doc),
        layout2_fragments(doc).len() == 0,
        !layout2_malformed(doc),
        parse_spec(doc) == Ok::<Option<Seq<Seq<char>>>, MalformedInput>(None::<Seq<Seq<char>>>),
{
    lemma_l1_frags_empty_without_spanish(doc.body@, doc.body@.len() as int);
    lemma_l2_frags_empty_without_spanish(doc.body@, doc.body@.len() as int);
}

/// The dispatcher's ordered fallback is a tie-break policy: whenever Layout-1
/// succeeds with at least one fragment, the dispatcher's result is exactly
/// Layout-1's result, whatever Layout-2 would yield.
pub proof fn lemma_dispatcher_prefers_layout1(doc: Document)
    requires
        !layout1_malformed(doc),
        layout1_fragments(doc).len() > 0,
    ensures
        parse_spec(doc) == Ok::<Option<Seq<Seq<char>>>, MalformedInput>(
            Some(layout1_fragments(doc)),
        ),
{
}

/// The dispatcher's fallback: whenever Layout-1 succeeds with no fragment,
/// the dispatcher's result is exactly Layout-2's result.
pub proof fn lemma_dispatcher_falls_back_to_layout2(doc: Document)
    requires
        !layout1_malformed(doc),
        layout1_fragments(doc).len() == 0,
        !layout2_malformed(doc),
    ensures
        layout2_fragments(doc).len() > 0 ==> parse_spec(doc) == Ok::<
            Option<Seq<Seq<char>>>,
            MalformedInput,
        >(Some(layout2_fragments(doc))),
        layout2_fragments(doc).len() == 0 ==> parse_spec(doc) == Ok::<
            Option<Seq<Seq<char>>>,
            MalformedInput,
        >(None::<Seq<Seq<char>>>),
{
}

proof fn lemma_l2_ety_frags_no_h5(cs: Seq<Node>, n: int)
    ensures
        forall|k: int| 0 <= k < l2_ety_frags(cs, n).len() ==> no_h5(#[trigger] l2_ety_frags(cs, n)[k]),
    decreases n,
{
    if n > 1 {
        lemma_l2_ety_frags_no_h5(cs, n - 1);
        let prev = l2_ety_frags(cs, n - 1);
        let cur = l2_ety_frags(cs, n);
        if is_role_section(cs[n - 1]) {
            lemma_promoted_no_h5(markup_of(cs[n - 1]));
            assert forall|k: int| 0 <= k < cur.len() implies no_h5(#[trigger] cur[k]) by {
                if k < prev.len() {
                    assert(cur[k] == prev[k]);
                }
            }
        }
    }
}

proof fn lemma_l2_block_frags_no_h5(cs: Seq<Node>, n: int)
    ensures
        forall|k: int|
            0 <= k < l2_block_frags(cs, n).len() ==> no_h5(#[trigger] l2_block_frags(cs, n)[k]),
    decreases n,
{
    if n > 1 {
        lemma_l2_block_frags_no_h5(cs, n - 1);
        let prev = l2_block_frags(cs, n - 1);
        let cur = l2_block_frags(cs, n);
        if is_etymology_section(cs[n - 1]) {
            let inner = children_of(cs[n - 1]);
            lemma_l2_ety_frags_no_h5(inner, inner.len() as int);
            let ety = l2_ety_frags(inner, inner.len() as int);
            assert forall|k: int| 0 <= k < cur.len() implies no_h5(#[trigger] cur[k]) by {
                if k < prev.len() {
                    assert(cur[k] == prev[k]);
                } else {
                    assert(cur[k] == ety[k - prev.len()]);
                }
            }
        }
    }
}

proof fn lemma_l2_frags_no_h5(bs: Seq<Node>, n: int)
    ensures
        forall|k: int| 0 <= k < l2_frags(bs, n).len() ==> no_h5(#[trigger] l2_frags(bs, n)[k]),
    decreases n,
{
    if n > 0 {
        lemma_l2_frags_no_h5(bs, n - 1);
        let prev = l2_frags(bs, n - 1);
        let cur = l2_frags(bs, n);
        if is_spanish_block(bs[n - 1]) {
            let inner = children_of(bs[n - 1]);
            lemma_l2_block_frags_no_h5(inner, inner.len() as int);
            let blk = l2_block_frags(inner, inner.len() as int);
            assert forall|k: int| 0 <= k < cur.len() implies no_h5(#[trigger] cur[k]) by {
                if k < prev.len() {
                    assert(cur[k] == prev[k]);
                } else {
                    assert(cur[k] == blk[k - prev.len()]);
                }
            }
        }
    }
}

/// The heading rewrite is total over Layout-2's output: every fragment
/// Layout-2 returns holds no level-5 heading tag, opening or closing.
pub proof fn lemma_layout2_fragments_no_h5(doc: Document)
    ensures
        forall|k: int|
            0 <= k < layout2_fragments(doc).len() ==> no_h5(#[trigger] layout2_fragments(doc)[k]),
{
    lemma_l2_frags_no_h5(doc.body@, doc.body@.len() as int);
}

proof fn lemma_l1_block_frags_contains(cs: Seq<Node>, n: int, j: int)
    requires
        1 <= j < n <= cs.len(),
        is_role_section(cs[j]),
    ensures
        l1_block_frags(cs, n).contains(markup_of(cs[j])),
    decreases n,
{
    let cur = l1_block_frags(cs, n);
    if j == n - 1 {
        assert(cur[cur.len() - 1] == markup_of(cs[j]));
    } else {
        lemma_l1_block_frags_contains(cs, n - 1, j);
        let prev = l1_block_frags(cs, n - 1);
        let k = choose|k: int| 0 <= k < prev.len() && prev[k] == markup_of(cs[j]);
        assert(cur[k] == markup_of(cs[j]));
    }
}

proof fn lemma_l2_ety_frags_contains(cs: Seq<Node>, n: int, j: int)
    requires
        1 <= j < n <= cs.len(),
        is_role_section(cs[j]),
    ensures
        l2_ety_frags(cs, n).contains(promoted(markup_of(cs[j]))),
    decreases n,
{
    let cur = l2_ety_frags(cs, n);
    if j == n - 1 {
        assert(cur[cur.len() - 1] == promoted(markup_of(cs[j])));
    } else {
        lemma_l2_ety_frags_contains(cs, n - 1, j);
        let prev = l2_ety_frags(cs, n - 1);
        let k = choose|k: int| 0 <= k < prev.len() && prev[k] == promoted(markup_of(cs[j]));
        assert(cur[k] == promoted(markup_of(cs[j])));
    }
}

proof fn lemma_l1_frags_contains_block(bs: Seq<Node>, n: int, i: int, x: Seq<char>)
    requires
        0 <= i < n <= bs.len(),
        is_spanish_block(bs[i]),
        l1_block_frags(children_of(bs[i]), children_of(bs[i]).len() as int).contains(x),
    ensures
        l1_frags(bs, n).contains(x),
    decreases n,
{
    let cur = l1_frags(bs, n);
    if i == n - 1 {
        let prev = l1_frags(bs, n - 1);
        let blk = l1_block_frags(children_of(bs[i]), children_of(bs[i]).len() as int);
        let w = choose|w: int| 0 <= w < blk.len() && blk[w] == x;
        assert(cur[prev.len() + w] == x);
    } else {
        lemma_l1_frags_contains_block(bs, n - 1, i, x);
        let prev = l1_frags(bs, n - 1);
        let w = choose|w: int| 0 <= w < prev.len() && prev[w] == x;
        assert(cur[w] == x);
    }
}

proof fn lemma_l2_block_frags_contains_ety(cs: Seq<Node>, n: int, j: int, x: Seq<char>)
    requires
        1 <= j < n <= cs.len(),
        is_etymology_section(cs[j]),
        l2_ety_frags(children_of(cs[j]), children_of(cs[j]).len() as int).contains(x),
    ensures
        l2_block_frags(cs, n).contains(x),
    decreases n,
{
    let cur = l2_block_frags(cs, n);
    if j == n - 1 {
        let prev = l2_block_frags(cs, n - 1);
        let ety = l2_ety_frags(children_of(cs[j]), children_of(cs[j]).len() as int);
        let w = choose|w: int| 0 <= w < ety.len() && ety[w] == x;
        assert(cur[prev.len() + w] == x);
    } else {
        lemma_l2_block_frags_contains_ety(cs, n - 1, j, x);
        let prev = l2_block_frags(cs, n - 1);
        let w = choose|w: int| 0 <= w < prev.len() && prev[w] == x;
        assert(cur[w] == x);
    }
}

proof fn lemma_l2_frags_contains_block(bs: Seq<Node>, n: int, i: int, x: Seq<char>)
    requires
        0 <= i < n <= bs.len(),
        is_spanish_block(bs[i]),
        l2_block_frags(children_of(bs[i]), children_of(bs[i]).len() as int).contains(x),
    ensures
        l2_frags(bs, n).contains(x),
    decreases n,
{
    let cur = l2_frags(bs, n);
    if i == n - 1 {
        let prev = l2_frags(bs, n - 1);
        let blk = l2_block_frags(children_of(bs[i]), children_of(bs[i]).len() as int);
        let w = choose|w: int| 0 <= w < blk.len() && blk[w] == x;
        assert(cur[prev.len() + w] == x);
    } else {
        lemma_l2_frags_contains_block(bs, n - 1, i, x);
        let prev = l2_frags(bs, n - 1);
        let w = choose|w: int| 0 <= w < prev.len() && prev[w] == x;
        assert(cur[w] == x);
    }
}

/// A part-of-speech section directly under the Spanish block is always
/// extracted by Layout-1: its verbatim markup is among the document's
/// Layout-1 fragments.
pub proof fn lemma_role_section_extracted_layout1(doc: Document, i: int, j: int)
    requires
        0 <= i < doc.body@.len(),
        is_spanish_block(doc.body@[i]),
        1 <= j < children_of(doc.body@[i]).len(),
        is_role_section(children_of(doc.body@[i])[j]),
    ensures
        layout1_fragments(doc).contains(markup_of(children_of(doc.body@[i])[j])),
{
    let cs = children_of(doc.body@[i]);
    lemma_l1_block_frags_contains(cs, cs.len() as int, j);
    lemma_l1_frags_contains_block(
        doc.body@,
        doc.body@.len() as int,
        i,
        markup_of(cs[j]),
    );
}

/// A part-of-speech section under an Etymology section of the Spanish block
/// is always extracted by Layout-2: its markup, with heading levels promoted,
/// is among the document's Layout-2 fragments.
pub proof fn lemma_role_section_extracted_layout2(doc: Document, i: int, j: int, k: int)
    requires
        0 <= i < doc.body@.len(),
        is_spanish_block(doc.body@[i]),
        1 <= j < children_of(doc.body@[i]).len(),
        is_etymology_section(children_of(doc.body@[i])[j]),
        1 <= k < children_of(children_of(doc.body@[i])[j]).len(),
        is_role_section(children_of(children_of(doc.body@[i])[j])[k]),
    ensures
        layout2_fragments(doc).contains(
            promoted(markup_of(children_of(children_of(doc.body@[i])[j])[k])),
        ),
{
    let cs = children_of(doc.body@[i]);
    let es = children_of(cs[j]);
    lemma_l2_ety_frags_contains(es, es.len() as int, k);
    lemma_l2_block_frags_contains_ety(cs, cs.len() as int, j, promoted(markup_of(es[k])));
    lemma_l2_frags_contains_block(
        doc.body@,
        doc.body@.len() as int,
        i,
        promoted(markup_of(es[k])),
    );
}

/// Heading-token matching is exact-string and case-sensitive: a section
/// headed "noun" (lowercase) is never a match, while one headed "Noun" is
/// always extracted — directly under the Spanish block in Layout-1, and under
/// an Etymology section in Layout-2 (there with its heading levels promoted).
pub proof fn lemma_heading_match_exact(cs: Seq<Node>, n: int, j: int)
    requires
        1 <= j < n <= cs.len(),
    ensures
        heading_token(cs[j]) == Some("noun"@) ==> !is_role_section(cs[j]),
        heading_token(cs[j]) == Some("Noun"@) ==> is_role_section(cs[j]) && l1_block_frags(
            cs,
            n,
        ).contains(markup_of(cs[j])) && l2_ety_frags(cs, n).contains(promoted(markup_of(cs[j]))),
{
    reveal_strlit("noun");
    reveal_strlit("Noun");
    reveal_strlit("Verb");
    reveal_strlit("Adjective");
    reveal_strlit("Adverb");
    reveal_strlit("Pronoun");
    reveal_strlit("Preposition");
    reveal_strlit("Conjunction");
    reveal_strlit("Interjection");
    reveal_strlit("Determiner");
    reveal_strlit("Article");
    reveal_strlit("Participle");
    assert("noun"@[0] != "Noun"@[0]);
    assert("noun"@[0] != "Verb"@[0]);
    assert(!is_role("noun"@));
    if heading_token(cs[j]) == Some("Noun"@) {
        assert(is_role("Noun"@));
        lemma_l1_block_frags_contains(cs, n, j);
        lemma_l2_ety_frags_contains(cs, n, j);
    }
}

} // verus!
