//! The two layout extractors and the dispatcher.
//!
//! Both extractors locate the top-level section whose first child carries the
//! anchor identifier "Spanish". Layout-1 then extracts the markup of every
//! direct child section headed by a part-of-speech name. Layout-2 expects one
//! extra nesting level — child sections headed "Etymology N" — and extracts
//! the part-of-speech sections inside them, promoting their heading levels by
//! one so the output shape matches Layout-1's.
//!
//! The dispatcher tries Layout-1 first and falls back to Layout-2; if both
//! yield nothing the word is reported as not found. A matched section that is
//! not an element has no markup to extract: that is a malformed-input error,
//! propagated as a hard failure distinct from not-found.

use vstd::prelude::*;

use crate::dom::{
    children_of, children_ref, first_child, heading_of, heading_token, is_element, markup_of,
    Document, Node,
};
use crate::headings::{promote_headings, promoted};
use crate::vocab::{is_etymology_heading, is_role, is_word_role, starts_with_etymology};

verus! {

/// A matched part-of-speech section could not be rendered back to markup:
/// a parser invariant violation, distinct from a "not found" outcome.
#[derive(Clone, Copy, Debug, PartialEq, Eq, Structural)]
pub struct MalformedInput;

/// Whether the section's heading token is a part-of-speech name.
pub open spec fn is_role_section(n: Node) -> bool {
    match heading_token(n) {
        Some(t) => is_role(t),
        None => false,
    }
}

/// Whether the section's heading token starts with "Etymology ".
pub open spec fn is_etymology_section(n: Node) -> bool {
    match heading_token(n) {
        Some(t) => is_etymology_heading(t),
        None => false,
    }
}

/// Whether a top-level section is the Spanish block: its first child is an
/// element whose anchor identifier is exactly "Spanish".
pub open spec fn is_spanish_block(n: Node) -> bool {
    match first_child(n) {
        Some(c) => match c {
            Node::Element(e) => match e.anchor {
                Some(a) => a@ == "Spanish"@,
                None => false,
            },
            _ => false,
        },
        None => false,
    }
}

/// The Layout-1 fragments among the first `n` children of a Spanish block:
/// the verbatim markup of every part-of-speech section after the first child
/// (the anchor element itself), in document order.
pub open spec fn l1_block_frags(cs: Seq<Node>, n: int) -> Seq<Seq<char>>
    decreases n,
{
    if n <= 1 {
        Seq::empty()
    } else {
        let prev = l1_block_frags(cs, n - 1);
        if is_role_section(cs[n - 1]) {
            prev.push(markup_of(cs[n - 1]))
        } else {
            prev
        }
    }
}

/// Whether the first `n` children of a block hold a matched part-of-speech
/// section that is not an element, i.e. has no extractable markup.
pub open spec fn block_malformed(cs: Seq<Node>, n: int) -> bool {
    exists|j: int| 1 <= j < n && is_role_section(cs[j]) && !is_element(cs[j])
}

/// The Layout-1 fragments of the first `n` top-level sections.
pub open spec fn l1_frags(bs: Seq<Node>, n: int) -> Seq<Seq<char>>
    decreases n,
{
    if n <= 0 {
        Seq::empty()
    } else {
        let prev = l1_frags(bs, n - 1);
        if is_spanish_block(bs[n - 1]) {
            prev + l1_block_frags(
                children_of(bs[n - 1]),
                children_of(bs[n - 1]).len() as int,
            )
        } else {
            prev
        }
    }
}

/// Whether any Spanish block among the first `n` top-level sections holds a
/// matched part-of-speech section with no extractable markup.
pub open spec fn l1_malformed(bs: Seq<Node>, n: int) -> bool {
    exists|i: int|
        0 <= i < n && is_spanish_block(bs[i]) && block_malformed(
            children_of(bs[i]),
            children_of(bs[i]).len() as int,
        )
}

/// The fragments Layout-1 extracts from the document.
pub open spec fn layout1_fragments(doc: Document) -> Seq<Seq<char>> {
    l1_frags(doc.body@, doc.body@.len() as int)
}

/// Whether Layout-1 extraction fails on the document.
pub open spec fn layout1_malformed(doc: Document) -> bool {
    l1_malformed(doc.body@, doc.body@.len() as int)
}

/// In the first possible page layout, the part-of-speech sections sit
/// directly under the Spanish block. Returns their markup, verbatim, in
/// document order; `None` when no Spanish block or no matching section was
/// found; an error when a matched section has no extractable markup.
pub fn parse_wiktionary_layout1(doc: &Document) -> (r: Result<
    Option<Vec<String>>,
    MalformedInput,
>)
    ensures
        match r {
            Ok(fs) => !layout1_malformed(*doc) && match fs {
                Some(v) => v.deep_view() == layout1_fragments(*doc) && v@.len() > 0,
                None => layout1_fragments(*doc).len() == 0,
            },
            Err(_) => layout1_malformed(*doc),
        },
{
    let ghost bs = doc.body@;
    let mut result: Vec<String> = Vec::new();
    let mut i: usize = 0;
    proof {
        assert(result.deep_view() =~= l1_frags(bs, 0));
    }
    while i < doc.body.len()
        invariant
            0 <= i <= bs.len(),
            doc.body@ == bs,
            !l1_malformed(bs, i as int),
            result.deep_view() == l1_frags(bs, i as int),
        decreases bs.len() - i,
    {
        let section = &doc.body[i];
        if is_spanish_block_node(section) {
            if let Some(kids) = children_ref(section) {
                let m = kids.len();
                let ghost cs = kids@;
                let mut j: usize = 1;
                while j < m
                    invariant
                        1 <= j <= m || (m == 0 && j == 1),
                        m == cs.len(),
                        kids@ == cs,
                        doc.body@ == bs,
                        0 <= i < bs.len(),
                        is_spanish_block(bs[i as int]),
                        children_of(bs[i as int]) == cs,
                        !l1_malformed(bs, i as int),
                        !block_malformed(cs, j as int),
                        result.deep_view() == l1_frags(bs, i as int) + l1_block_frags(
                            cs,
                            j as int,
                        ),
                    decreases m - j,
                {
                    let child = &kids[j];
                    let ghost dv0 = result.deep_view();
                    let matched = match heading_of(child) {
                        Some(t) => is_word_role(t),
                        None => false,
                    };
                    if matched {
                        match child {
                            Node::Element(e) => {
                                result.push(e.markup.clone());
                                proof {
                                    assert(result.deep_view() =~= dv0.push(e.markup@));
                                }
                            },
                            _ => {
                                proof {
                                    assert(is_role_section(cs[j as int]) && !is_element(
                                        cs[j as int],
                                    ));
                                    assert(block_malformed(cs, cs.len() as int));
                                    assert(l1_malformed(bs, bs.len() as int));
                                }
                                return Err(MalformedInput);
                            },
                        }
                    }
                    j += 1;
                }
                proof {
                    assert(l1_block_frags(cs, j as int) == l1_block_frags(cs, cs.len() as int));
                }
            }
        }
        proof {
            assert(!l1_malformed(bs, i + 1 as int));
        }
        i += 1;
    }
    if result.len() == 0 {
        Ok(None)
    } else {
        Ok(Some(result))
    }
}

/// The Layout-2 fragments among the first `n` children of an Etymology
/// section: the markup of every part-of-speech section after the first child,
/// each with its heading levels promoted by one.
pub open spec fn l2_ety_frags(cs: Seq<Node>, n: int) -> Seq<Seq<char>>
    decreases n,
{
    if n <= 1 {
        Seq::empty()
    } else {
        let prev = l2_ety_frags(cs, n - 1);
        if is_role_section(cs[n - 1]) {
            prev.push(promoted(markup_of(cs[n - 1])))
        } else {
            prev
        }
    }
}

/// The Layout-2 fragments among the first `n` children of a Spanish block:
/// what the Etymology sections among them yield, in document order. A child
/// not headed "Etymology " is skipped entirely.
pub open spec fn l2_block_frags(cs: Seq<Node>, n: int) -> Seq<Seq<char>>
    decreases n,
{
    if n <= 1 {
        Seq::empty()
    } else {
        let prev = l2_block_frags(cs, n - 1);
        if is_etymology_section(cs[n - 1]) {
            prev + l2_ety_frags(
                children_of(cs[n - 1]),
                children_of(cs[n - 1]).len() as int,
            )
        } else {
            prev
        }
    }
}

/// Whether any Etymology section among the first `n` children of a Spanish
/// block holds a matched part-of-speech section with no extractable markup.
pub open spec fn l2_block_malformed(cs: Seq<Node>, n: int) -> bool {
    exists|j: int|
        1 <= j < n && is_etymology_section(cs[j]) && block_malformed(
            children_of(cs[j]),
            children_of(cs[j]).len() as int,
        )
}

/// The Layout-2 fragments of the first `n` top-level sections.
pub open spec fn l2_frags(bs: Seq<Node>, n: int) -> Seq<Seq<char>>
    decreases n,
{
    if n <= 0 {
        Seq::empty()
    } else {
        let prev = l2_frags(bs, n - 1);
        if is_spanish_block(bs[n - 1]) {
            prev + l2_block_frags(
                children_of(bs[n - 1]),
                children_of(bs[n - 1]).len() as int,
            )
        } else {
            prev
        }
    }
}

/// Whether any Spanish block among the first `n` top-level sections fails
/// Layout-2 extraction.
pub open spec fn l2_malformed(bs: Seq<Node>, n: int) -> bool {
    exists|i: int|
        0 <= i < n && is_spanish_block(bs[i]) && l2_block_malformed(
            children_of(bs[i]),
            children_of(bs[i]).len() as int,
        )
}

/// The fragments Layout-2 extracts from the document.
pub open spec fn layout2_fragments(doc: Document) -> Seq<Seq<char>> {
    l2_frags(doc.body@, doc.body@.len() as int)
}

/// Whether Layout-2 extraction fails on the document.
pub open spec fn layout2_malformed(doc: Document) -> bool {
    l2_malformed(doc.body@, doc.body@.len() as int)
}

/// In the second possible page layout, the part-of-speech sections sit inside
/// child sections of the Spanish block headed "Etymology N". Returns their
/// markup with heading levels promoted by one, in document order; `None` when
/// nothing matched; an error when a matched section has no extractable
/// markup.
pub fn parse_wiktionary_layout2(doc: &Document) -> (r: Result<
    Option<Vec<String>>,
    MalformedInput,
>)
    ensures
        match r {
            Ok(fs) => !layout2_malformed(*doc) && match fs {
                Some(v) => v.deep_view() == layout2_fragments(*doc) && v@.len() > 0,
                None => layout2_fragments(*doc).len() == 0,
            },
            Err(_) => layout2_malformed(*doc),
        },
{
    let ghost bs = doc.body@;
    let mut result: Vec<String> = Vec::new();
    let mut i: usize = 0;
    proof {
        assert(result.deep_view() =~= l2_frags(bs, 0));
    }
    while i < doc.body.len()
        invariant
            0 <= i <= bs.len(),
            doc.body@ == bs,
            !l2_malformed(bs, i as int),
            result.deep_view() == l2_frags(bs, i as int),
        decreases bs.len() - i,
    {
        let section = &doc.body[i];
        if is_spanish_block_node(section) {
            if let Some(kids) = children_ref(section) {
                let m = kids.len();
                let ghost cs = kids@;
                let mut j: usize = 1;
                while j < m
                    invariant
                        1 <= j <= m || (m == 0 && j == 1),
                        m == cs.len(),
                        kids@ == cs,
                        doc.body@ == bs,
                        0 <= i < bs.len(),
                        is_spanish_block(bs[i as int]),
                        children_of(bs[i as int]) == cs,
                        !l2_malformed(bs, i as int),
                        !l2_block_malformed(cs, j as int),
                        result.deep_view() == l2_frags(bs, i as int) + l2_block_frags(
                            cs,
                            j as int,
                        ),
                    decreases m - j,
                {
                    let child = &kids[j];
                    let is_ety = match heading_of(child) {
                        Some(t) => starts_with_etymology(t),
                        None => false,
                    };
                    if is_ety {
                        if let Some(inner) = children_ref(child) {
                            let p = inner.len();
                            let ghost es = inner@;
                            let ghost dvj = result.deep_view();
                            let mut k: usize = 1;
                            while k < p
                                invariant
                                    1 <= k <= p || (p == 0 && k == 1),
                                    p == es.len(),
                                    inner@ == es,
                                    doc.body@ == bs,
                                    0 <= i < bs.len(),
                                    is_spanish_block(bs[i as int]),
                                    children_of(bs[i as int]) == cs,
                                    1 <= j < cs.len(),
                                    is_etymology_section(cs[j as int]),
                                    children_of(cs[j as int]) == es,
                                    !l2_malformed(bs, i as int),
                                    !l2_block_malformed(cs, j as int),
                                    !block_malformed(es, k as int),
                                    dvj == l2_frags(bs, i as int) + l2_block_frags(cs, j as int),
                                    result.deep_view() == dvj + l2_ety_frags(es, k as int),
                                decreases p - k,
                            {
                                let leaf = &inner[k];
                                let ghost dv0 = result.deep_view();
                                let matched = match heading_of(leaf) {
                                    Some(t) => is_word_role(t),
                                    None => false,
                                };
                                if matched {
                                    match leaf {
                                        Node::Element(e) => {
                                            result.push(promote_headings(e.markup.as_str()));
                                            proof {
                                                assert(result.deep_view() =~= dv0.push(
                                                    promoted(e.markup@),
                                                ));
                                            }
                                        },
                                        _ => {
                                            proof {
                                                assert(is_role_section(es[k as int])
                                                    && !is_element(es[k as int]));
                                                assert(block_malformed(es, es.len() as int));
                                                assert(l2_block_malformed(cs, cs.len() as int));
                                                assert(l2_malformed(bs, bs.len() as int));
                                            }
                                            return Err(MalformedInput);
                                        },
                                    }
                                }
                                k += 1;
                            }
                            proof {
                                assert(l2_ety_frags(es, k as int) == l2_ety_frags(
                                    es,
                                    es.len() as int,
                                ));
                                assert(l2_block_frags(cs, j + 1 as int) == l2_block_frags(
                                    cs,
                                    j as int,
                                ) + l2_ety_frags(es, es.len() as int));
                                assert(result.deep_view() =~= l2_frags(bs, i as int)
                                    + l2_block_frags(cs, j + 1 as int));
                            }
                        }
                    }
                    j += 1;
                }
                proof {
                    assert(l2_block_frags(cs, j as int) == l2_block_frags(cs, cs.len() as int));
                }
            }
        }
        proof {
            assert(!l2_malformed(bs, i + 1 as int));
        }
        i += 1;
    }
    if result.len() == 0 {
        Ok(None)
    } else {
        Ok(Some(result))
    }
}

/// The result of parsing a document, as the dispatcher reports it: the
/// Layout-1 fragments when Layout-1 matched, else the Layout-2 fragments when
/// Layout-2 matched, else `None`; an error when the preferred layout's
/// extraction failed on malformed input.
pub open spec fn parse_spec(doc: Document) -> Result<Option<Seq<Seq<char>>>, MalformedInput> {
    if layout1_malformed(doc) {
        Err(MalformedInput)
    } else if layout1_fragments(doc).len() > 0 {
        Ok(Some(layout1_fragments(doc)))
    } else if layout2_malformed(doc) {
        Err(MalformedInput)
    } else if layout2_fragments(doc).len() > 0 {
        Ok(Some(layout2_fragments(doc)))
    } else {
        Ok(None)
    }
}

/// The dispatcher: tries Layout-1 first; if it yields nothing, tries
/// Layout-2; if both yield nothing, returns `None` (the word is not found).
/// Layout-1 is authoritative when both layouts could match.
pub fn parse_wiktionary(doc: &Document) -> (r: Result<Option<Vec<String>>, MalformedInput>)
    ensures
        match r {
            Ok(fs) => match fs {
                Some(v) => parse_spec(*doc) == Ok::<Option<Seq<Seq<char>>>, MalformedInput>(
                    Some(v.deep_view()),
                ),
                None => parse_spec(*doc) == Ok::<Option<Seq<Seq<char>>>, MalformedInput>(
                    None::<Seq<Seq<char>>>,
                ),
            },
            Err(_) => parse_spec(*doc) is Err,
        },
{
    match parse_wiktionary_layout1(doc) {
        Err(e) => Err(e),
        Ok(Some(v)) => Ok(Some(v)),
        Ok(None) => parse_wiktionary_layout2(doc),
    }
}

/// Whether the section's first child is an element anchored "Spanish".
fn is_spanish_block_node(n: &Node) -> (b: bool)
    ensures
        b == is_spanish_block(*n),
{
    match crate::dom::first_child_ref(n) {
        Some(c) => match c {
            Node::Element(e) => match &e.anchor {
                Some(a) => *a == "Spanish".to_owned(),
                None => false,
            },
            _ => false,
        },
        None => false,
    }
}

} // verus!
