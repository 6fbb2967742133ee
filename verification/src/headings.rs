//! The heading-level rewrite applied to Layout-2 fragments.
//!
//! Layout-2 nests part-of-speech sections one level deeper than Layout-1, so
//! their extracted markup carries heading tags one level too deep. The
//! rewrite promotes every level-4 heading tag (open and close) to level 3 and
//! every level-5 heading tag to level 4, in one left-to-right pass, so that
//! both layouts' output shares one heading hierarchy.
//!
//! The rewrite only handles levels 4 and 5: markup nested deeper than the two
//! recognized layouts would retain its heading levels (a known limitation).

use vstd::prelude::*;
use vstd::string::StrSliceExecFns;

verus! {

/// Whether `s` begins with the closing heading tag prefix `</h` followed by
/// the digit `d`.
pub open spec fn starts_close_tag(s: Seq<char>, d: char) -> bool {
    s.len() >= 4 && s[0] == '<' && s[1] == '/' && s[2] == 'h' && s[3] == d
}

/// Whether `s` begins with the opening heading tag prefix `<h` followed by
/// the digit `d`.
pub open spec fn starts_open_tag(s: Seq<char>, d: char) -> bool {
    s.len() >= 3 && s[0] == '<' && s[1] == 'h' && s[2] == d
}

/// The markup with every level-4 heading tag promoted to level 3 and every
/// level-5 heading tag promoted to level 4, scanning left to right. Tag
/// occurrences cannot overlap (each holds exactly one `<`, at its start), so
/// each occurrence is rewritten exactly once.
pub open spec fn promoted(s: Seq<char>) -> Seq<char>
    decreases s.len(),
{
    if s.len() == 0 {
        s
    } else if starts_close_tag(s, '4') {
        seq!['<', '/', 'h', '3'] + promoted(s.skip(4))
    } else if starts_close_tag(s, '5') {
        seq!['<', '/', 'h', '4'] + promoted(s.skip(4))
    } else if starts_open_tag(s, '4') {
        seq!['<', 'h', '3'] + promoted(s.skip(3))
    } else if starts_open_tag(s, '5') {
        seq!['<', 'h', '4'] + promoted(s.skip(3))
    } else {
        seq![s[0]] + promoted(s.skip(1))
    }
}

/// Whether an opening level-5 heading tag `<h5` occurs in `t` at position `i`.
pub open spec fn h5_open_at(t: Seq<char>, i: int) -> bool {
    0 <= i && i + 3 <= t.len() && t[i] == '<' && t[i + 1] == 'h' && t[i + 2] == '5'
}

/// Whether a closing level-5 heading tag `</h5` occurs in `t` at position `i`.
pub open spec fn h5_close_at(t: Seq<char>, i: int) -> bool {
    0 <= i && i + 4 <= t.len() && t[i] == '<' && t[i + 1] == '/' && t[i + 2] == 'h' && t[i + 3]
        == '5'
}

/// Whether `t` holds no level-5 heading tag, opening or closing.
pub open spec fn no_h5(t: Seq<char>) -> bool {
    forall|i: int| !h5_open_at(t, i) && !h5_close_at(t, i)
}

/// When the rewrite copied its first character unchanged, that character is
/// the input's first character and the rest of the output is the rewrite of
/// the rest of the input. (Every replaced tag starts with `<`, so an output
/// that starts otherwise must have been copied.)
proof fn lemma_promoted_head_copy(s: Seq<char>)
    requires
        promoted(s).len() > 0,
        promoted(s)[0] != '<',
    ensures
        s.len() > 0,
        promoted(s) == seq![s[0]] + promoted(s.skip(1)),
        promoted(s)[0] == s[0],
{
}

/// The rewrite is total: its output holds no level-5 heading tag, opening or
/// closing. Every `<h5` and `</h5` of the input was promoted to level 4, and
/// no rewrite output reassembles into a level-5 tag.
pub proof fn lemma_promoted_no_h5(s: Seq<char>)
    ensures
        no_h5(promoted(s)),
    decreases s.len(),
{
    let t = promoted(s);
    if s.len() == 0 {
        assert forall|i: int| !h5_open_at(t, i) && !h5_close_at(t, i) by {}
    } else if starts_close_tag(s, '4') || starts_close_tag(s, '5') {
        lemma_promoted_no_h5(s.skip(4));
        let tail = promoted(s.skip(4));
        assert forall|i: int| !h5_open_at(t, i) && !h5_close_at(t, i) by {
            if i >= 4 {
                if h5_open_at(t, i) {
                    assert(h5_open_at(tail, i - 4));
                }
                if h5_close_at(t, i) {
                    assert(h5_close_at(tail, i - 4));
                }
            }
        }
    } else if starts_open_tag(s, '4') || starts_open_tag(s, '5') {
        lemma_promoted_no_h5(s.skip(3));
        let tail = promoted(s.skip(3));
        assert forall|i: int| !h5_open_at(t, i) && !h5_close_at(t, i) by {
            if i >= 3 {
                if h5_open_at(t, i) {
                    assert(h5_open_at(tail, i - 3));
                }
                if h5_close_at(t, i) {
                    assert(h5_close_at(tail, i - 3));
                }
            }
        }
    } else {
        lemma_promoted_no_h5(s.skip(1));
        let tail = promoted(s.skip(1));
        assert(t == seq![s[0]] + tail);
        assert forall|i: int| !h5_open_at(t, i) && !h5_close_at(t, i) by {
            if i >= 1 {
                if h5_open_at(t, i) {
                    assert(h5_open_at(tail, i - 1));
                }
                if h5_close_at(t, i) {
                    assert(h5_close_at(tail, i - 1));
                }
            } else if i == 0 {
                if h5_open_at(t, 0) {
                    // t = s[0], 'h', '5', ...: both following characters were
                    // copied, so the input started with an open level-5 tag
                    // and the copy branch could not have been taken.
                    assert(tail[0] == 'h' && tail[0] != '<');
                    lemma_promoted_head_copy(s.skip(1));
                    assert(s.skip(1).skip(1) =~= s.skip(2));
                    assert(promoted(s.skip(2))[0] == '5');
                    lemma_promoted_head_copy(s.skip(2));
                    assert(s[1] == 'h' && s[2] == '5' && s[0] == '<');
                    assert(starts_open_tag(s, '5'));
                    assert(false);
                }
                if h5_close_at(t, 0) {
                    assert(tail[0] == '/' && tail[0] != '<');
                    lemma_promoted_head_copy(s.skip(1));
                    assert(s.skip(1).skip(1) =~= s.skip(2));
                    assert(promoted(s.skip(2))[0] == 'h');
                    lemma_promoted_head_copy(s.skip(2));
                    assert(s.skip(2).skip(1) =~= s.skip(3));
                    assert(promoted(s.skip(3))[0] == '5');
                    lemma_promoted_head_copy(s.skip(3));
                    assert(s[1] == '/' && s[2] == 'h' && s[3] == '5' && s[0] == '<');
                    assert(starts_close_tag(s, '5'));
                    assert(false);
                }
            }
        }
    }
}

/// Relies on String::push: appends the one character to the end of the string.
#[verifier::external_body]
fn push_char(s: &mut String, c: char)
    ensures
        final(s)@ == old(s)@.push(c),
{
    s.push(c)
}

/// Rewrites heading tags one level up: `<h4`/`</h4` become `<h3`/`</h3`, and
/// `<h5`/`</h5` become `<h4`/`</h4`.
pub fn promote_headings(s: &str) -> (r: String)
    ensures
        r@ == promoted(s@),
{
    let n: usize = s.unicode_len();
    let mut out = String::new();
    let mut i: usize = 0;
    proof {
        assert(s@.skip(0) =~= s@);
        assert(out@ + promoted(s@) =~= promoted(s@));
    }
    while i < n
        invariant
            0 <= i <= n,
            n == s@.len(),
            promoted(s@) == out@ + promoted(s@.skip(i as int)),
        decreases n - i,
    {
        proof {
            reveal_strlit("</h3");
            reveal_strlit("</h4");
            reveal_strlit("<h3");
            reveal_strlit("<h4");
        }
        let ghost rest = s@.skip(i as int);
        let ghost out0 = out@;
        let c0 = s.get_char(i);
        assert(rest[0] == s@[i as int]);
        if c0 == '<' && n - i >= 4 && s.get_char(i + 1) == '/' && s.get_char(i + 2) == 'h' && (
        s.get_char(i + 3) == '4' || s.get_char(i + 3) == '5') {
            if s.get_char(i + 3) == '4' {
                out.append("</h3");
                proof {
                    assert(starts_close_tag(rest, '4'));
                    assert(("</h3")@ =~= seq!['<', '/', 'h', '3']);
                }
            } else {
                out.append("</h4");
                proof {
                    assert(!starts_close_tag(rest, '4'));
                    assert(starts_close_tag(rest, '5'));
                    assert(("</h4")@ =~= seq!['<', '/', 'h', '4']);
                }
            }
            proof {
                assert(rest.skip(4) =~= s@.skip(i + 4));
                assert(out@ + promoted(s@.skip(i + 4)) =~= promoted(s@));
            }
            i += 4;
        } else if c0 == '<' && n - i >= 3 && s.get_char(i + 1) == 'h' && (s.get_char(i + 2) == '4'
            || s.get_char(i + 2) == '5') {
            proof {
                assert(!starts_close_tag(rest, '4'));
                assert(!starts_close_tag(rest, '5'));
            }
            if s.get_char(i + 2) == '4' {
                out.append("<h3");
                proof {
                    assert(starts_open_tag(rest, '4'));
                    assert(("<h3")@ =~= seq!['<', 'h', '3']);
                }
            } else {
                out.append("<h4");
                proof {
                    assert(!starts_open_tag(rest, '4'));
                    assert(starts_open_tag(rest, '5'));
                    assert(("<h4")@ =~= seq!['<', 'h', '4']);
                }
            }
            proof {
                assert(rest.skip(3) =~= s@.skip(i + 3));
                assert(out@ + promoted(s@.skip(i + 3)) =~= promoted(s@));
            }
            i += 3;
        } else {
            push_char(&mut out, c0);
            proof {
                assert(!starts_close_tag(rest, '4'));
                assert(!starts_close_tag(rest, '5'));
                assert(!starts_open_tag(rest, '4'));
                assert(!starts_open_tag(rest, '5'));
                assert(promoted(rest) == seq![rest[0]] + promoted(rest.skip(1)));
                assert(rest.skip(1) =~= s@.skip(i + 1));
                assert(out@ =~= out0 + seq![rest[0]]);
                assert(out@ + promoted(s@.skip(i + 1)) =~= promoted(s@));
            }
            i += 1;
        }
    }
    proof {
        assert(s@.skip(n as int) =~= Seq::<char>::empty());
        assert(promoted(Seq::<char>::empty()) =~= Seq::<char>::empty());
        assert(out@ =~= promoted(s@));
    }
    out
}

} // verus!
