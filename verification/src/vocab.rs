//! The fixed part-of-speech vocabulary and the "Etymology " heading prefix.
//!
//! Matching is exact-string and case-sensitive: the vocabulary is a closed
//! set, with no partial matching.

use vstd::prelude::*;
use vstd::string::StrSliceExecFns;

verus! {

/// Whether a heading token is one of the recognized part-of-speech names.
pub open spec fn is_role(t: Seq<char>) -> bool {
    ||| t == "Noun"@
    ||| t == "Verb"@
    ||| t == "Adjective"@
    ||| t == "Adverb"@
    ||| t == "Pronoun"@
    ||| t == "Preposition"@
    ||| t == "Conjunction"@
    ||| t == "Interjection"@
    ||| t == "Determiner"@
    ||| t == "Article"@
    ||| t == "Participle"@
}

/// Whether a heading token starts with the literal prefix "Etymology "
/// (case- and space-sensitive).
pub open spec fn is_etymology_heading(t: Seq<char>) -> bool {
    t.len() >= "Etymology "@.len() && t.subrange(0, "Etymology "@.len() as int) == "Etymology "@
}

/// Whether the heading token is one of the recognized part-of-speech names.
pub fn is_word_role(t: &String) -> (b: bool)
    ensures
        b == is_role(t@),
{
    ||| *t == "Noun".to_owned()
    ||| *t == "Verb".to_owned()
    ||| *t == "Adjective".to_owned()
    ||| *t == "Adverb".to_owned()
    ||| *t == "Pronoun".to_owned()
    ||| *t == "Preposition".to_owned()
    ||| *t == "Conjunction".to_owned()
    ||| *t == "Interjection".to_owned()
    ||| *t == "Determiner".to_owned()
    ||| *t == "Article".to_owned()
    ||| *t == "Participle".to_owned()
}

/// Whether the heading token starts with the literal prefix "Etymology ".
pub fn starts_with_etymology(t: &String) -> (b: bool)
    ensures
        b == is_etymology_heading(t@),
{
    proof {
        reveal_strlit("Etymology ");
    }
    let prefix: &str = "Etymology ";
    let n: usize = prefix.unicode_len();
    if t.as_str().unicode_len() < n {
        return false;
    }
    let mut i: usize = 0;
    while i < n
        invariant
            0 <= i <= n,
            n == "Etymology "@.len(),
            prefix@ == "Etymology "@,
            t@.len() >= n,
            forall|k: int| 0 <= k < i ==> t@[k] == "Etymology "@[k],
        decreases n - i,
    {
        if t.as_str().get_char(i) != prefix.get_char(i) {
            assert(t@.subrange(0, n as int)[i as int] == t@[i as int]);
            return false;
        }
        i += 1;
    }
    assert(t@.subrange(0, n as int) =~= "Etymology "@);
    true
}

} // verus!
