//! Prefix tests and prefix removal on strings, over their characters.

use vstd::prelude::*;

verus! {

/// Whether `text` begins with `prefix`: a plain, case-sensitive comparison
/// character by character. The empty prefix begins every string.
pub fn starts_with(text: &str, prefix: &str) -> (found: bool)
    ensures
        found == prefix@.is_prefix_of(text@),
{
    let prefix_len: usize = prefix.unicode_len();
    let text_len: usize = text.unicode_len();
    if prefix_len > text_len {
        return false;
    }
    let mut at: usize = 0;
    while at < prefix_len
        invariant
            prefix_len == prefix@.len(),
            text_len == text@.len(),
            prefix_len <= text_len,
            at <= prefix_len,
            forall|i: int| 0 <= i < at ==> prefix@[i] == text@[i],
        decreases prefix_len - at,
    {
        if prefix.get_char(at) != text.get_char(at) {
            assert(prefix@[at as int] != text@.subrange(0, prefix@.len() as int)[at as int]);
            return false;
        }
        at += 1;
    }
    assert(prefix@ =~= text@.subrange(0, prefix@.len() as int));
    true
}

/// What is left of `text` once the first `prefix@.len()` characters are taken
/// from its start.
pub open spec fn without_prefix(text: Seq<char>, prefix: Seq<char>) -> Seq<char> {
    text.skip(prefix.len() as int)
}

/// Removes one leading `prefix` from `text`. A prefix that occurs again right
/// after the first is kept: only the first occurrence leaves.
pub fn strip_prefix(text: &str, prefix: &str) -> (rest: String)
    requires
        prefix@.is_prefix_of(text@),
    ensures
        rest@ == without_prefix(text@, prefix@),
        prefix@ + rest@ == text@,
{
    let prefix_len: usize = prefix.unicode_len();
    let text_len: usize = text.unicode_len();
    let rest = text.substring_char(prefix_len, text_len).to_owned();
    assert(rest@ =~= text@.skip(prefix@.len() as int));
    assert(prefix@ + rest@ =~= text@);
    rest
}

} // verus!
