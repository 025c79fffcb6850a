use vstd::prelude::*;

use ropey::Rope;

verus! {

#[verifier::external_type_specification]
#[verifier::external_body]
pub struct ExRope(Rope);

/// The character sequence a rope holds.
pub uninterp spec fn rope_text(r: Rope) -> Seq<char>;

/// Relies on ropey::Rope::from_str, which builds a rope holding exactly
/// the given text.
#[verifier::external_body]
pub fn rope_from_str(s: &str) -> (r: Rope)
    ensures
        rope_text(r) == s@,
{
    Rope::from_str(s)
}

/// Relies on ropey::Rope::len_chars: the total number of chars in the
/// rope.
#[verifier::external_body]
pub fn rope_len_chars(r: &Rope) -> (n: usize)
    ensures
        n == rope_text(*r).len(),
{
    r.len_chars()
}

/// Relies on ropey's `impl From<&Rope> for String`, which copies the
/// rope's full contents into a string.
#[verifier::external_body]
pub fn rope_to_string(r: &Rope) -> (s: String)
    ensures
        s@ == rope_text(*r),
{
    String::from(r)
}

/// Relies on ropey::Rope::insert, which splices `text` in at the given
/// char index and panics only when the index is out of bounds.
#[verifier::external_body]
pub fn rope_insert(r: &mut Rope, char_idx: usize, text: &str)
    requires
        char_idx <= rope_text(*old(r)).len(),
    ensures
        rope_text(*final(r)) == rope_text(*old(r)).take(char_idx as int) + text@ + rope_text(
            *old(r),
        ).skip(char_idx as int),
{
    r.insert(char_idx, text)
}

/// Relies on ropey::Rope::remove, which removes the chars in
/// `start..end` and panics only when the range is out of bounds or
/// reversed.
#[verifier::external_body]
pub fn rope_remove(r: &mut Rope, start: usize, end: usize)
    requires
        start <= end <= rope_text(*old(r)).len(),
    ensures
        rope_text(*final(r)) == rope_text(*old(r)).take(start as int) + rope_text(*old(r)).skip(
            end as int,
        ),
{
    r.remove(start..end)
}

} // verus!
