//! The string functions of the standard library that the library calls and
//! that have no specification of their own. Nothing in this file is proved:
//! each contract restates what the standard library documents.

use vstd::prelude::*;
use vstd::string::StringSliceAdditionalSpecFns;
use vstd::utf8::valid_utf8;

verus! {

/// A text without its leading and trailing white space, as `str::trim`
/// returns it.
pub uninterp spec fn trimmed(text: Seq<char>) -> Seq<char>;

/// A text in which every match of `from` is replaced by `to`, as
/// `str::replace` returns it.
pub uninterp spec fn replaced(text: Seq<char>, from: Seq<char>, to: Seq<char>) -> Seq<char>;

/// The words of a text, in order: its maximal runs without white space, as
/// `str::split_whitespace` yields them.
pub uninterp spec fn words(text: Seq<char>) -> Seq<Seq<char>>;

/// The view of each slice of a sequence.
pub open spec fn slice_texts(slices: Seq<&str>) -> Seq<Seq<char>> {
    Seq::new(slices.len(), |i: int| slices[i]@)
}

/// `str::split_whitespace`, collected: the words of the text, in order.
#[verifier::external_body]
pub(crate) fn str_words<'a>(s: &'a str) -> (r: Vec<&'a str>)
    ensures
        slice_texts(r@) == words(s@),
{
    s.split_whitespace().collect()
}

/// `str::trim`: the slice without leading and trailing white space.
#[verifier::external_body]
pub(crate) fn str_trim<'a>(s: &'a str) -> (r: &'a str)
    ensures
        r@ == trimmed(s@),
{
    s.trim()
}

/// `str::replace`: a new string with every match of `from` replaced by `to`.
#[verifier::external_body]
pub(crate) fn str_replace(s: &str, from: &str, to: &str) -> (r: String)
    ensures
        r@ == replaced(s@, from@, to@),
{
    s.replace(from, to)
}

/// `core::str::from_utf8`: the bytes as a string slice where they are UTF-8,
/// else `None`.
#[verifier::external_body]
pub(crate) fn utf8_text<'a>(bytes: &'a [u8]) -> (r: Option<&'a str>)
    ensures
        match r {
            Some(s) => valid_utf8(bytes@) && s.spec_bytes() == bytes@,
            None => !valid_utf8(bytes@),
        },
{
    core::str::from_utf8(bytes).ok()
}

} // verus!
