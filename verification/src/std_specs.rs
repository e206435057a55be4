//! What this library takes on trust from the standard library, where vstd
//! states nothing of it.

use crate::text::texts;
use std::string::FromUtf8Error;
use vstd::prelude::*;
use vstd::utf8::*;

verus! {

/// `std::string::FromUtf8Error`: why bytes were refused as text. Nothing is
/// read from it.
#[verifier::external_type_specification]
#[verifier::external_body]
pub struct ExFromUtf8Error(FromUtf8Error);

/// `String::push` puts one character at the end of the string and leaves the
/// rest as it was.
pub assume_specification[ String::push ](s: &mut String, c: char)
    ensures
        final(s)@ == old(s)@.push(c),
;

/// `String::from_utf8` accepts exactly the byte vectors that are well-formed
/// UTF-8, and the string it then returns consists of those very bytes.
pub assume_specification[ String::from_utf8 ](bytes: Vec<u8>) -> (res: Result<
    String,
    FromUtf8Error,
>)
    ensures
        res is Ok <==> valid_utf8(bytes@),
        res matches Ok(s) ==> encode_utf8(s@) == bytes@,
;

/// The text that the standard library's `Debug` formatting gives for a list of
/// strings: the strings between square brackets, each in double quotes with
/// what needs it escaped, a comma and a space between two of them.
pub uninterp spec fn debug_of(strings: Seq<Seq<char>>) -> Seq<char>;

/// Formats `strings` with `{:?}`. The result depends on the strings alone; the
/// contract gives it its name and says nothing more of it.
#[verifier::external_body]
pub(crate) fn debug_list(strings: &Vec<String>) -> (shown: String)
    ensures
        shown@ == debug_of(texts(strings@)),
{
    format!("{:?}", strings)
}

} // verus!
