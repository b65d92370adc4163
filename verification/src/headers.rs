//! Header maps: what they hold, and the two operations that fill them.

use axum::http::{HeaderMap, HeaderValue};
use vstd::prelude::*;
use vstd::string::*;
use vstd::utf8::encode_utf8;

use crate::text::is_visible;

verus! {

/// `http::HeaderMap`, carried through as it is.
#[verifier::external_type_specification]
#[verifier::external_body]
#[verifier::reject_recursive_types(T)]
pub struct ExHeaderMap<T>(HeaderMap<T>);

/// `http::HeaderValue`, carried through as it is.
#[verifier::external_type_specification]
#[verifier::external_body]
pub struct ExHeaderValue(HeaderValue);

/// What a header map holds: under each name, in lower case, the bytes of its values in order.
pub uninterp spec fn header_values(map: HeaderMap<HeaderValue>) -> Map<Seq<char>, Seq<Seq<u8>>>;

/// Headers that hold no name at all.
pub open spec fn no_headers() -> Map<Seq<char>, Seq<Seq<u8>>> {
    Map::empty()
}

/// The values under a name that holds `text` and nothing else.
pub open spec fn only(text: Seq<char>) -> Seq<Seq<u8>> {
    seq![encode_utf8(text)]
}

/// An ASCII letter in lower case; any other character as it is.
pub open spec fn lower_char(c: char) -> char {
    if 'A' <= c <= 'Z' {
        (c as u32 + 32) as char
    } else {
        c
    }
}

/// A text with its ASCII letters in lower case.
pub open spec fn lower(text: Seq<char>) -> Seq<char> {
    Seq::new(text.len(), |i: int| lower_char(text[i]))
}

/// A header name of ASCII letters, digits and hyphens, of ordinary length.
pub open spec fn is_plain_name(name: Seq<char>) -> bool {
    &&& 0 < name.len() <= 64
    &&& forall|i: int|
        0 <= i < name.len() ==> {
            ||| 'a' <= #[trigger] name[i] <= 'z'
            ||| 'A' <= name[i] <= 'Z'
            ||| '0' <= name[i] <= '9'
            ||| name[i] == '-'
        }
}

/// Calls `http::HeaderMap::new`: the new map holds nothing.
#[verifier::external_body]
pub(crate) fn empty_headers() -> (map: HeaderMap<HeaderValue>)
    ensures
        header_values(map) == no_headers(),
{
    HeaderMap::new()
}

/// Calls `http::HeaderMap::insert` with a value made by `http::HeaderValue::from_str`: the name,
/// in lower case, then has the bytes of `value` as its only value, and every other name keeps
/// its values. The name and the value are ones that the two functions accept, and the map is far
/// below the size at which the insertion would fail.
#[verifier::external_body]
pub(crate) fn set_header(map: &mut HeaderMap<HeaderValue>, name: &'static str, value: &str)
    requires
        is_plain_name(name@),
        is_visible(value@),
        header_values(*old(map)).dom().finite(),
        header_values(*old(map)).dom().len() < 1000,
    ensures
        header_values(*final(map)) == header_values(*old(map)).insert(lower(name@), only(value@)),
{
    map.insert(name, HeaderValue::from_str(value).unwrap());
}

} // verus!
