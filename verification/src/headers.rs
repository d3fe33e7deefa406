//! The header map of the `http` crate, as far as the pipeline writes to it.
//!
//! The map itself is the outside crate's. What it holds is named by
//! [`header_entries`]; the one operation used on it is believed, not proved.

use http::HeaderMap;
use http::HeaderValue;
use vstd::prelude::*;
use vstd::string::*;

verus! {

#[verifier::external_type_specification]
#[verifier::external_body]
#[verifier::reject_recursive_types(T)]
pub struct ExHeaderMap<T>(HeaderMap<T>);

#[verifier::external_type_specification]
#[verifier::external_body]
pub struct ExHeaderValue(HeaderValue);

/// What a header map holds: for each header name, in lower case, the bytes of
/// each of its values, in the order in which they were added.
pub uninterp spec fn header_entries(headers: HeaderMap<HeaderValue>) -> Map<Seq<char>, Seq<Seq<u8>>>;

/// Whether a header map has room: whether it can still make place for one
/// more entry. This is a matter of the map's own table alone, not of the
/// header that is about to be written.
pub uninterp spec fn header_room(headers: HeaderMap<HeaderValue>) -> bool;

/// What an empty header map holds.
pub open spec fn no_entries() -> Map<Seq<char>, Seq<Seq<u8>>> {
    Map::empty()
}

/// `HeaderMap::new`. Believed of it: the map it makes holds nothing and has
/// room.
#[verifier::external_body]
pub(crate) fn new_headers() -> (headers: HeaderMap<HeaderValue>)
    ensures
        header_entries(headers) == no_entries(),
        header_room(headers),
{
    HeaderMap::new()
}

/// Whether `c` may stand in a header name given as plain text: a lower-case
/// letter, a digit or a hyphen.
pub open spec fn is_name_char(c: char) -> bool {
    ('a' <= c && c <= 'z') || ('0' <= c && c <= '9') || c == '-'
}

/// Header names of the plain kind: one to 64 characters, each a lower-case
/// letter, a digit or a hyphen. Every such text is a valid header name and is
/// its own lower-case form.
pub open spec fn is_plain_name(name: Seq<char>) -> bool {
    &&& 1 <= name.len() <= 64
    &&& forall|i: int| 0 <= i < name.len() ==> is_name_char(#[trigger] name[i])
}

/// Whether `c` may stand in a header value given as text: a tab, or any
/// character from the space on, but for the delete character.
pub open spec fn is_value_char(c: char) -> bool {
    c == '\t' || (' ' <= c && c != '\x7f')
}

/// Whether `text` can be a header value.
pub open spec fn is_value_text(text: Seq<char>) -> bool {
    forall|i: int| 0 <= i < text.len() ==> is_value_char(#[trigger] text[i])
}

/// `HeaderValue::from_str` on `value`, then `HeaderMap::try_insert` with the
/// key `name`.
///
/// Believed of them: the value is stored exactly if the text is a header
/// value and the map has room. Where the value is stored, it becomes the only
/// value of `name`, whatever `name` had before, and no other name is touched.
/// Where it is not stored, the map holds what it held.
#[verifier::external_body]
pub(crate) fn try_insert(headers: &mut HeaderMap<HeaderValue>, name: &'static str, value: &str) -> (stored: bool)
    requires
        is_plain_name(name@),
    ensures
        stored == (is_value_text(value@) && header_room(*old(headers))),
        stored ==> header_entries(*final(headers)) == header_entries(*old(headers)).insert(
            name@,
            seq![value.spec_bytes()],
        ),
        !stored ==> header_entries(*final(headers)) == header_entries(*old(headers)),
{
    match HeaderValue::from_str(value) {
        Ok(value) => headers.try_insert(name, value).is_ok(),
        Err(_) => false,
    }
}

} // verus!
