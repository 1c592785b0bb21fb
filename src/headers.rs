use vstd::prelude::*;

use http::HeaderMap;
use vstd::string::StringSliceAdditionalSpecFns;

verus! {

#[verifier::external_type_specification]
#[verifier::external_body]
#[verifier::reject_recursive_types(T)]
pub struct ExHeaderMap<T>(http::HeaderMap<T>);

#[verifier::external_type_specification]
#[verifier::external_body]
pub struct ExHeaderValue(http::HeaderValue);

/// What a header map holds: for each (lower-case) header name, the bytes of its first
/// value.
pub uninterp spec fn header_contents(h: http::HeaderMap) -> Map<Seq<char>, Seq<u8>>;

/// How many distinct header names a header map holds (its entries; extra values of a
/// name are not counted).
pub uninterp spec fn header_name_count(h: http::HeaderMap) -> nat;

/// Below this many distinct names a header map can always take one more: it only
/// refuses to grow once its index table is at its largest size (2^15 slots) and is at
/// least a fifth full.
pub const HEADER_ROOM: u64 = 6553;

/// A short lower-case header name made of letters, digits and dashes. `HeaderMap` looks
/// such a name up exactly as written, and accepts it as a static name.
pub open spec fn is_plain_header_name(name: Seq<char>) -> bool {
    &&& 0 < name.len() <= 64
    &&& forall|i: int|
        0 <= i < name.len() ==> {
            let c = #[trigger] name[i];
            ('a' <= c <= 'z') || ('0' <= c <= '9') || c == '-'
        }
}

/// A byte that a header value may hold: visible ASCII, a space, a tab, or any byte
/// from 0x80 up.
pub open spec fn is_header_value_byte(b: u8) -> bool {
    (b >= 32 && b != 127) || b == 9
}

/// The first value of the header `name`, as bytes.
///
/// Relies on `http::HeaderMap::get` with a `&str` key, which finds the first entry of
/// that name, and on `HeaderValue::as_bytes`.
#[verifier::external_body]
pub(crate) fn header_bytes(headers: &HeaderMap, name: &str) -> (r: Option<Vec<u8>>)
    requires
        is_plain_header_name(name@),
    ensures
        match r {
            Some(v) => header_contents(*headers).dom().contains(name@) && v@ == header_contents(
                *headers,
            )[name@],
            None => !header_contents(*headers).dom().contains(name@),
        },
{
    headers.get(name).map(|v| v.as_bytes().to_vec())
}

/// A byte that `HeaderValue::to_str` accepts: visible ASCII, a space or a tab.
pub open spec fn is_visible_ascii(b: u8) -> bool {
    (32 <= b && b < 127) || b == 9
}

/// `r` is the text of the first value of header `name` in `h` when that value is all
/// visible ASCII, and `None` when the header is missing or holds another byte.
pub open spec fn is_header_text(h: HeaderMap, name: Seq<char>, r: Option<String>) -> bool {
    match r {
        Some(t) => {
            &&& header_contents(h).dom().contains(name)
            &&& forall|i: int|
                0 <= i < header_contents(h)[name].len() ==> is_visible_ascii(
                    #[trigger] header_contents(h)[name][i],
                )
            &&& spells(t@, header_contents(h)[name])
        },
        None => !header_contents(h).dom().contains(name) || exists|i: int|
            0 <= i < header_contents(h)[name].len() && !is_visible_ascii(
                #[trigger] header_contents(h)[name][i],
            ),
    }
}

/// `t` spells the ASCII bytes `b`.
pub open spec fn spells(t: Seq<char>, b: Seq<u8>) -> bool {
    &&& t.len() == b.len()
    &&& forall|i: int| 0 <= i < b.len() ==> #[trigger] t[i] as u32 == b[i] as u32
}

/// The first value of the header `name` as text, when it is all visible ASCII.
///
/// Relies on `http::HeaderMap::get` with a `&str` key and on `HeaderValue::to_str`,
/// which refuses a value holding any byte that is not visible ASCII or a tab.
#[verifier::external_body]
pub(crate) fn header_text(headers: &HeaderMap, name: &str) -> (r: Option<String>)
    requires
        is_plain_header_name(name@),
    ensures
        is_header_text(*headers, name@, r),
{
    headers.get(name).and_then(|v| v.to_str().ok()).map(|t| t.to_string())
}

/// Sets the header `name` to `value`, replacing its earlier values; reports whether it
/// was set.
///
/// Relies on `http::HeaderValue::from_str`, which refuses a value holding a control
/// byte other than tab, and on `http::HeaderMap::try_insert`, which removes the earlier
/// values of that name, and leaves the map as it was when it refuses to grow. It
/// refuses only when its index table is already at `MAX_SIZE` (2^15) slots and at least
/// a fifth full, so below `HEADER_ROOM` names a valid value is always set.
#[verifier::external_body]
pub(crate) fn set_header(headers: &mut HeaderMap, name: &'static str, value: &str) -> (r: bool)
    requires
        is_plain_header_name(name@),
    ensures
        (forall|i: int|
            0 <= i < value.spec_bytes().len() ==> is_header_value_byte(
                #[trigger] value.spec_bytes()[i],
            )) && header_name_count(*old(headers)) < HEADER_ROOM ==> r,
        r ==> header_name_count(*final(headers)) == header_name_count(*old(headers)) + if header_contents(
            *old(headers),
        ).dom().contains(name@) {
            0nat
        } else {
            1nat
        },
        !r ==> header_name_count(*final(headers)) == header_name_count(*old(headers)),
        r ==> forall|i: int|
            0 <= i < value.spec_bytes().len() ==> is_header_value_byte(
                #[trigger] value.spec_bytes()[i],
            ),
        r ==> header_contents(*final(headers)) == header_contents(*old(headers)).insert(
            name@,
            value.spec_bytes(),
        ),
        !r ==> header_contents(*final(headers)) == header_contents(*old(headers)),
{
    match http::HeaderValue::from_str(value) {
        Ok(v) => headers.try_insert(name, v).is_ok(),
        Err(_) => false,
    }
}

/// A copy of a header map.
///
/// Relies on the derived `Clone` of `http::HeaderMap`, which copies every entry.
#[verifier::external_body]
pub(crate) fn copy_headers(headers: &HeaderMap) -> (r: HeaderMap)
    ensures
        header_contents(r) == header_contents(*headers),
        header_name_count(r) == header_name_count(*headers),
{
    headers.clone()
}

} // verus!
