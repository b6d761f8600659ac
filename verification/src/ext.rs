use vstd::prelude::*;

verus! {

/// Relies on uuid::Uuid::new_v4 and Uuid::as_u128: a freshly generated
/// random (version 4) identifier, handed back as its 128-bit value. The
/// result is random, so nothing is promised of it; callers check freshness
/// against the registry themselves.
#[verifier::external_body]
pub(crate) fn fresh_id() -> u128 {
    uuid::Uuid::new_v4().as_u128()
}

/// Relies on chrono::Utc::now and chrono::DateTime::timestamp_millis: the
/// current time, as milliseconds since the Unix epoch. The result depends on
/// the clock, so nothing is promised of it.
#[verifier::external_body]
pub(crate) fn now_millis() -> i64 {
    chrono::Utc::now().timestamp_millis()
}

/// Relies on uuid::Uuid::new_v4 and Uuid::to_string: a freshly generated
/// random identifier, rendered as its hyphenated text form, used as an API
/// key. The result is random, so nothing is promised of it.
#[verifier::external_body]
pub(crate) fn fresh_api_key() -> String {
    uuid::Uuid::new_v4().to_string()
}

/// Relies on alloc's String::from_utf8: bytes below 128 are ASCII, a valid
/// encoding, and decode to exactly those characters, one character per byte.
#[verifier::external_body]
pub(crate) fn ascii_string(v: Vec<u8>) -> (r: Option<String>)
    ensures
        r matches Some(s) ==> ((forall|i: int| 0 <= i < v@.len() ==> v@[i] < 128) ==> (s@.len()
            == v@.len() && (forall|i: int| 0 <= i < v@.len() ==> s@[i] == v@[i] as char))),
        (forall|i: int| 0 <= i < v@.len() ==> v@[i] < 128) ==> r is Some,
{
    String::from_utf8(v).ok()
}

} // verus!
