//! From what the store's callback was given to typed strings.
//!
//! The store calls back with a pointer to the name and a pointer to the
//! value, either of which may be null, and promises UTF-8 behind them. The
//! driver copies the bytes out while the callback runs. Here they become
//! strings, or the error that says what was wrong with them.

use crate::error::PropertyWatcherError;
use crate::store::RawProperty;
use crate::store::ReadReport;
use vstd::prelude::*;
use vstd::string::StringSliceAdditionalSpecFns;
use vstd::utf8::decode_utf8;
use vstd::utf8::encode_utf8_decode_utf8;
use vstd::utf8::valid_utf8;

verus! {

/// The text behind one pointer: missing where the pointer was null, bad where
/// the bytes are not UTF-8.
pub open spec fn decoded_text(bytes: Option<Vec<u8>>) -> Result<Seq<char>, PropertyWatcherError> {
    match bytes {
        None => Err(PropertyWatcherError::MissingCString),
        Some(b) => if valid_utf8(b@) {
            Ok(decode_utf8(b@))
        } else {
            Err(PropertyWatcherError::BadCString)
        },
    }
}

/// The name and the value that one call back was given, or the first thing
/// that was wrong: the name, then the value.
pub open spec fn decoded_raw(raw: RawProperty) -> Result<
    (Seq<char>, Seq<char>),
    PropertyWatcherError,
> {
    match decoded_text(raw.name) {
        Err(e) => Err(e),
        Ok(name) => match decoded_text(raw.value) {
            Err(e) => Err(e),
            Ok(value) => Ok((name, value)),
        },
    }
}

/// The name and the value that a read came to, or the first thing that was
/// wrong: no call back, then the name, then the value.
pub open spec fn decoded(report: ReadReport) -> Result<
    (Seq<char>, Seq<char>),
    PropertyWatcherError,
> {
    match report {
        ReadReport::NotCalled => Err(PropertyWatcherError::ReadCallbackNotCalled),
        ReadReport::Called(raw) => decoded_raw(raw),
    }
}

/// Whether the store called back with a name and a value, both UTF-8, as it
/// promises to.
pub open spec fn well_formed(raw: RawProperty) -> bool {
    decoded_text(raw.name) is Ok && decoded_text(raw.value) is Ok
}

/// Whether `r` is what handing `name` and `value` to `f` comes to: what `f`
/// returned, its failure held as a `CallbackError`.
pub open spec fn callback_gives<T, F: FnOnce(&str, &str) -> Result<T, String>>(
    f: F,
    name: Seq<char>,
    value: Seq<char>,
    r: Result<T, PropertyWatcherError>,
) -> bool {
    exists|n: &str, v: &str, out: Result<T, String>|
        {
            &&& n@ == name
            &&& v@ == value
            &&& #[trigger] call_ensures(f, (n, v), out)
            &&& match out {
                Ok(t) => r == Ok::<T, PropertyWatcherError>(t),
                Err(msg) => r == Err::<T, PropertyWatcherError>(
                    PropertyWatcherError::CallbackError(msg),
                ),
            }
        }
}

/// `std::str::from_utf8` returns the bytes as a string where they are valid
/// UTF-8, and an error, which is dropped here, where they are not.
#[verifier::external_body]
fn utf8_text(bytes: &[u8]) -> (r: Option<&str>)
    ensures
        r is Some <==> valid_utf8(bytes@),
        r matches Some(s) ==> s.spec_bytes() == bytes@,
{
    std::str::from_utf8(bytes).ok()
}

/// Reads the bytes behind one pointer as text.
fn text_of(bytes: &Option<Vec<u8>>) -> (r: Result<&str, PropertyWatcherError>)
    ensures
        match decoded_text(*bytes) {
            Ok(text) => r matches Ok(s) && s@ == text,
            Err(e) => r == Err::<&str, PropertyWatcherError>(e),
        },
{
    match bytes {
        None => Err(PropertyWatcherError::MissingCString),
        Some(b) => match utf8_text(b.as_slice()) {
            None => Err(PropertyWatcherError::BadCString),
            Some(s) => {
                proof {
                    encode_utf8_decode_utf8(s@);
                }
                Ok(s)
            },
        },
    }
}

/// Hands the name and the value that one call back was given, as strings, to
/// `f`, and returns what `f` made of them.
///
/// Where the name or the value is missing or is not UTF-8, `f` is not called
/// and the error says which it was. A failure of `f` itself comes back as a
/// `CallbackError`: it never escapes in another way.
pub fn marshal_raw<T, F>(raw: &RawProperty, f: F) -> (r: Result<T, PropertyWatcherError>) where
    F: FnOnce(&str, &str) -> Result<T, String>,

    requires
        forall|n: &str, v: &str|
            decoded_raw(*raw) == Ok::<(Seq<char>, Seq<char>), PropertyWatcherError>((n@, v@))
                ==> call_requires(f, (n, v)),
    ensures
        match decoded_raw(*raw) {
            Ok((name, value)) => callback_gives(f, name, value, r),
            Err(e) => r == Err::<T, PropertyWatcherError>(e),
        },
{
    let name = match text_of(&raw.name) {
        Ok(s) => s,
        Err(e) => {
            return Err(e);
        },
    };
    let value = match text_of(&raw.value) {
        Ok(s) => s,
        Err(e) => {
            return Err(e);
        },
    };
    let out = f(name, value);
    match out {
        Ok(t) => Ok(t),
        Err(msg) => Err(PropertyWatcherError::CallbackError(msg)),
    }
}

/// Hands the name and the value that a read came to, as strings, to `f`, and
/// returns what `f` made of them.
///
/// Where the store did not call back, called back without a name or a value,
/// or with bytes that are not UTF-8, `f` is not called and the error says
/// which it was. A failure of `f` itself comes back as a `CallbackError`.
pub fn marshal<T, F>(report: &ReadReport, f: F) -> (r: Result<T, PropertyWatcherError>) where
    F: FnOnce(&str, &str) -> Result<T, String>,

    requires
        forall|n: &str, v: &str|
            decoded(*report) == Ok::<(Seq<char>, Seq<char>), PropertyWatcherError>((n@, v@))
                ==> call_requires(f, (n, v)),
    ensures
        match decoded(*report) {
            Ok((name, value)) => callback_gives(f, name, value, r),
            Err(e) => r == Err::<T, PropertyWatcherError>(e),
        },
{
    match report {
        ReadReport::NotCalled => Err(PropertyWatcherError::ReadCallbackNotCalled),
        ReadReport::Called(raw) => marshal_raw(raw, f),
    }
}

/// The name and the value that one call back was given, as strings of their
/// own.
pub fn decode_raw(raw: &RawProperty) -> (r: Result<(String, String), PropertyWatcherError>)
    ensures
        match decoded_raw(*raw) {
            Ok((name, value)) => r matches Ok(pair) && pair.0@ == name && pair.1@ == value,
            Err(e) => r == Err::<(String, String), PropertyWatcherError>(e),
        },
{
    let copy = |n: &str, v: &str| -> (out: Result<(String, String), String>)
        ensures
            out matches Ok(pair) && pair.0@ == n@ && pair.1@ == v@,
        { Ok((n.to_owned(), v.to_owned())) };
    marshal_raw(raw, copy)
}

/// The name and the value that a read came to, as strings of their own.
pub fn decode(report: &ReadReport) -> (r: Result<(String, String), PropertyWatcherError>)
    ensures
        match decoded(*report) {
            Ok((name, value)) => r matches Ok(pair) && pair.0@ == name && pair.1@ == value,
            Err(e) => r == Err::<(String, String), PropertyWatcherError>(e),
        },
{
    let copy = |n: &str, v: &str| -> (out: Result<(String, String), String>)
        ensures
            out matches Ok(pair) && pair.0@ == n@ && pair.1@ == v@,
        { Ok((n.to_owned(), v.to_owned())) };
    marshal(report, copy)
}

} // verus!
