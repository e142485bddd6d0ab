//! The calls that the library makes into other crates and into parts of `std`
//! that have no specification of their own.
//!
//! Each function here does nothing but make one call, or read the constants of another
//! crate. What its contract says of them is taken on trust; everything else in the
//! library is proved.

use crate::encoding;
use crate::proto::cbor;
use crate::proto::cbor::CborTree;
use crate::server::session::signal::SignalNumbers;
use vstd::prelude::*;
use vstd::string::*;
use vstd::utf8::*;

verus! {

/// What `std::string::FromUtf8Error` displays for a byte string that is not UTF-8.
pub uninterp spec fn utf8_error_text(bytes: Seq<u8>) -> Seq<char>;

/// `String::from_utf8`.
///
/// The bytes become a string exactly when they are valid UTF-8, and the string
/// then holds the characters that they encode. The error is given as its text.
#[verifier::external_body]
pub(crate) fn string_from_utf8(bytes: Vec<u8>) -> (r: Result<String, String>)
    ensures
        match r {
            Ok(s) => valid_utf8(bytes@) && s@ == decode_utf8(bytes@),
            Err(e) => !valid_utf8(bytes@) && e@ == utf8_error_text(bytes@),
        },
{
    String::from_utf8(bytes).map_err(|e| e.to_string())
}

/// `std::io::Error`.
#[verifier::external_type_specification]
#[verifier::external_body]
pub struct ExIoError(std::io::Error);

/// `std::io::ErrorKind`.
#[verifier::external_type_specification]
pub struct ExIoErrorKind(std::io::ErrorKind);

/// The kind of a `std::io::Error`.
pub uninterp spec fn io_kind(e: std::io::Error) -> std::io::ErrorKind;

/// `std::io::Error::kind`: the kind of the error.
#[verifier::external_body]
pub(crate) fn io_error_kind(e: &std::io::Error) -> (r: std::io::ErrorKind)
    ensures
        r == io_kind(*e),
{
    e.kind()
}

/// `std::path::PathBuf`.
#[verifier::external_type_specification]
#[verifier::external_body]
pub struct ExPathBuf(std::path::PathBuf);

/// `remoc::rtc::CallError`.
#[verifier::external_type_specification]
#[verifier::external_body]
pub struct ExCallError(remoc::rtc::CallError);

/// What a `remoc::rtc::CallError` displays.
pub uninterp spec fn call_error_text(e: remoc::rtc::CallError) -> Seq<char>;

/// `remoc::rtc::CallError::to_string`: the text of the error.
#[verifier::external_body]
pub(crate) fn call_error_to_string(e: &remoc::rtc::CallError) -> (r: String)
    ensures
        r@ == call_error_text(*e),
{
    e.to_string()
}

/// `bytes::Bytes`.
#[verifier::external_type_specification]
#[verifier::external_body]
pub struct ExBytes(bytes::Bytes);

/// The bytes that a `bytes::Bytes` holds.
pub uninterp spec fn bytes_content(b: bytes::Bytes) -> Seq<u8>;

/// `bytes::Bytes::from` on a vector: the same bytes.
#[verifier::external_body]
pub(crate) fn bytes_from_vec(v: Vec<u8>) -> (r: bytes::Bytes)
    ensures
        bytes_content(r) == v@,
{
    bytes::Bytes::from(v)
}

/// `bytes::Bytes::copy_from_slice`: the same bytes.
#[verifier::external_body]
pub(crate) fn bytes_copy_from_slice(data: &[u8]) -> (r: bytes::Bytes)
    ensures
        bytes_content(r) == data@,
{
    bytes::Bytes::copy_from_slice(data)
}

/// What `base64::DecodeError` displays for a text that is not base64.
pub uninterp spec fn base64_error_text(text: Seq<char>) -> Seq<char>;

/// `base64::engine::general_purpose::STANDARD.decode`.
///
/// The engine accepts exactly the texts that it would itself write: in the
/// standard alphabet, padded to a multiple of four, with no stray bits in the last
/// symbol. The error is given as its text.
#[verifier::external_body]
pub(crate) fn base64_standard_decode(text: &str) -> (r: Result<Vec<u8>, String>)
    ensures
        match r {
            Ok(v) => encoding::base64_text(v@) == text.spec_bytes(),
            Err(e) => {
                &&& forall|v: Seq<u8>| #[trigger] encoding::base64_text(v) != text.spec_bytes()
                &&& e@ == base64_error_text(text@)
            },
        },
{
    base64::Engine::decode(&base64::engine::general_purpose::STANDARD, text).map_err(
        |e| e.to_string(),
    )
}

/// `http::HeaderMap`.
#[verifier::external_type_specification]
#[verifier::external_body]
#[verifier::reject_recursive_types(T)]
pub struct ExHeaderMap<T>(http::HeaderMap<T>);

/// `http::HeaderValue`.
#[verifier::external_type_specification]
#[verifier::external_body]
pub struct ExHeaderValue(http::HeaderValue);

/// The bytes that a header value holds.
pub uninterp spec fn header_value_bytes(value: http::HeaderValue) -> Seq<u8>;

/// `http::HeaderValue::as_bytes`: a copy of the bytes of the value.
#[verifier::external_body]
pub(crate) fn header_value_as_bytes(value: &http::HeaderValue) -> (r: Vec<u8>)
    ensures
        r@ == header_value_bytes(*value),
{
    value.as_bytes().to_vec()
}

/// A byte that may stand in a header value.
pub open spec fn is_header_byte(b: u8) -> bool {
    (b >= 32 && b != 127) || b == 9
}

/// `http::HeaderValue::from_str`: the value with the bytes of a text, which must
/// hold no control characters but tabs.
#[verifier::external_body]
pub(crate) fn header_value_from_str(text: &str) -> (r: Option<http::HeaderValue>)
    ensures
        match r {
            Some(v) => {
                &&& header_value_bytes(v) == text.spec_bytes()
                &&& forall|i: int|
                    0 <= i < text.spec_bytes().len() ==> is_header_byte(
                        #[trigger] text.spec_bytes()[i],
                    )
            },
            None => exists|i: int|
                0 <= i < text.spec_bytes().len() && !is_header_byte(
                    #[trigger] text.spec_bytes()[i],
                ),
        },
{
    http::HeaderValue::from_str(text).ok()
}

/// The values that a header map holds: under each name, in lower case, at least one
/// value, in the order in which they were added.
pub uninterp spec fn header_values(headers: http::HeaderMap) -> Map<Seq<char>, Seq<Seq<u8>>>;

/// A name in the form in which a header map keeps names.
pub open spec fn is_header_name(name: Seq<char>) -> bool {
    &&& 0 < name.len() <= 64
    &&& forall|i: int| 0 <= i < name.len() ==> ('a' <= #[trigger] name[i] <= 'z' || name[i] == '-')
}

/// `http::HeaderMap::get`: the first value under a name, where there is one.
#[verifier::external_body]
pub(crate) fn header_get<'a>(headers: &'a http::HeaderMap, name: &str) -> (r: Option<
    &'a http::HeaderValue,
>)
    requires
        is_header_name(name@),
    ensures
        match r {
            Some(v) => {
                &&& header_values(*headers).contains_key(name@)
                &&& header_values(*headers)[name@].len() > 0
                &&& header_value_bytes(*v) == header_values(*headers)[name@][0]
            },
            None => !header_values(*headers).contains_key(name@),
        },
{
    headers.get(name)
}

/// `ciborium::value::Value`.
#[verifier::external_type_specification]
pub struct ExCborValue(ciborium::value::Value);

/// `ciborium::value::Integer`.
#[verifier::external_type_specification]
#[verifier::external_body]
pub struct ExCborInteger(ciborium::value::Integer);

/// The number that a `ciborium::value::Integer` stands for.
pub uninterp spec fn cbor_integer(i: ciborium::value::Integer) -> int;

/// `ciborium::value::Integer::from` on a `u64`: the same number.
#[verifier::external_body]
pub(crate) fn cbor_integer_from_u64(n: u64) -> (r: ciborium::value::Integer)
    ensures
        cbor_integer(r) == n,
{
    ciborium::value::Integer::from(n)
}

/// `u64::try_from` on a `ciborium::value::Integer`: the same number, where a `u64`
/// can hold it.
#[verifier::external_body]
pub(crate) fn cbor_integer_to_u64(i: &ciborium::value::Integer) -> (r: Option<u64>)
    ensures
        match r {
            Some(n) => cbor_integer(*i) == n,
            None => cbor_integer(*i) < 0 || cbor_integer(*i) > u64::MAX,
        },
{
    u64::try_from(*i).ok()
}

/// The bytes that `ciborium::into_writer` writes for a value.
pub uninterp spec fn cbor_written(t: CborTree) -> Seq<u8>;

/// What `ciborium::from_reader` makes of a byte string: the value at its head, or
/// the text of the error.
pub uninterp spec fn cbor_parsed(bytes: Seq<u8>) -> Result<CborTree, Seq<char>>;

/// `ciborium::into_writer` on a value and a vector.
///
/// A value is always written, and reading what was written gives a plain value back:
/// its limit on nesting is well within the one that the reader sets. The writer calls
/// itself for each level of nesting, and the limit on that keeps it within its stack.
/// Nothing is said of the bytes of a floating-point number.
#[verifier::external_body]
pub(crate) fn cbor_write(v: &ciborium::value::Value) -> (r: Result<Vec<u8>, String>)
    requires
        cbor::nests_within(cbor::tree_of(*v), cbor::MAX_NESTING as nat),
    ensures
        match r {
            Ok(bytes) => {
                &&& cbor::has_no_float(cbor::tree_of(*v), cbor::MAX_NESTING as nat) ==> bytes@
                    == cbor_written(cbor::tree_of(*v))
                &&& cbor::is_plain(cbor::tree_of(*v), 100) ==> cbor_parsed(bytes@) == Ok::<
                    CborTree,
                    Seq<char>,
                >(cbor::tree_of(*v))
            },
            Err(_) => false,
        },
{
    let mut buf = Vec::new();
    ciborium::into_writer(v, &mut buf).map_err(|e| e.to_string())?;
    Ok(buf)
}

/// `ciborium::from_reader` on a slice, for a value of any shape.
#[verifier::external_body]
pub(crate) fn cbor_read(data: &[u8]) -> (r: Result<ciborium::value::Value, String>)
    ensures
        match r {
            Ok(v) => cbor_parsed(data@) == Ok::<CborTree, Seq<char>>(cbor::tree_of(v)),
            Err(e) => cbor_parsed(data@) == Err::<CborTree, Seq<char>>(e@),
        },
{
    ciborium::from_reader(data).map_err(|e| e.to_string())
}

/// `rand::Rng::random_range` on the generator of the thread: some number from the first
/// to the second, both of them among those that may come.
#[verifier::external_body]
pub(crate) fn random_between(low: u64, high: u64) -> (r: u64)
    requires
        low <= high,
    ensures
        low <= r <= high,
{
    rand::Rng::random_range(&mut rand::rng(), low..=high)
}

/// `libc::winsize`.
#[verifier::external_type_specification]
pub struct ExWinsize(libc::winsize);

/// `dashmap::DashMap`.
#[verifier::external_type_specification]
#[verifier::external_body]
#[verifier::reject_recursive_types(K)]
#[verifier::reject_recursive_types(V)]
#[verifier::reject_recursive_types(S)]
pub struct ExDashMap<K, V, S>(dashmap::DashMap<K, V, S>);

/// What a map from numbers to numbers holds.
pub uninterp spec fn dash_contents(m: dashmap::DashMap<u64, u64>) -> Map<u64, u64>;

/// `dashmap::DashMap::new`: a map that holds nothing.
#[verifier::external_body]
pub(crate) fn dash_new() -> (r: dashmap::DashMap<u64, u64>)
    ensures
        forall|key: u64| !#[trigger] dash_contents(r).contains_key(key),
{
    dashmap::DashMap::new()
}

/// `dashmap::DashMap::get`: what the map holds under a key, copied out.
#[verifier::external_body]
pub(crate) fn dash_get(m: &dashmap::DashMap<u64, u64>, key: u64) -> (r: Option<u64>)
    ensures
        r == if dash_contents(*m).contains_key(key) {
            Some(dash_contents(*m)[key])
        } else {
            None
        },
{
    m.get(&key).map(|entry| *entry)
}

/// `dashmap::DashMap::insert`: the map holds the value under the key.
#[verifier::external_body]
pub(crate) fn dash_insert(m: &mut dashmap::DashMap<u64, u64>, key: u64, value: u64)
    ensures
        dash_contents(*final(m)) == dash_contents(*old(m)).insert(key, value),
{
    m.insert(key, value);
}

/// `dashmap::DashMap::remove`: the map holds nothing under the key.
#[verifier::external_body]
pub(crate) fn dash_remove(m: &mut dashmap::DashMap<u64, u64>, key: u64)
    ensures
        dash_contents(*final(m)) == dash_contents(*old(m)).remove(key),
{
    m.remove(&key);
}

/// `dashmap::DashMap::clear`: the map holds nothing.
#[verifier::external_body]
pub(crate) fn dash_clear(m: &mut dashmap::DashMap<u64, u64>)
    ensures
        forall|key: u64| !#[trigger] dash_contents(*final(m)).contains_key(key),
{
    m.clear();
}

/// The constants `libc::SIGABRT` to `libc::SIGUSR2`: the numbers that the system gives
/// to these signals. They differ from system to system; no two of them are the same.
#[verifier::external_body]
pub(crate) fn system_signal_numbers() -> (r: SignalNumbers)
    ensures
        r.distinct(),
{
    SignalNumbers {
        abrt: libc::SIGABRT,
        alrm: libc::SIGALRM,
        fpe: libc::SIGFPE,
        hup: libc::SIGHUP,
        ill: libc::SIGILL,
        int: libc::SIGINT,
        quit: libc::SIGQUIT,
        kill: libc::SIGKILL,
        pipe: libc::SIGPIPE,
        segv: libc::SIGSEGV,
        term: libc::SIGTERM,
        usr1: libc::SIGUSR1,
        usr2: libc::SIGUSR2,
    }
}

} // verus!
