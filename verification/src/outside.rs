//! The functions of other crates, and of the standard library, that the rules call.
//!
//! What these functions return is not proved here: each one is stated as its
//! source or documentation gives it.

use argon2::PasswordHasher;
use argon2::PasswordVerifier;
use base64::Engine;
use rand::RngCore;
use sha2::Digest;
use subtle::ConstantTimeEq;
use vstd::prelude::*;

use crate::json::JsonLayer;
use crate::json::JsonView;
use crate::tables::TomlLayer;
use crate::tables::TomlView;
use crate::text;
use crate::times::Moment;
use crate::web::UrlParts;
use crate::web::UrlView;

verus! {

// ---------------------------------------------------------------------------
// chrono
// ---------------------------------------------------------------------------

/// The RFC 3339 text that chrono writes for a point in time in UTC.
pub uninterp spec fn rfc3339_text(seconds: i64, nanos: u32) -> Seq<char>;

/// The seconds and nanoseconds that chrono reads from an RFC 3339 text.
pub uninterp spec fn rfc3339_moment(value: Seq<char>) -> Option<(i64, u32)>;

/// The month, day, hour and minute that chrono writes for a point in time in UTC.
pub uninterp spec fn month_day_text(seconds: i64, nanos: u32) -> Seq<char>;

/// `chrono::Utc::now`: some point in time.
#[verifier::external_body]
pub(crate) fn current_moment() -> (res: Moment)
    ensures
        res.valid(),
{
    let now = chrono::Utc::now();
    Moment { seconds: now.timestamp(), nanos: now.timestamp_subsec_nanos() }
}

/// `DateTime::to_rfc3339`, on the point in time that `DateTime::from_timestamp`
/// makes, which exists for every valid one. In the years 0 to 9999 a text reads
/// back as the time, and the texts are ordered as the times are.
#[verifier::external_body]
pub(crate) fn write_rfc3339(moment: &Moment) -> (res: String)
    requires
        moment.valid(),
    ensures
        res@ == rfc3339_text(moment.seconds, moment.nanos),
        moment.common() ==> rfc3339_moment(res@) == Some((moment.seconds, moment.nanos)),
        forall|other: Moment|
            moment.common() && other.common() && other.earlier(*moment) ==> text::precedes(
                #[trigger] rfc3339_text(other.seconds, other.nanos),
                res@,
            ),
        forall|other: Moment|
            moment.common() && other.common() && moment.earlier(other) ==> text::precedes(
                res@,
                #[trigger] rfc3339_text(other.seconds, other.nanos),
            ),
{
    chrono::DateTime::<chrono::Utc>::from_timestamp(moment.seconds, moment.nanos)
        .unwrap()
        .to_rfc3339()
}

/// `DateTime::parse_from_rfc3339`, brought to UTC.
#[verifier::external_body]
pub(crate) fn read_rfc3339(value: &str) -> (res: Option<Moment>)
    ensures
        match res {
            Some(m) => rfc3339_moment(value@) == Some((m.seconds, m.nanos)) && m.valid(),
            None => rfc3339_moment(value@) is None,
        },
{
    let read = chrono::DateTime::parse_from_rfc3339(value).ok()?;
    Some(Moment { seconds: read.timestamp(), nanos: read.timestamp_subsec_nanos() })
}

/// `DateTime::format` with `%b %-d %H:%M`, on the point in time that
/// `DateTime::from_timestamp` makes.
#[verifier::external_body]
pub(crate) fn write_month_day(moment: &Moment) -> (res: String)
    requires
        moment.valid(),
    ensures
        res@ == month_day_text(moment.seconds, moment.nanos),
{
    chrono::DateTime::<chrono::Utc>::from_timestamp(moment.seconds, moment.nanos)
        .unwrap()
        .format("%b %-d %H:%M")
        .to_string()
}

// ---------------------------------------------------------------------------
// hex
// ---------------------------------------------------------------------------

/// The lower-case hexadecimal digit of a number below 16.
pub open spec fn hex_digit(n: int) -> char {
    if n < 10 {
        ('0' as u32 + n) as char
    } else {
        ('a' as u32 + n - 10) as char
    }
}

/// The number that a hexadecimal digit of either case stands for.
pub open spec fn hex_value(c: char) -> Option<int> {
    if '0' <= c <= '9' {
        Some(c as u32 - '0' as u32)
    } else if 'a' <= c <= 'f' {
        Some(c as u32 - 'a' as u32 + 10)
    } else if 'A' <= c <= 'F' {
        Some(c as u32 - 'A' as u32 + 10)
    } else {
        None
    }
}

/// Two lower-case hexadecimal digits for each byte.
pub open spec fn hex_text(bytes: Seq<u8>) -> Seq<char> {
    Seq::new(
        bytes.len() * 2,
        |i: int|
            if i % 2 == 0 {
                hex_digit(bytes[i / 2] as int / 16)
            } else {
                hex_digit(bytes[i / 2] as int % 16)
            },
    )
}

/// A byte for each two hexadecimal digits, where the text is made of such pairs.
pub open spec fn hex_bytes(value: Seq<char>) -> Option<Seq<u8>> {
    if value.len() % 2 == 0 && forall|i: int|
        0 <= i < value.len() ==> hex_value(#[trigger] value[i]) is Some {
        Some(
            Seq::new(
                (value.len() / 2) as nat,
                |i: int|
                    (hex_value(value[2 * i]).unwrap() * 16 + hex_value(
                        value[2 * i + 1],
                    ).unwrap()) as u8,
            ),
        )
    } else {
        None
    }
}

/// `hex::encode`: two lower-case digits for each byte.
#[verifier::external_body]
pub(crate) fn hex_encode(bytes: &Vec<u8>) -> (res: String)
    ensures
        res@ == hex_text(bytes@),
{
    hex::encode(bytes)
}

/// `hex::decode`: the bytes of pairs of digits of either case, and an error on
/// any other text.
#[verifier::external_body]
pub(crate) fn hex_decode(value: &str) -> (res: Option<Vec<u8>>)
    ensures
        match res {
            Some(bytes) => hex_bytes(value@) == Some(bytes@),
            None => hex_bytes(value@) is None,
        },
{
    hex::decode(value).ok()
}

// ---------------------------------------------------------------------------
// sha2, subtle, base64, argon2
// ---------------------------------------------------------------------------

/// The SHA-256 digest of a message.
pub uninterp spec fn sha256_digest(message: Seq<u8>) -> Seq<u8>;

/// The bytes that a text stands for in standard base64.
pub uninterp spec fn base64_bytes(value: Seq<char>) -> Option<Seq<u8>>;

/// Whether a password is the one that an encoded Argon2 hash was made of.
pub uninterp spec fn argon2_accepts(hash: Seq<char>, password: Seq<char>) -> bool;

/// The encoded Argon2 hash of a password, with the default parameters.
pub uninterp spec fn argon2_hash(password: Seq<char>, salt: Seq<u8>) -> Option<Seq<char>>;

/// `sha2::Sha256` over two pieces of a message: the digest, of 32 bytes, of the
/// pieces in a row.
#[verifier::external_body]
pub(crate) fn sha256(first: &Vec<u8>, second: &str) -> (res: Vec<u8>)
    ensures
        res@ == sha256_digest(first@ + vstd::utf8::encode_utf8(second@)),
        res@.len() == 32,
{
    let mut hasher = sha2::Sha256::new();
    hasher.update(first);
    hasher.update(second.as_bytes());
    hasher.finalize().to_vec()
}

/// `subtle::ConstantTimeEq::ct_eq` on byte slices: whether they are equal.
#[verifier::external_body]
pub(crate) fn equal_bytes(a: &[u8], b: &[u8]) -> (res: bool)
    ensures
        res == (a@ == b@),
{
    a.ct_eq(b).into()
}

/// `base64::Engine::decode` of the standard engine.
#[verifier::external_body]
pub(crate) fn base64_decode(value: &str) -> (res: Option<Vec<u8>>)
    ensures
        match res {
            Some(bytes) => base64_bytes(value@) == Some(bytes@),
            None => base64_bytes(value@) is None,
        },
{
    base64::engine::general_purpose::STANDARD.decode(value).ok()
}

/// No number of lanes, which stands after `p=` in a hash, has nine digits or
/// more. Argon2 allows fewer lanes than that by far, and multiplies their number
/// by eight in 32 bits before it says so.
pub open spec fn lanes_fit(hash: Seq<char>) -> bool {
    forall|i: int|
        0 <= i && i + 11 <= hash.len() && #[trigger] hash[i] == 'p' && hash[i + 1] == '='
            ==> !nine_digits(hash, i + 2)
}

/// Nine digits stand in the text from a place on.
pub open spec fn nine_digits(s: Seq<char>, at: int) -> bool {
    forall|j: int| at <= j < at + 9 ==> text::is_digit(#[trigger] s[j])
}

/// `argon2::PasswordHash::new` and `PasswordVerifier::verify_password` of the
/// default `Argon2`: false where the hash cannot be read. The memory that the
/// hash asks for must be there to be had; nothing is said of where it is not.
#[verifier::external_body]
pub(crate) fn argon2_verify(hash: &str, password: &str) -> (res: bool)
    requires
        lanes_fit(hash@),
    ensures
        res == argon2_accepts(hash@, password@),
{
    let Ok(parsed) = argon2::PasswordHash::new(hash) else {
        return false;
    };
    argon2::Argon2::default().verify_password(password.as_bytes(), &parsed).is_ok()
}

/// `argon2::PasswordHasher::hash_password` of the default `Argon2`, written in
/// the PHC format, with a salt that `SaltString::encode_b64` encodes. It fails
/// only on passwords of more than `u32::MAX` bytes. The text begins with the
/// name of the algorithm, which is Argon2id, and names one lane; and the password
/// verifies against it.
#[verifier::external_body]
pub(crate) fn argon2_make(password: &str, salt: &Vec<u8>) -> (res: Option<String>)
    requires
        8 <= salt@.len() <= 48,
    ensures
        text::opt_text(res) == argon2_hash(password@, salt@),
        res is Some <==> vstd::utf8::encode_utf8(password@).len() <= u32::MAX,
        res matches Some(hash) ==> argon2_accepts(hash@, password@) && lanes_fit(hash@)
            && text::has_prefix(hash@, "$argon2id$"@),
{
    let salt = argon2::password_hash::SaltString::encode_b64(salt).ok()?;
    let hash = argon2::Argon2::default().hash_password(password.as_bytes(), &salt).ok()?;
    Some(hash.to_string())
}

// ---------------------------------------------------------------------------
// rand, uuid
// ---------------------------------------------------------------------------

/// `rand::RngCore::fill_bytes` of the thread's generator: some bytes.
#[verifier::external_body]
pub(crate) fn random_bytes(count: usize) -> (res: Vec<u8>)
    ensures
        res@.len() == count,
{
    let mut bytes = vec![0u8; count];
    rand::thread_rng().fill_bytes(&mut bytes);
    bytes
}

/// A lower-case hexadecimal digit.
pub open spec fn is_hex_digit(c: char) -> bool {
    '0' <= c <= '9' || 'a' <= c <= 'f'
}

/// `uuid::Uuid::new_v4`, written as 32 lower-case hexadecimal digits.
#[verifier::external_body]
pub(crate) fn random_id() -> (res: String)
    ensures
        res@.len() == 32,
        forall|i: int| 0 <= i < 32 ==> is_hex_digit(#[trigger] res@[i]),
{
    uuid::Uuid::new_v4().simple().to_string()
}

/// `uuid::Uuid::new_v4`, written in its usual form: lower-case hexadecimal
/// digits in groups of 8, 4, 4, 4 and 12, with hyphens between them.
#[verifier::external_body]
pub(crate) fn random_key() -> (res: String)
    ensures
        res@.len() == 36,
        forall|i: int|
            0 <= i < 36 ==> if i == 8 || i == 13 || i == 18 || i == 23 {
                #[trigger] res@[i] == '-'
            } else {
                is_hex_digit(res@[i])
            },
{
    uuid::Uuid::new_v4().to_string()
}

// ---------------------------------------------------------------------------
// url, mime_guess
// ---------------------------------------------------------------------------

/// The parts of a URL.
pub uninterp spec fn url_parts(value: Seq<char>) -> Option<UrlView>;

/// The media type that the name of a file suggests.
pub uninterp spec fn media_type(path: Seq<char>) -> Seq<char>;

/// `url::Url::parse` and the parsed URL's scheme, host, path segments and query pairs.
#[verifier::external_body]
pub(crate) fn parse_url(value: &str) -> (res: Option<UrlParts>)
    ensures
        match res {
            Some(parts) => url_parts(value@) == Some(parts@),
            None => url_parts(value@) is None,
        },
{
    let url = url::Url::parse(value).ok()?;
    Some(
        UrlParts {
            scheme: url.scheme().to_string(),
            host: url.host_str().map(str::to_string),
            segments: url.path_segments().map(|all| all.map(str::to_string).collect()),
            query: url.query_pairs().map(|(k, v)| (k.into_owned(), v.into_owned())).collect(),
        },
    )
}

/// A byte that stands for itself in form data.
pub open spec fn form_safe(b: u8) -> bool {
    let c = b as char;
    b < 128 && (text::is_alnum(c) || c == '*' || c == '-' || c == '.' || c == '_')
}

/// The upper-case hexadecimal digit of a number below 16.
pub open spec fn upper_hex_digit(n: int) -> char {
    if n < 10 {
        ('0' as u32 + n) as char
    } else {
        ('A' as u32 + n - 10) as char
    }
}

/// What stands for one byte in form data.
pub open spec fn form_char(b: u8) -> Seq<char> {
    if form_safe(b) {
        seq![b as char]
    } else if b == 32 {
        seq!['+']
    } else {
        seq!['%', upper_hex_digit(b as int / 16), upper_hex_digit(b as int % 16)]
    }
}

/// What stands for some bytes in form data.
pub open spec fn form_text(bytes: Seq<u8>) -> Seq<char>
    decreases bytes.len(),
{
    if bytes.len() == 0 {
        Seq::empty()
    } else {
        form_text(bytes.drop_last()) + form_char(bytes.last())
    }
}

/// `url::form_urlencoded::byte_serialize` on the bytes of a text: letters,
/// digits, `*`, `-`, `.` and `_` stand for themselves, a space becomes `+`,
/// and any other byte a `%` with two upper-case hexadecimal digits.
#[verifier::external_body]
pub(crate) fn form_encode(value: &str) -> (res: String)
    ensures
        res@ == form_text(vstd::utf8::encode_utf8(value@)),
{
    url::form_urlencoded::byte_serialize(value.as_bytes()).collect()
}

/// `mime_guess::from_path`, with the type for unknown bytes as a fallback.
#[verifier::external_body]
pub(crate) fn guess_media_type(path: &str) -> (res: String)
    ensures
        res@ == media_type(path@),
{
    mime_guess::from_path(path).first_or_octet_stream().essence_str().to_string()
}

// ---------------------------------------------------------------------------
// serde_json, toml
// ---------------------------------------------------------------------------

/// The JSON values of `serde_json`, which the rules only open, layer by layer.
#[verifier::external_type_specification]
#[verifier::external_body]
pub struct ExJsonValue(serde_json::Value);

/// What a JSON value holds, down to its leaves.
pub uninterp spec fn json_contents(value: serde_json::Value) -> JsonView;

/// What the value holds that a JSON text is read as.
pub uninterp spec fn json_value(value: Seq<char>) -> Option<JsonView>;

/// The TOML values of `toml`, which the rules only open, layer by layer.
#[verifier::external_type_specification]
#[verifier::external_body]
pub struct ExTomlValue(toml::Value);

/// What a TOML value holds, down to its texts.
pub uninterp spec fn toml_contents(value: toml::Value) -> TomlView;

/// What the document holds that a TOML text is read as.
pub uninterp spec fn toml_document(raw: Seq<char>) -> Option<TomlView>;

/// `serde_json::from_str` into a `serde_json::Value`.
#[verifier::external_body]
pub(crate) fn read_json(value: &str) -> (res: Option<serde_json::Value>)
    ensures
        match res {
            Some(read) => json_value(value@) == Some(json_contents(read)),
            None => json_value(value@) is None,
        },
{
    serde_json::from_str::<serde_json::Value>(value).ok()
}

/// The contents of some values, one by one.
pub open spec fn contents_of(values: Seq<serde_json::Value>) -> Seq<JsonView> {
    Seq::new(values.len(), |i: int| json_contents(values[i]))
}

/// The names of some fields and the contents of their values.
pub open spec fn fields_of(fields: Seq<(&String, &serde_json::Value)>) -> Seq<
    (Seq<char>, JsonView),
> {
    Seq::new(fields.len(), |i: int| (fields[i].0@, json_contents(*fields[i].1)))
}

/// What a value holds, given its outermost layer.
pub open spec fn layer_contents(layer: JsonLayer) -> JsonView {
    match layer {
        JsonLayer::Null => JsonView::Null,
        JsonLayer::Bool(b) => JsonView::Bool(b),
        JsonLayer::Number(n, s) => JsonView::Number(n, s@),
        JsonLayer::Text(s) => JsonView::Text(s@),
        JsonLayer::List(items, s) => JsonView::List(contents_of(items@), s@),
        JsonLayer::Object(fields, s) => JsonView::Object(fields_of(fields@), s@),
    }
}

/// The variants of `serde_json::Value`, with the integer that `as_i64` gives a
/// number and the text that `to_string` writes: a value holds what its
/// outermost layer and the values in it hold.
#[verifier::external_body]
pub(crate) fn open_json(value: &serde_json::Value) -> (res: JsonLayer<'_>)
    ensures
        json_contents(*value) == layer_contents(res),
{
    let text = value.to_string();
    match value {
        serde_json::Value::Null => JsonLayer::Null,
        serde_json::Value::Bool(b) => JsonLayer::Bool(*b),
        serde_json::Value::Number(n) => JsonLayer::Number(n.as_i64(), text),
        serde_json::Value::String(s) => JsonLayer::Text(s.clone()),
        serde_json::Value::Array(items) => JsonLayer::List(items, text),
        serde_json::Value::Object(fields) => JsonLayer::Object(fields.iter().collect(), text),
    }
}

/// `toml::from_str` into a `toml::Value`.
#[verifier::external_body]
pub(crate) fn read_toml(raw: &str) -> (res: Option<toml::Value>)
    ensures
        match res {
            Some(document) => toml_document(raw@) == Some(toml_contents(document)),
            None => toml_document(raw@) is None,
        },
{
    toml::from_str::<toml::Value>(raw).ok()
}

/// The keys of some entries and the contents of their values.
pub open spec fn table_contents(entries: Seq<(&String, &toml::Value)>) -> Seq<
    (Seq<char>, TomlView),
> {
    Seq::new(entries.len(), |i: int| (entries[i].0@, toml_contents(*entries[i].1)))
}

/// What a TOML value holds, given its outermost layer.
pub open spec fn toml_layer_contents(layer: TomlLayer) -> TomlView {
    match layer {
        TomlLayer::Text(s) => TomlView::Text(s@),
        TomlLayer::Table(entries) => TomlView::Table(table_contents(entries@)),
        TomlLayer::Other => TomlView::Other,
    }
}

/// The variants of `toml::Value`: a text, a table with its entries, or another
/// one. A value holds what its outermost layer and the values in it hold.
#[verifier::external_body]
pub(crate) fn open_toml(value: &toml::Value) -> (res: TomlLayer<'_>)
    ensures
        toml_contents(*value) == toml_layer_contents(res),
{
    match value {
        toml::Value::String(s) => TomlLayer::Text(s.clone()),
        toml::Value::Table(entries) => TomlLayer::Table(entries.iter().collect()),
        _ => TomlLayer::Other,
    }
}

// ---------------------------------------------------------------------------
// std
// ---------------------------------------------------------------------------

/// The lower case of a text, by the rules of Unicode.
pub uninterp spec fn lower_case(value: Seq<char>) -> Seq<char>;

/// `str::to_lowercase`.
#[verifier::external_body]
pub(crate) fn to_lower_case(value: &str) -> (res: String)
    ensures
        res@ == lower_case(value@),
{
    value.to_lowercase()
}

/// `String::from_utf8`: the text of which the bytes are the UTF-8 encoding,
/// where there is one.
#[verifier::external_body]
pub(crate) fn utf8_text(bytes: Vec<u8>) -> (res: Option<String>)
    ensures
        res is Some <==> vstd::utf8::valid_utf8(bytes@),
        res matches Some(s) ==> vstd::utf8::encode_utf8(s@) == bytes@,
{
    String::from_utf8(bytes).ok()
}

} // verus!
