//! Passwords, sessions, and who may see a page.

use vstd::prelude::*;
use vstd::string::StringExecFns;

use crate::config::Config;
use crate::config::ConfigView;
use crate::decimal;
use crate::outside;
use crate::text;
use crate::text::CharSet;
use crate::times;
use crate::times::Moment;
use crate::web;
use crate::web::Reply;
use crate::web::ReplyView;

verus! {

/// The cookie that holds a session.
pub const SESSION_COOKIE: &'static str = "plugdeck_session";

/// How many days a session lasts.
pub const SESSION_DAYS: i64 = 30;

// ---------------------------------------------------------------------------
// Passwords
// ---------------------------------------------------------------------------

/// The digest of a salt and a password.
pub open spec fn digest_of(salt: Seq<u8>, password: Seq<char>) -> Seq<u8> {
    outside::sha256_digest(salt + vstd::utf8::encode_utf8(password))
}

pub fn password_digest(salt: &Vec<u8>, password: &str) -> (res: Vec<u8>)
    ensures
        res@ == digest_of(salt@, password@),
        res@.len() == 32,
{
    outside::sha256(salt, password)
}

/// The salt and the digest in a hash of the form `sha256:salt:digest`.
pub open spec fn salted_parts(hash: Seq<char>) -> Option<(Seq<u8>, Seq<u8>)> {
    match text::split_at_first(hash, ':') {
        Some((prefix, rest)) => if prefix == "sha256"@ {
            match text::split_at_first(rest, ':') {
                Some((salt, digest)) => match (
                    outside::hex_bytes(salt),
                    outside::hex_bytes(digest),
                ) {
                    (Some(salt), Some(digest)) => Some((salt, digest)),
                    _ => None,
                },
                None => None,
            }
        } else {
            None
        },
        None => None,
    }
}

pub open spec fn is_argon2(hash: Seq<char>) -> bool {
    text::has_prefix(hash, "$argon2"@)
}

/// Whether a hash is one of the password. No password has an Argon2 hash with
/// more lanes than there can be.
pub open spec fn hash_accepts(hash: Seq<char>, password: Seq<char>) -> bool {
    if is_argon2(hash) {
        outside::lanes_fit(hash) && outside::argon2_accepts(hash, password)
    } else {
        match salted_parts(hash) {
            Some((salt, digest)) => digest_of(salt, password) == digest,
            None => false,
        }
    }
}

/// Whether a password lets its bearer in.
pub open spec fn password_accepted(config: ConfigView, password: Seq<char>) -> bool {
    config.auth_disabled || (config.password_hash matches Some(hash) && hash_accepts(hash, password))
}

/// Reads a hash of the form `sha256:salt:digest`.
pub fn salted_hash(hash: &str) -> (res: Option<(Vec<u8>, Vec<u8>)>)
    ensures
        match res {
            Some((salt, digest)) => salted_parts(hash@) == Some((salt@, digest@)),
            None => salted_parts(hash@) is None,
        },
{
    let (prefix, rest) = match text::split_once(hash, ':') {
        Some(pair) => pair,
        None => {
            return None;
        },
    };
    if !text::same(prefix, "sha256") {
        return None;
    }
    let (salt, digest) = match text::split_once(rest, ':') {
        Some(pair) => pair,
        None => {
            return None;
        },
    };
    match (outside::hex_decode(salt), outside::hex_decode(digest)) {
        (Some(salt), Some(digest)) => Some((salt, digest)),
        _ => None,
    }
}

/// Whether a digest is the one that a salted hash expects.
pub fn digest_matches(digest: &Vec<u8>, expected: &Vec<u8>) -> (res: bool)
    ensures
        res == (digest@ == expected@),
{
    outside::equal_bytes(digest.as_slice(), expected.as_slice())
}

/// Whether the lanes of an Argon2 hash can be counted.
pub fn has_lanes(hash: &str) -> (res: bool)
    ensures
        res == outside::lanes_fit(hash@),
{
    let chars = text::chars_of(hash);
    let mut i: usize = 0;
    while i < chars.len()
        invariant
            i <= chars@.len(),
            chars@ == hash@,
            forall|k: int|
                0 <= k < i && k + 11 <= hash@.len() && #[trigger] hash@[k] == 'p' && hash@[k + 1]
                    == '=' ==> !outside::nine_digits(hash@, k + 2),
        decreases chars.len() - i,
    {
        if chars.len() - i >= 11 && chars[i] == 'p' && chars[i + 1] == '=' {
            let mut n: usize = 0;
            while n < 9 && text::digit(chars[i + 2 + n])
                invariant
                    n <= 9,
                    i + 11 <= chars.len(),
                    forall|j: int| i + 2 <= j < i + 2 + n ==> text::is_digit(#[trigger] chars@[j]),
                decreases 9 - n,
            {
                n += 1;
            }
            if n == 9 {
                assert(outside::nine_digits(hash@, i + 2));
                assert(hash@[i as int] == 'p');
                return false;
            }
            assert(!text::is_digit(hash@[i + 2 + n]));
        }
        i += 1;
    }
    true
}

/// Whether a password lets its bearer in.
pub fn verify_password(config: &Config, password: &str) -> (res: bool)
    ensures
        res == password_accepted(config@, password@),
{
    if config.auth_disabled {
        return true;
    }
    let hash = match &config.password_hash {
        Some(hash) => hash.as_str(),
        None => {
            return false;
        },
    };
    if text::starts_with(hash, "$argon2") {
        return has_lanes(hash) && outside::argon2_verify(hash, password);
    }
    match salted_hash(hash) {
        Some((salt, expected)) => {
            let digest = password_digest(&salt, password);
            digest_matches(&digest, &expected)
        },
        None => false,
    }
}

/// The password on a line that was read: what stands before its end.
pub open spec fn typed_password(input: Seq<char>) -> Seq<char> {
    text::trimmed_end(input, CharSet::LineEnd)
}

/// Makes an Argon2 hash of the password on a line, with a given salt. There is
/// one unless the password has more than `u32::MAX` bytes, and the password is
/// accepted against it.
pub fn hash_password_with(input: &str, salt: &Vec<u8>) -> (res: Option<String>)
    requires
        8 <= salt@.len() <= 48,
    ensures
        text::opt_text(res) == outside::argon2_hash(typed_password(input@), salt@),
        res is Some <==> vstd::utf8::encode_utf8(typed_password(input@)).len() <= u32::MAX,
        res matches Some(hash) ==> text::has_prefix(hash@, "$argon2id$"@) && hash_accepts(
            hash@,
            typed_password(input@),
        ),
        forall|config: ConfigView|
            res is Some && config.password_hash == text::opt_text(res)
                ==> #[trigger] password_accepted(config, typed_password(input@)),
{
    proof {
        reveal_strlit("$argon2");
        reveal_strlit("$argon2id$");
    }
    let password = text::trim_end(input, CharSet::LineEnd);
    let res = outside::argon2_make(password, salt);
    assert(res matches Some(hash) ==> hash@.take("$argon2"@.len() as int) =~= hash@.take(
        "$argon2id$"@.len() as int,
    ).take("$argon2"@.len() as int));
    assert("$argon2id$"@.take("$argon2"@.len() as int) =~= "$argon2"@);
    res
}

/// Makes an Argon2 hash of the password on a line, with a random salt.
pub fn hash_password(input: &str) -> (res: Option<String>)
    ensures
        res is Some <==> vstd::utf8::encode_utf8(typed_password(input@)).len() <= u32::MAX,
        res matches Some(hash) ==> text::has_prefix(hash@, "$argon2id$"@) && hash_accepts(
            hash@,
            typed_password(input@),
        ),
        forall|config: ConfigView|
            res is Some && config.password_hash == text::opt_text(res)
                ==> #[trigger] password_accepted(config, typed_password(input@)),
        exists|salt: Seq<u8>|
            salt.len() == 16 && text::opt_text(res) == #[trigger] outside::argon2_hash(
                typed_password(input@),
                salt,
            ),
{
    let salt = outside::random_bytes(16);
    hash_password_with(input, &salt)
}

// ---------------------------------------------------------------------------
// Sessions
// ---------------------------------------------------------------------------

/// The signature under the time at which a session ends.
pub open spec fn signature(secret: Seq<u8>, expires: i64) -> Seq<char> {
    outside::hex_text(
        outside::sha256_digest(secret + vstd::utf8::encode_utf8(decimal::decimal(expires as int))),
    )
}

pub fn session_signature(config: &Config, expires: i64) -> (res: String)
    ensures
        res@ == signature(config@.cookie_secret, expires),
{
    let digest = outside::sha256(&config.cookie_secret, decimal::integer_text(expires).as_str());
    outside::hex_encode(&digest)
}

/// The time at which a session ends and its signature.
pub open spec fn session_parts(value: Seq<char>) -> Option<(i64, Seq<char>)> {
    match text::split_at_first(value, ':') {
        Some((expires, mark)) => match decimal::parsed_i64(expires) {
            Some(expires) => Some((expires, mark)),
            None => None,
        },
        None => None,
    }
}

/// A session counts until it ends, and only with the right signature.
pub open spec fn session_valid(secret: Seq<u8>, value: Seq<char>, now: int) -> bool {
    session_parts(value) matches Some((expires, mark)) && now <= expires && mark == signature(
        secret,
        expires,
    )
}

/// The value of a session that ends at a time.
pub open spec fn session_value(secret: Seq<u8>, expires: i64) -> Seq<char> {
    decimal::decimal(expires as int) + ":"@ + signature(secret, expires)
}

/// The header that sets the cookie of a session.
pub open spec fn session_header(secret: Seq<u8>, expires: i64) -> Seq<char> {
    SESSION_COOKIE@ + "="@ + session_value(secret, expires) + "; Max-Age=2592000; Path=/; HttpOnly; SameSite=Lax"@
}

/// The header that takes the cookie of a session away.
pub fn logout_header() -> (res: String)
    ensures
        res@ == "plugdeck_session=; Max-Age=0; Path=/; HttpOnly; SameSite=Lax"@,
{
    "plugdeck_session=; Max-Age=0; Path=/; HttpOnly; SameSite=Lax".to_owned()
}

/// When a session that begins at `now` ends.
pub open spec fn session_end(now: Moment) -> i64 {
    times::days_later(now, SESSION_DAYS as int).seconds
}

/// The calendar still holds the end of a session that begins at `now`.
pub open spec fn session_fits(now: Moment) -> bool {
    now.seconds + SESSION_DAYS * times::DAY_SECONDS <= times::LAST_SECOND
}

/// Makes the header for a session that begins at `now`; there is none where the
/// calendar does not hold its end.
pub fn make_session_cookie_at(config: &Config, now: &Moment) -> (res: Option<String>)
    requires
        now.valid(),
    ensures
        text::opt_text(res) == if session_fits(*now) {
            Some(session_header(config@.cookie_secret, session_end(*now)))
        } else {
            None
        },
{
    if now.seconds > times::LAST_SECOND - SESSION_DAYS * times::DAY_SECONDS {
        return None;
    }
    let end = times::after_days(now, SESSION_DAYS);
    let expires = end.seconds;
    let mark = session_signature(config, expires);
    let mut value = decimal::integer_text(expires);
    value.append(":");
    value.append(mark.as_str());
    let mut out = String::from_str(SESSION_COOKIE);
    out.append("=");
    out.append(value.as_str());
    out.append("; Max-Age=2592000; Path=/; HttpOnly; SameSite=Lax");
    Some(out)
}

/// Makes the header for a session that begins now; there is none where the
/// calendar does not hold its end.
pub fn make_session_cookie(config: &Config) -> (res: Option<String>)
    ensures
        exists|now: Moment|
            #![trigger now.valid()]
            now.valid() && text::opt_text(res) == if session_fits(now) {
                Some(session_header(config@.cookie_secret, session_end(now)))
            } else {
                None
            },
{
    let now = times::now();
    assert(now.valid());
    make_session_cookie_at(config, &now)
}

/// Reads the value of a session.
pub fn read_session<'a>(value: &'a str) -> (res: Option<(i64, &'a str)>)
    ensures
        match res {
            Some((expires, mark)) => session_parts(value@) == Some((expires, mark@)),
            None => session_parts(value@) is None,
        },
{
    match text::split_once(value, ':') {
        Some((expires, mark)) => match decimal::parse_integer(expires) {
            Some(expires) => Some((expires, mark)),
            None => None,
        },
        None => None,
    }
}

/// Whether a session whose right signature is `expected` counts at `now`.
pub fn session_counts(expires: i64, mark: &str, expected: &str, now: &Moment) -> (res: bool)
    ensures
        res == (now.seconds <= expires && mark@ == expected@),
{
    if expires < now.seconds {
        return false;
    }
    proof {
        vstd::utf8::encode_utf8_decode_utf8(mark@);
        vstd::utf8::encode_utf8_decode_utf8(expected@);
    }
    outside::equal_bytes(expected.as_bytes(), mark.as_bytes())
}

/// Whether a session counts at `now`.
pub fn verify_session_cookie_at(config: &Config, value: &str, now: &Moment) -> (res: bool)
    ensures
        res == session_valid(config@.cookie_secret, value@, now.seconds as int),
{
    match read_session(value) {
        Some((expires, mark)) => {
            let expected = session_signature(config, expires);
            session_counts(expires, mark, expected.as_str(), now)
        },
        None => false,
    }
}

/// Whether a session counts now.
pub fn verify_session_cookie(config: &Config, value: &str) -> (res: bool)
    ensures
        exists|now: Moment|
            #![trigger now.valid()]
            now.valid() && res == session_valid(config@.cookie_secret, value@, now.seconds as int),
{
    let now = times::now();
    assert(now.valid());
    verify_session_cookie_at(config, value, &now)
}

// ---------------------------------------------------------------------------
// Requests
// ---------------------------------------------------------------------------

/// The user and the password in a header of basic authentication.
pub open spec fn basic_pair(header: Seq<char>) -> Option<(Seq<char>, Seq<char>)> {
    if !text::has_prefix(header, "Basic "@) {
        None
    } else {
        match outside::base64_bytes(text::trimmed(header.skip("Basic "@.len() as int))) {
            Some(bytes) => decoded_pair(bytes),
            None => None,
        }
    }
}

/// The two texts around the first colon, where the bytes are a text that has one.
pub open spec fn decoded_pair(bytes: Seq<u8>) -> Option<(Seq<char>, Seq<char>)> {
    if vstd::utf8::valid_utf8(bytes) {
        text::split_at_first(vstd::utf8::decode_utf8(bytes), ':')
    } else {
        None
    }
}

/// The value of the first cookie with a name.
pub open spec fn cookie_in(parts: Seq<Seq<char>>, name: Seq<char>) -> Option<Seq<char>>
    decreases parts.len(),
{
    if parts.len() == 0 {
        None
    } else {
        match text::split_at_first(text::trimmed(parts[0]), '=') {
            Some((n, value)) => if n == name {
                Some(value)
            } else {
                cookie_in(parts.skip(1), name)
            },
            None => cookie_in(parts.skip(1), name),
        }
    }
}

pub open spec fn cookie_of(header: Seq<char>, name: Seq<char>) -> Option<Seq<char>> {
    cookie_in(text::split_on(header, ';'), name)
}

/// Whether a request may see what it asks for: where passwords are switched
/// off; by the user and password it brings; else by its session.
pub open spec fn admitted(
    config: ConfigView,
    authorization: Option<Seq<char>>,
    cookie: Option<Seq<char>>,
    now: int,
) -> bool {
    let basic = match authorization {
        Some(header) => basic_pair(header),
        None => None,
    };
    config.auth_disabled || match basic {
        Some((user, password)) => user == config.user && password_accepted(config, password),
        None => match cookie {
            Some(header) => cookie_of(header, SESSION_COOKIE@) matches Some(value)
                && session_valid(config.cookie_secret, value, now),
            None => false,
        },
    }
}

/// The two texts around the first colon, where the bytes are a text that has one.
pub fn split_credentials(bytes: Vec<u8>) -> (res: Option<(String, String)>)
    ensures
        match res {
            Some((user, password)) => decoded_pair(bytes@) == Some((user@, password@)),
            None => decoded_pair(bytes@) is None,
        },
{
    match outside::utf8_text(bytes) {
        Some(pair) => {
            proof {
                vstd::utf8::encode_utf8_decode_utf8(pair@);
            }
            match text::split_once(pair.as_str(), ':') {
                Some((user, password)) => Some((user.to_owned(), password.to_owned())),
                None => None,
            }
        },
        None => None,
    }
}

/// Reads a header of basic authentication.
pub fn basic_credentials(header: &str) -> (res: Option<(String, String)>)
    ensures
        match res {
            Some((user, password)) => basic_pair(header@) == Some((user@, password@)),
            None => basic_pair(header@) is None,
        },
{
    match text::strip_prefix(header, "Basic ") {
        Some(raw) => match outside::base64_decode(text::trim(raw)) {
            Some(bytes) => split_credentials(bytes),
            None => None,
        },
        None => None,
    }
}

/// The value of the first cookie with a name.
pub fn find_cookie(header: &str, name: &str) -> (res: Option<String>)
    ensures
        text::opt_text(res) == cookie_of(header@, name@),
{
    let parts = text::split(header, ';');
    let ghost all = text::texts(parts@);
    let mut i: usize = 0;
    assert(all.skip(0) =~= all);
    while i < parts.len()
        invariant
            i <= parts@.len(),
            all == text::texts(parts@),
            cookie_in(all.skip(i as int), name@) == cookie_in(all, name@),
            all == text::split_on(header@, ';'),
        decreases parts@.len() - i,
    {
        assert(all.skip(i as int)[0] == parts@[i as int]@);
        assert(all.skip(i as int).skip(1) =~= all.skip(i + 1));
        if let Some((n, value)) = text::split_once(text::trim(parts[i].as_str()), '=') {
            if text::same(n, name) {
                return Some(value.to_owned());
            }
        }
        i += 1;
    }
    None
}

/// Whether a request may see what it asks for at `now`, by its headers.
pub fn authorized_at(
    config: &Config,
    authorization: Option<&str>,
    cookie: Option<&str>,
    now: &Moment,
) -> (res: bool)
    ensures
        res == admitted(
            config@,
            text::opt_str(authorization),
            text::opt_str(cookie),
            now.seconds as int,
        ),
{
    if config.auth_disabled {
        return true;
    }
    let pair = match authorization {
        Some(header) => basic_credentials(header),
        None => None,
    };
    if let Some((user, password)) = pair {
        return text::same(user.as_str(), config.user.as_str()) && verify_password(
            config,
            password.as_str(),
        );
    }
    match cookie {
        Some(header) => match find_cookie(header, SESSION_COOKIE) {
            Some(value) => verify_session_cookie_at(config, value.as_str(), now),
            None => false,
        },
        None => false,
    }
}

/// Whether a request may see what it asks for now.
pub fn authorized(config: &Config, authorization: Option<&str>, cookie: Option<&str>) -> (res: bool)
    ensures
        exists|now: Moment|
            #![trigger now.valid()]
            now.valid() && res == admitted(
                config@,
                text::opt_str(authorization),
                text::opt_str(cookie),
                now.seconds as int,
            ),
        config@.auth_disabled ==> res,
{
    let now = times::now();
    assert(now.valid());
    authorized_at(config, authorization, cookie, &now)
}

/// What a request for a page is answered that may not see it.
pub fn page_guard(admitted: bool) -> (res: Option<Reply>)
    ensures
        web::opt_reply(res) == if admitted {
            None
        } else {
            Some(ReplyView::Redirect("/login"@))
        },
{
    if admitted {
        None
    } else {
        Some(web::redirect("/login"))
    }
}

/// What a request for data is answered that may not see it.
pub fn raw_guard(admitted: bool) -> (res: Option<Reply>)
    ensures
        web::opt_reply(res) == if admitted {
            None
        } else {
            Some(ReplyView::Plain(401, "authentication required"@))
        },
{
    if admitted {
        None
    } else {
        Some(web::plain(401, "authentication required"))
    }
}

// ---------------------------------------------------------------------------
// What holds of passwords and sessions
// ---------------------------------------------------------------------------

proof fn a_digit_reads_back(n: int)
    requires
        0 <= n < 16,
    ensures
        outside::hex_value(outside::hex_digit(n)) == Some(n),
        outside::hex_digit(n) != ':',
        outside::hex_digit(n) != ';',
        !text::is_space(outside::hex_digit(n)),
{
}

/// Bytes read back from their hexadecimal digits.
pub proof fn hex_reads_back(bytes: Seq<u8>)
    ensures
        outside::hex_bytes(outside::hex_text(bytes)) == Some(bytes),
        forall|i: int|
            0 <= i < outside::hex_text(bytes).len() ==> {
                let c = #[trigger] outside::hex_text(bytes)[i];
                c != ':' && c != ';' && !text::is_space(c)
            },
{
    let s = outside::hex_text(bytes);
    assert forall|i: int| 0 <= i < s.len() implies outside::hex_value(#[trigger] s[i]) is Some && s[i]
        != ':' && s[i] != ';' && !text::is_space(s[i]) by {
        a_digit_reads_back(bytes[i / 2] as int / 16);
        a_digit_reads_back(bytes[i / 2] as int % 16);
    }
    let back = outside::hex_bytes(s).unwrap();
    assert(back =~= bytes) by {
        assert forall|i: int| 0 <= i < bytes.len() implies back[i] == bytes[i] by {
            a_digit_reads_back(bytes[i] as int / 16);
            a_digit_reads_back(bytes[i] as int % 16);
            assert((2 * i) / 2 == i && (2 * i + 1) / 2 == i);
            assert(s[2 * i] == outside::hex_digit(bytes[i] as int / 16));
            assert(s[2 * i + 1] == outside::hex_digit(bytes[i] as int % 16));
        }
    }
}

/// The hash that a salt and a password make.
pub open spec fn salted_text(salt: Seq<u8>, password: Seq<char>) -> Seq<char> {
    "sha256:"@ + outside::hex_text(salt) + ":"@ + outside::hex_text(digest_of(salt, password))
}

/// A password is accepted against the hash it made, and another one only if
/// it has the same digest.
pub proof fn salted_hashes_accept_their_password(salt: Seq<u8>, password: Seq<char>, other: Seq<char>)
    ensures
        hash_accepts(salted_text(salt, password), password),
        hash_accepts(salted_text(salt, password), other) <==> digest_of(salt, other) == digest_of(
            salt,
            password,
        ),
{
    reveal_strlit("sha256:");
    reveal_strlit("sha256");
    reveal_strlit(":");
    reveal_strlit("$argon2");
    let hash = salted_text(salt, password);
    let s = outside::hex_text(salt);
    let d = outside::hex_text(digest_of(salt, password));
    hex_reads_back(salt);
    hex_reads_back(digest_of(salt, password));
    if is_argon2(hash) {
        assert(hash.take(7)[0] == '$');
        assert(hash[0] == 's');
    }
    text::first_char_at(hash, ':', 6);
    assert(hash.take(6) =~= "sha256"@);
    let rest = hash.skip(7);
    assert(rest =~= s + ":"@ + d);
    text::first_char_at(rest, ':', s.len() as int);
    assert(rest.take(s.len() as int) =~= s);
    assert(rest.skip((s.len() + 1) as int) =~= d);
}

proof fn decimal_is_plain(v: int)
    ensures
        forall|i: int|
            0 <= i < decimal::decimal(v).len() ==> {
                let c = #[trigger] decimal::decimal(v)[i];
                c == '-' || text::is_digit(c)
            },
        decimal::decimal(v).len() > 0,
{
    if v < 0 {
        decimal::digits_denote((-v) as nat);
    } else {
        decimal::digits_denote(v as nat);
    }
}

/// A session counts with the secret that signed it until it ends, and not after.
pub proof fn sessions_count_until_they_end(secret: Seq<u8>, expires: i64, now: int)
    ensures
        session_valid(secret, session_value(secret, expires), now) <==> now <= expires,
{
    reveal_strlit(":");
    let value = session_value(secret, expires);
    let head = decimal::decimal(expires as int);
    decimal_is_plain(expires as int);
    text::first_char_at(value, ':', head.len() as int);
    assert(value.take(head.len() as int) =~= head);
    assert(value.skip((head.len() + 1) as int) =~= signature(secret, expires));
    decimal::numerals_round_trip(expires);
}

/// A session that another secret signed counts only if the signatures agree.
pub proof fn sessions_need_the_right_signature(secret: Seq<u8>, other: Seq<u8>, expires: i64, now: int)
    requires
        signature(secret, expires) != signature(other, expires),
    ensures
        !session_valid(secret, session_value(other, expires), now),
{
    reveal_strlit(":");
    let value = session_value(other, expires);
    let head = decimal::decimal(expires as int);
    decimal_is_plain(expires as int);
    text::first_char_at(value, ':', head.len() as int);
    assert(value.take(head.len() as int) =~= head);
    assert(value.skip((head.len() + 1) as int) =~= signature(other, expires));
    decimal::numerals_round_trip(expires);
}

proof fn no_separator_no_split(s: Seq<char>, c: char)
    requires
        forall|i: int| 0 <= i < s.len() ==> #[trigger] s[i] != c,
    ensures
        text::split_on(s, c) == seq![s],
{
    text::first_char_is_least(s, c);
    assert(text::split_on(s, c) =~= seq![s]);
}

proof fn nothing_to_trim(s: Seq<char>)
    requires
        s.len() > 0,
        !text::is_space(s[0]),
        !text::is_space(s.last()),
    ensures
        text::trimmed(s) == s,
{
}

/// Nothing in `s` would end a cookie or be trimmed off.
spec fn cookie_plain(s: Seq<char>) -> bool {
    forall|i: int| 0 <= i < s.len() ==> #[trigger] s[i] != ';' && !text::is_space(s[i])
}

proof fn session_values_are_plain(secret: Seq<u8>, expires: i64)
    ensures
        cookie_plain(session_value(secret, expires)),
        session_value(secret, expires).len() > 0,
{
    reveal_strlit(":");
    let value = session_value(secret, expires);
    let head = decimal::decimal(expires as int);
    let mark = signature(secret, expires);
    decimal_is_plain(expires as int);
    hex_reads_back(
        outside::sha256_digest(
            secret + vstd::utf8::encode_utf8(decimal::decimal(expires as int)),
        ),
    );
    assert forall|i: int| 0 <= i < value.len() implies #[trigger] value[i] != ';'
        && !text::is_space(value[i]) by {
        if i < head.len() {
            assert(value[i] == head[i]);
        } else if i > head.len() {
            assert(value[i] == mark[i - head.len() - 1]);
        }
    }
}

proof fn the_session_cookie_is_plain()
    ensures
        SESSION_COOKIE@.len() == 16,
        cookie_plain(SESSION_COOKIE@),
        forall|i: int| 0 <= i < 16 ==> #[trigger] SESSION_COOKIE@[i] != '=',
{
    reveal_strlit("plugdeck_session");
}

proof fn a_plain_cookie_is_found(value: Seq<char>)
    requires
        cookie_plain(value),
        value.len() > 0,
    ensures
        cookie_of(SESSION_COOKIE@ + "="@ + value, SESSION_COOKIE@) == Some(value),
{
    reveal_strlit("=");
    the_session_cookie_is_plain();
    let name = SESSION_COOKIE@;
    let header = name + "="@ + value;
    assert forall|i: int| 0 <= i < header.len() implies #[trigger] header[i] != ';' by {
        if i < 16 {
            assert(header[i] == name[i]);
        } else if i > 16 {
            assert(header[i] == value[i - 17]);
        }
    }
    no_separator_no_split(header, ';');
    assert(header[0] == name[0]);
    assert(header.last() == value[value.len() - 1]);
    nothing_to_trim(header);
    assert forall|i: int| 0 <= i < 16 implies #[trigger] header[i] != '=' by {
        assert(header[i] == name[i]);
    }
    text::first_char_at(header, '=', 16);
    assert(header.take(16) =~= name);
    assert(header.skip(17) =~= value);
    assert(text::split_on(header, ';')[0] == header);
}

/// The browser that was given a session is let in with it until it ends.
pub proof fn a_session_lets_its_bearer_in(config: ConfigView, expires: i64, now: int)
    ensures
        admitted(
            config,
            None,
            Some(SESSION_COOKIE@ + "="@ + session_value(config.cookie_secret, expires)),
            now,
        ) <==> config.auth_disabled || now <= expires,
{
    let secret = config.cookie_secret;
    session_values_are_plain(secret, expires);
    a_plain_cookie_is_found(session_value(secret, expires));
    sessions_count_until_they_end(secret, expires, now);
}

/// Where passwords are switched off, every request is let in.
pub proof fn open_decks_admit_everyone(
    config: ConfigView,
    authorization: Option<Seq<char>>,
    cookie: Option<Seq<char>>,
    now: int,
)
    requires
        config.auth_disabled,
    ensures
        admitted(config, authorization, cookie, now),
{
}

/// A request that brings neither a password nor a session is not let in.
pub proof fn strangers_are_kept_out(config: ConfigView, now: int)
    requires
        !config.auth_disabled,
    ensures
        !admitted(config, None, None, now),
{
}

/// A user and a password that are brought decide alone: no session makes up
/// for a wrong one.
pub proof fn credentials_decide_alone(
    config: ConfigView,
    header: Seq<char>,
    cookie: Option<Seq<char>>,
    now: int,
)
    requires
        basic_pair(header) is Some,
        !config.auth_disabled,
    ensures
        admitted(config, Some(header), cookie, now) <==> (basic_pair(header).unwrap().0 == config.user
            && password_accepted(config, basic_pair(header).unwrap().1)),
{
}

/// A user and a password are sent as the bytes of both with a colon between them;
/// the password may hold colons, the user may not.
pub proof fn credentials_are_parted_at_the_first_colon(user: Seq<char>, password: Seq<char>)
    requires
        !user.contains(':'),
    ensures
        decoded_pair(vstd::utf8::encode_utf8(user + seq![':'] + password)) == Some((user, password)),
{
    let pair = user + seq![':'] + password;
    vstd::utf8::encode_utf8_valid_utf8(pair);
    vstd::utf8::encode_utf8_decode_utf8(pair);
    text::splits_are_at_the_first(user, ':', password);
}

/// Only a header of the basic scheme brings a user and a password, coded in base
/// 64; and the right ones let a request in, whatever session it brings.
pub proof fn the_right_password_lets_in(
    config: ConfigView,
    coded: Seq<char>,
    bytes: Seq<u8>,
    other: Seq<char>,
    password: Seq<char>,
    cookie: Option<Seq<char>>,
    now: int,
)
    requires
        outside::base64_bytes(text::trimmed(coded)) == Some(bytes),
        decoded_pair(bytes) == Some((config.user, password)),
        other.len() < 6 || other.take(6) != "Basic "@,
    ensures
        password_accepted(config, password) ==> admitted(
            config,
            Some("Basic "@ + coded),
            cookie,
            now,
        ),
        !password_accepted(config, password) ==> !admitted(
            config,
            Some("Basic "@ + coded),
            cookie,
            now,
        ),
        basic_pair(other) is None,
        admitted(config, Some(other), cookie, now) == admitted(config, None, cookie, now),
{
    reveal_strlit("Basic ");
    let header = "Basic "@ + coded;
    text::parts_of_a_text(Seq::empty(), "Basic "@, coded);
    assert(header.skip(6) =~= coded);
}

/// Another user is not let in, whatever the password.
pub proof fn other_users_are_kept_out(
    config: ConfigView,
    header: Seq<char>,
    cookie: Option<Seq<char>>,
    now: int,
)
    requires
        basic_pair(header) matches Some((user, password)) && user != config.user,
        !config.auth_disabled,
    ensures
        !admitted(config, Some(header), cookie, now),
{
}

/// Without a hash no password is right; with one the hash decides, by its own
/// kind: a hash of the strong kind by that, any other by its salt and digest.
pub proof fn the_hash_decides(config: ConfigView, hash: Seq<char>, rest: Seq<char>, password: Seq<char>)
    requires
        !config.auth_disabled,
        hash.len() < 7 || hash.take(7) != "$argon2"@,
    ensures
        config.password_hash is None ==> !password_accepted(config, password),
        config.password_hash == Some("$argon2"@ + rest) ==> (password_accepted(config, password)
            <==> outside::lanes_fit("$argon2"@ + rest) && outside::argon2_accepts(
            "$argon2"@ + rest,
            password,
        )),
        config.password_hash == Some(hash) ==> (password_accepted(config, password) <==> (
        salted_parts(hash) matches Some((salt, digest)) && outside::sha256_digest(
            salt + vstd::utf8::encode_utf8(password),
        ) == digest)),
{
    reveal_strlit("$argon2");
    text::parts_of_a_text(Seq::empty(), "$argon2"@, rest);
}

/// A salted hash is the word for its kind, the salt and the digest, with colons
/// between them and both in hexadecimal; nothing else is one.
pub proof fn salted_hashes_have_three_parts(kind: Seq<char>, salt: Seq<char>, digest: Seq<char>)
    requires
        !kind.contains(':'),
        !salt.contains(':'),
    ensures
        kind == "sha256"@ && outside::hex_bytes(salt) is Some && outside::hex_bytes(digest) is Some
            ==> salted_parts(kind + seq![':'] + (salt + seq![':'] + digest)) == Some(
            (outside::hex_bytes(salt).unwrap(), outside::hex_bytes(digest).unwrap()),
        ),
        kind != "sha256"@ ==> salted_parts(kind + seq![':'] + (salt + seq![':'] + digest)) is None,
        outside::hex_bytes(salt) is None || outside::hex_bytes(digest) is None ==> salted_parts(
            kind + seq![':'] + (salt + seq![':'] + digest),
        ) is None,
        salted_parts(kind) is None,
        salted_parts(kind + seq![':'] + salt) is None,
{
    text::splits_are_at_the_first(kind, ':', salt + seq![':'] + digest);
    text::splits_are_at_the_first(salt, ':', digest);
    text::splits_are_at_the_first(kind, ':', salt);
}

/// A password that was typed is what stands before the line's end.
pub proof fn line_ends_are_not_typed(password: Seq<char>)
    requires
        password.len() > 0 ==> password.last() != '\r' && password.last() != '\n',
    ensures
        typed_password(password) == password,
        typed_password(password + seq!['\n']) == password,
        typed_password(password + seq!['\r', '\n']) == password,
{
    let set = CharSet::LineEnd;
    assert((password + seq!['\n']).drop_last() =~= password);
    let r = password + seq!['\r'];
    assert((password + seq!['\r', '\n']).drop_last() =~= r);
    assert(r.drop_last() =~= password);
    assert(text::trimmed_end(password, set) == password);
    assert(text::trimmed_end(r, set) == password);
}

/// A session is a number, a colon and a mark: it counts up to that second where
/// the mark is the number's signature, and not otherwise.
pub proof fn sessions_are_numbers_and_marks(
    secret: Seq<u8>,
    number: Seq<char>,
    mark: Seq<char>,
    now: int,
)
    requires
        !number.contains(':'),
    ensures
        session_valid(secret, number + seq![':'] + mark, now) <==> (decimal::parsed_i64(
            number,
        ) matches Some(end) && now <= end && mark == outside::hex_text(
            outside::sha256_digest(
                secret + vstd::utf8::encode_utf8(decimal::decimal(end as int)),
            ),
        )),
        !session_valid(secret, number, now),
{
    text::splits_are_at_the_first(number, ':', mark);
}

/// A session lasts thirty days, for the browser too, and cannot be read by the
/// pages' scripts.
pub proof fn sessions_last_thirty_days(secret: Seq<u8>, now: Moment, end: i64)
    requires
        session_fits(now),
        now.valid(),
    ensures
        session_end(now) == now.seconds + 2_592_000,
        session_header(secret, end) == "plugdeck_session"@ + "="@ + session_value(secret, end)
            + "; Max-Age=2592000; Path=/; HttpOnly; SameSite=Lax"@,
        session_value(secret, end) == decimal::decimal(end as int) + ":"@ + outside::hex_text(
            outside::sha256_digest(
                secret + vstd::utf8::encode_utf8(decimal::decimal(end as int)),
            ),
        ),
{
}

/// A cookie is found by its name among those that semicolons part, white space
/// around it aside: the first of the name counts.
pub proof fn the_first_cookie_of_a_name_counts(first: Seq<char>, rest: Seq<char>, name: Seq<char>)
    requires
        !first.contains(';'),
    ensures
        cookie_of(first, name) is Some ==> cookie_of(first + seq![';'] + rest, name) == cookie_of(
            first,
            name,
        ),
        cookie_of(first, name) is None ==> cookie_of(first + seq![';'] + rest, name) == cookie_of(
            rest,
            name,
        ),
{
    let header = first + seq![';'] + rest;
    assert forall|j: int| 0 <= j < first.len() implies #[trigger] header[j] != ';' by {
        assert(header[j] == first[j]);
        assert(first.contains(first[j]));
    }
    assert(header[first.len() as int] == ';');
    text::first_char_at(header, ';', first.len() as int);
    assert(header.take(first.len() as int) =~= first);
    assert(header.skip(first.len() as int + 1) =~= rest);
    let parts = text::split_on(rest, ';');
    let all = text::split_on(header, ';');
    assert(all =~= seq![first] + parts);
    assert(all.skip(1) =~= parts);
    text::first_char_is_least(first, ';');
    assert(text::split_on(first, ';') =~= seq![first]);
    assert(seq![first].skip(1) =~= Seq::<Seq<char>>::empty());
    assert(cookie_in(Seq::<Seq<char>>::empty(), name) is None);
}

/// A single cookie has the value behind its first equals sign, under the name
/// before it.
pub proof fn cookies_are_names_and_values(part: Seq<char>, name: Seq<char>, value: Seq<char>, other: Seq<char>)
    requires
        !part.contains(';'),
        text::trimmed(part) == name + seq!['='] + value,
        !name.contains('='),
        other != name,
    ensures
        cookie_of(part, name) == Some(value),
        cookie_of(part, other) is None,
{
    text::first_char_is_least(part, ';');
    assert(text::split_on(part, ';') =~= seq![part]);
    text::splits_are_at_the_first(name, '=', value);
    assert(seq![part].skip(1) =~= Seq::<Seq<char>>::empty());
    assert(cookie_in(Seq::<Seq<char>>::empty(), other) is None);
}

/// A session that has ended, or that the deck did not sign, lets no one in.
pub proof fn ended_sessions_keep_out(config: ConfigView, header: Seq<char>, now: int)
    requires
        !config.auth_disabled,
    ensures
        admitted(config, None, Some(header), now) ==> cookie_of(header, "plugdeck_session"@)
            is Some,
        cookie_of(header, "plugdeck_session"@) matches Some(value) ==> (admitted(
            config,
            None,
            Some(header),
            now,
        ) <==> session_valid(config.cookie_secret, value, now)),
{
}

} // verus!
