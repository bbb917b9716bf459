//! Token codec: the claims text, signing and checking bearer tokens.
//!
//! The signed payload is the claims object written as
//! `{"sub":"<subject>","exp":<expiry>,"iat":<issued at>}`; jsonwebtoken signs
//! and checks it with HS256, and this module writes and reads the text.

use crate::common::TokenResponse;
use crate::errors::AuthError;
use crate::text::{chars_of, int_text, lemma_int_text_chars, parse_decimal, push_decimal, string_from_chars};
use vstd::prelude::*;

verus! {

/// Seconds a token stays valid when no other lifetime is configured.
pub const DEFAULT_TOKEN_TTL: i64 = 86400;

/// The decoded payload of a token.
#[derive(Debug, Clone)]
pub struct Claims {
    /// The principal's identifier, in hyphenated UUID form.
    pub sub: String,
    /// Expiry, in Unix seconds.
    pub exp: i64,
    /// Time of issue, in Unix seconds.
    pub iat: i64,
}

/// Mathematical view of `Claims`.
pub struct ClaimsView {
    pub sub: Seq<char>,
    pub exp: i64,
    pub iat: i64,
}

impl View for Claims {
    type V = ClaimsView;

    open spec fn view(&self) -> ClaimsView {
        ClaimsView { sub: self.sub@, exp: self.exp, iat: self.iat }
    }
}

/// Whether `c` can stand inside a JSON string without escaping.
pub open spec fn json_plain_char(c: char) -> bool {
    c != '"' && c != '\u{5c}' && ' ' <= c
}

/// A subject can be written in the claims text without escaping.
pub open spec fn claims_ok(v: ClaimsView) -> bool {
    forall|i: int| 0 <= i < v.sub.len() ==> json_plain_char(#[trigger] v.sub[i])
}

pub open spec fn sub_key() -> Seq<char> {
    seq!['{', '"', 's', 'u', 'b', '"', ':', '"']
}

pub open spec fn exp_key() -> Seq<char> {
    seq!['"', ',', '"', 'e', 'x', 'p', '"', ':']
}

pub open spec fn iat_key() -> Seq<char> {
    seq![',', '"', 'i', 'a', 't', '"', ':']
}

/// The claims text of `v`.
pub open spec fn payload_of(v: ClaimsView) -> Seq<char> {
    sub_key() + v.sub + exp_key() + int_text(v.exp as int) + iat_key() + int_text(v.iat as int)
        + seq!['}']
}

/// The claims that a text holds: those whose claims text it is, if any.
pub open spec fn decoded_claims(text: Seq<char>) -> Option<ClaimsView> {
    if exists|v: ClaimsView| claims_ok(v) && payload_of(v) == text {
        Some(choose|v: ClaimsView| claims_ok(v) && payload_of(v) == text)
    } else {
        None
    }
}

/// The lower-case hex digit of `n`, for `n` below sixteen.
pub open spec fn hex_digit(n: u128) -> char {
    if n == 0 { '0' }
    else if n == 1 { '1' }
    else if n == 2 { '2' }
    else if n == 3 { '3' }
    else if n == 4 { '4' }
    else if n == 5 { '5' }
    else if n == 6 { '6' }
    else if n == 7 { '7' }
    else if n == 8 { '8' }
    else if n == 9 { '9' }
    else if n == 10 { 'a' }
    else if n == 11 { 'b' }
    else if n == 12 { 'c' }
    else if n == 13 { 'd' }
    else if n == 14 { 'e' }
    else { 'f' }
}

/// Which of the 32 hex digits stands at position `i` of the hyphenated text.
pub open spec fn uuid_digit_index(i: int) -> int {
    if i < 8 { i }
    else if i < 13 { i - 1 }
    else if i < 18 { i - 2 }
    else if i < 23 { i - 3 }
    else { i - 4 }
}

/// The hyphenated, lower-case text of a UUID (8-4-4-4-12 hex digits of the
/// 128-bit value, most significant first), as the uuid crate writes it.
pub open spec fn uuid_text_of(id: u128) -> Seq<char> {
    Seq::new(
        36,
        |i: int|
            if i == 8 || i == 13 || i == 18 || i == 23 {
                '-'
            } else {
                hex_digit((id >> ((124 - 4 * uuid_digit_index(i)) as u128)) & 15)
            },
    )
}

/// What uuid's `Uuid::parse_str` reads from a text, as a 128-bit value.
pub uninterp spec fn uuid_parse_of(s: Seq<char>) -> Option<u128>;

/// A token as jsonwebtoken's `encode` writes it for a payload text and secret.
pub uninterp spec fn jwt_signed(payload: Seq<char>, secret: Seq<char>) -> Seq<char>;

/// What jsonwebtoken's `decode` makes of a token under a secret: the payload
/// text, or the failure.
pub uninterp spec fn jwt_opened(token: Seq<char>, secret: Seq<char>) -> Result<Seq<char>, AuthError>;

pub open spec fn opened_as(r: Result<String, AuthError>, o: Result<Seq<char>, AuthError>) -> bool {
    match r {
        Ok(p) => o == Ok::<Seq<char>, AuthError>(p@),
        Err(e) => o == Err::<Seq<char>, AuthError>(e),
    }
}

/// Whether `r` is a success holding the text `t`.
pub open spec fn gives_text(r: Result<String, AuthError>, t: Seq<char>) -> bool {
    r matches Ok(p) && p@ == t
}

/// Relies on uuid's `Display`, which writes the hyphenated lower-case form
/// of the big-endian bytes (`Uuid::from_u128` keeps the value as is).
#[verifier::external_body]
pub(crate) fn uuid_text(id: u128) -> (r: String)
    ensures
        r@ == uuid_text_of(id),
{
    uuid::Uuid::from_u128(id).to_string()
}

/// Relies on uuid's `Uuid::parse_str` (read back with `as_u128`): its result
/// depends on the text alone, and it reads back the hyphenated text it writes.
#[verifier::external_body]
pub(crate) fn uuid_parse(s: &str) -> (r: Option<u128>)
    ensures
        r == uuid_parse_of(s@),
        forall|id: u128| s@ == #[trigger] uuid_text_of(id) ==> r == Some(id),
{
    uuid::Uuid::parse_str(s).ok().map(|u| u.as_u128())
}

/// Relies on jsonwebtoken's `encode` with the default header (HS256) and a key
/// made from the secret's bytes; the payload text is handed over unchanged as
/// serde_json's `RawValue`. A claims text is valid JSON, the key family
/// matches HS256 and HMAC signing does not fail, so it is always signed.
#[verifier::external_body]
fn jwt_sign(payload: &str, secret: &str) -> (r: Result<String, AuthError>)
    ensures
        r matches Ok(t) ==> t@ == jwt_signed(payload@, secret@),
        r matches Err(e) ==> e == AuthError::SigningError,
        forall|v: ClaimsView| claims_ok(v) && payload@ == #[trigger] payload_of(v) ==> r is Ok,
{
    let signed = serde_json::value::RawValue::from_string(payload.to_string()).map_err(
        jsonwebtoken::errors::Error::from,
    ).and_then(
        |claims|
            jsonwebtoken::encode(
                &jsonwebtoken::Header::default(),
                &claims,
                &jsonwebtoken::EncodingKey::from_secret(secret.as_bytes()),
            ),
    );
    signed.map_err(|_| AuthError::SigningError)
}

/// Relies on jsonwebtoken's `decode` (HS256 only, key made from the secret's
/// bytes), with its own expiry check and required-claims check switched off:
/// on a token that `encode` wrote for a claims text with the same secret it
/// gives that text back. An algorithm other than HS256 is reported apart.
#[verifier::external_body]
fn jwt_open(token: &str, secret: &str) -> (r: Result<String, AuthError>)
    ensures
        opened_as(r, jwt_opened(token@, secret@)),
        r matches Err(e) ==> e == AuthError::MalformedToken || e == AuthError::UnsupportedAlgorithm,
        forall|v: ClaimsView| claims_ok(v) && #[trigger] jwt_signed(payload_of(v), secret@) == token@
            ==> gives_text(r, payload_of(v)),
{
    let mut validation = jsonwebtoken::Validation::default();
    validation.validate_exp = false;
    validation.required_spec_claims.clear();
    let key = jsonwebtoken::DecodingKey::from_secret(secret.as_bytes());
    match jsonwebtoken::decode::<Box<serde_json::value::RawValue>>(token, &key, &validation) {
        Ok(data) => Ok(data.claims.get().to_string()),
        Err(e) => match e.kind() {
            jsonwebtoken::errors::ErrorKind::InvalidAlgorithm => Err(AuthError::UnsupportedAlgorithm),
            _ => Err(AuthError::MalformedToken),
        },
    }
}

fn sub_key_chars() -> (r: Vec<char>)
    ensures
        r@ == sub_key(),
{
    let mut v: Vec<char> = Vec::new();
    v.push('{');
    v.push('"');
    v.push('s');
    v.push('u');
    v.push('b');
    v.push('"');
    v.push(':');
    v.push('"');
    assert(v@ =~= sub_key());
    v
}

fn exp_key_chars() -> (r: Vec<char>)
    ensures
        r@ == exp_key(),
{
    let mut v: Vec<char> = Vec::new();
    v.push('"');
    v.push(',');
    v.push('"');
    v.push('e');
    v.push('x');
    v.push('p');
    v.push('"');
    v.push(':');
    assert(v@ =~= exp_key());
    v
}

fn iat_key_chars() -> (r: Vec<char>)
    ensures
        r@ == iat_key(),
{
    let mut v: Vec<char> = Vec::new();
    v.push(',');
    v.push('"');
    v.push('i');
    v.push('a');
    v.push('t');
    v.push('"');
    v.push(':');
    assert(v@ =~= iat_key());
    v
}

/// Whether `lit` stands in `text` from position `at` on.
pub(crate) fn stands_at(text: &Vec<char>, at: usize, lit: &Vec<char>) -> (r: bool)
    ensures
        r == (at + lit@.len() <= text@.len() && text@.subrange(at as int, at + lit@.len()) == lit@),
{
    let n = text.len();
    if at > n || lit.len() > n - at {
        return false;
    }
    let mut i: usize = 0;
    while i < lit.len()
        invariant
            n == text@.len(),
            at + lit@.len() <= text@.len(),
            i <= lit@.len(),
            forall|j: int| 0 <= j < i ==> text@[at + j] == lit@[j],
        decreases lit.len() - i,
    {
        if text[at + i] != lit[i] {
            assert(text@.subrange(at as int, at + lit@.len())[i as int] != lit@[i as int]);
            return false;
        }
        i = i + 1;
    }
    assert(text@.subrange(at as int, at + lit@.len()) =~= lit@);
    true
}

/// The first position at or after `from` that holds `c`.
fn find_char(text: &Vec<char>, from: usize, c: char) -> (r: Option<usize>)
    requires
        from <= text@.len(),
    ensures
        r matches Some(k) ==> from <= k < text@.len() && text@[k as int] == c && forall|j: int|
            from <= j < k ==> text@[j] != c,
        r is None ==> forall|j: int| from <= j < text@.len() ==> text@[j] != c,
{
    let mut i: usize = from;
    while i < text.len()
        invariant
            from <= i <= text@.len(),
            forall|j: int| from <= j < i ==> text@[j] != c,
        decreases text.len() - i,
    {
        if text[i] == c {
            return Some(i);
        }
        i = i + 1;
    }
    None
}

pub(crate) fn copy_range(text: &Vec<char>, a: usize, b: usize) -> (r: Vec<char>)
    requires
        a <= b <= text@.len(),
    ensures
        r@ == text@.subrange(a as int, b as int),
{
    let mut out: Vec<char> = Vec::new();
    let mut i: usize = a;
    while i < b
        invariant
            a <= i <= b <= text@.len(),
            out@ == text@.subrange(a as int, i as int),
        decreases b - i,
    {
        out.push(text[i]);
        i = i + 1;
        assert(out@ =~= text@.subrange(a as int, i as int));
    }
    out
}

fn same_chars(a: &Vec<char>, b: &Vec<char>) -> (r: bool)
    ensures
        r == (a@ == b@),
{
    if a.len() != b.len() {
        return false;
    }
    let mut i: usize = 0;
    while i < a.len()
        invariant
            a@.len() == b@.len(),
            i <= a@.len(),
            forall|j: int| 0 <= j < i ==> a@[j] == b@[j],
        decreases a.len() - i,
    {
        if a[i] != b[i] {
            return false;
        }
        i = i + 1;
    }
    assert(a@ =~= b@);
    true
}

fn all_plain(s: &Vec<char>) -> (r: bool)
    ensures
        r == forall|i: int| 0 <= i < s@.len() ==> json_plain_char(#[trigger] s@[i]),
{
    let mut i: usize = 0;
    while i < s.len()
        invariant
            i <= s@.len(),
            forall|j: int| 0 <= j < i ==> json_plain_char(#[trigger] s@[j]),
        decreases s.len() - i,
    {
        let c = s[i];
        if c == '"' || c == '\u{5c}' || !(' ' <= c) {
            return false;
        }
        i = i + 1;
    }
    true
}

impl Claims {
    /// Claims for `user_id` issued at `now`, expiring `expiration` seconds later.
    pub fn new(user_id: u128, now: i64, expiration: i64) -> (r: Claims)
        requires
            i64::MIN <= now + expiration <= i64::MAX,
        ensures
            r@ == issued_claims(user_id, now, expiration),
            claims_ok(r@),
    {
        Claims { sub: uuid_text(user_id), exp: now + expiration, iat: now }
    }

    fn payload_chars(&self) -> (r: Vec<char>)
        ensures
            r@ == payload_of(self@),
    {
        let mut out = sub_key_chars();
        let mut sub = chars_of(self.sub.as_str());
        out.append(&mut sub);
        let mut key = exp_key_chars();
        out.append(&mut key);
        push_decimal(&mut out, self.exp);
        let mut key = iat_key_chars();
        out.append(&mut key);
        push_decimal(&mut out, self.iat);
        out.push('}');
        assert(out@ =~= payload_of(self@));
        out
    }

    /// The claims text of these claims.
    pub fn payload(&self) -> (r: String)
        ensures
            r@ == payload_of(self@),
    {
        let chars = self.payload_chars();
        string_from_chars(&chars)
    }

    /// Reads claims back from a claims text: `Some` exactly when `text` is the
    /// claims text of claims whose subject needs no escaping.
    #[verifier::rlimit(50)]
    pub fn from_payload(text: &str) -> (r: Option<Claims>)
        ensures
            r matches Some(c) ==> claims_ok(c@) && payload_of(c@) == text@,
            forall|v: ClaimsView| claims_ok(v) && payload_of(v) == text@ ==> (r matches Some(c)
                && c@ == v),
    {
        let t = chars_of(text);
        let n = t.len();
        let ghost tv = t@;
        let pre = sub_key_chars();
        let mid = exp_key_chars();
        let tail = iat_key_chars();
        proof {
            assert forall|v: ClaimsView| claims_ok(v) && #[trigger] payload_of(v) == tv implies ({
                let l = v.sub.len() as int;
                let e = int_text(v.exp as int);
                let el = e.len() as int;
                let i = int_text(v.iat as int);
                let il = i.len() as int;
                &&& tv.subrange(0, 8) == sub_key()
                &&& tv.subrange(8, 8 + l) == v.sub
                &&& tv[8 + l] == '"'
                &&& (forall|j: int| 8 <= j < 8 + l ==> tv[j] != '"')
                &&& tv.subrange(8 + l, 16 + l) == exp_key()
                &&& tv.subrange(16 + l, 16 + l + el) == e
                &&& tv[16 + l + el] == ','
                &&& (forall|j: int| 16 + l <= j < 16 + l + el ==> tv[j] != ',')
                &&& tv.subrange(16 + l + el, 23 + l + el) == iat_key()
                &&& tv.subrange(23 + l + el, tv.len() - 1) == i
                &&& tv.len() == 24 + l + el + il
                &&& tv[tv.len() - 1] == '}'
            }) by {
                let l = v.sub.len() as int;
                let e = int_text(v.exp as int);
                let el = e.len() as int;
                let i = int_text(v.iat as int);
                let il = i.len() as int;
                lemma_int_text_chars(v.exp as int);
                lemma_int_text_chars(v.iat as int);
                assert(tv.subrange(0, 8) =~= sub_key());
                assert(tv.subrange(8, 8 + l) =~= v.sub);
                assert(tv.subrange(8 + l, 16 + l) =~= exp_key());
                assert(tv.subrange(16 + l, 16 + l + el) =~= e);
                assert(tv.subrange(16 + l + el, 23 + l + el) =~= iat_key());
                assert(tv.subrange(23 + l + el, tv.len() - 1) =~= i);
                assert forall|j: int| 8 <= j < 8 + l implies tv[j] != '"' by {
                    assert(tv[j] == v.sub[j - 8]);
                    assert(json_plain_char(v.sub[j - 8]));
                }
                assert forall|j: int| 16 + l <= j < 16 + l + el implies tv[j] != ',' by {
                    assert(tv[j] == e[j - 16 - l]);
                }
            }
        }
        if !stands_at(&t, 0, &pre) {
            return None;
        }
        let k = match find_char(&t, 8, '"') {
            Some(k) => k,
            None => {
                return None;
            },
        };
        proof {
            assert forall|v: ClaimsView| claims_ok(v) && #[trigger] payload_of(v) == tv implies k == 8 + v.sub.len() by {
                if k < 8 + v.sub.len() {
                } else if k > 8 + v.sub.len() {
                    assert(tv[8 + v.sub.len() as int] == '"');
                }
            }
        }
        if !stands_at(&t, k, &mid) {
            return None;
        }
        let e_start = k + 8;
        let m = match find_char(&t, e_start, ',') {
            Some(m) => m,
            None => {
                return None;
            },
        };
        proof {
            assert forall|v: ClaimsView| claims_ok(v) && #[trigger] payload_of(v) == tv implies m == e_start + int_text(
                v.exp as int,
            ).len() by {
                let bound = e_start + int_text(v.exp as int).len();
                if m > bound {
                    assert(tv[bound] == ',');
                }
            }
        }
        let exp = match parse_decimal(&t, e_start, m) {
            Some(x) => x,
            None => {
                return None;
            },
        };
        if !stands_at(&t, m, &tail) {
            return None;
        }
        if n - m < 8 || t[n - 1] != '}' {
            return None;
        }
        let iat = match parse_decimal(&t, m + 7, n - 1) {
            Some(x) => x,
            None => {
                return None;
            },
        };
        let sub_chars = copy_range(&t, 8, k);
        if !all_plain(&sub_chars) {
            return None;
        }
        let claims = Claims { sub: string_from_chars(&sub_chars), exp, iat };
        proof {
            assert forall|v: ClaimsView| claims_ok(v) && #[trigger] payload_of(v) == tv implies claims@ == v by {
                assert(claims@.sub =~= v.sub);
            }
        }
        let written = claims.payload_chars();
        if !same_chars(&written, &t) {
            return None;
        }
        Some(claims)
    }

    /// Signs these claims with `secret`.
    pub fn encode(&self, secret: &str) -> (r: Result<String, AuthError>)
        ensures
            r matches Ok(t) ==> t@ == jwt_signed(payload_of(self@), secret@),
            r matches Err(e) ==> e == AuthError::SigningError,
            claims_ok(self@) ==> r is Ok,
    {
        let payload = self.payload();
        jwt_sign(payload.as_str(), secret)
    }

    /// Checks the signature of `token` under `secret` and reads its claims,
    /// without looking at the expiry.
    pub fn decode(token: &str, secret: &str) -> (r: Result<Claims, AuthError>)
        ensures
            claims_result(r) == decode_outcome(token@, secret@),
            r matches Err(e) ==> e == AuthError::MalformedToken || e == AuthError::UnsupportedAlgorithm,
            forall|v: ClaimsView| claims_ok(v) && #[trigger] jwt_signed(payload_of(v), secret@)
                == token@ ==> claims_result(r) == Ok::<ClaimsView, AuthError>(v),
    {
        match jwt_open(token, secret) {
            Err(e) => Err(e),
            Ok(text) => {
                let parsed = Claims::from_payload(text.as_str());
                proof {
                    if let Some(ref c) = parsed {
                        let w = choose|w: ClaimsView| claims_ok(w) && payload_of(w) == text@;
                        assert(claims_ok(c@) && payload_of(c@) == text@);
                        assert(decoded_claims(text@) == Some(w));
                    }
                }
                match parsed {
                    Some(c) => Ok(c),
                    None => Err(AuthError::MalformedToken),
                }
            },
        }
    }
}

/// The claims issued to `subject` at `now` for `ttl` seconds.
pub open spec fn issued_claims(subject: u128, now: i64, ttl: i64) -> ClaimsView {
    ClaimsView { sub: uuid_text_of(subject), exp: (now + ttl) as i64, iat: now }
}

/// The claims issued for any identifier can be written without escaping, so
/// every token that `issue` or `create_token` signs reads back through
/// `validate_token`.
pub proof fn lemma_issued_claims_ok(id: u128, now: i64, ttl: i64)
    ensures
        claims_ok(issued_claims(id, now, ttl)),
{
}

/// The view of a decoding result.
pub open spec fn claims_result(r: Result<Claims, AuthError>) -> Result<ClaimsView, AuthError> {
    match r {
        Ok(c) => Ok(c@),
        Err(e) => Err(e),
    }
}

/// What decoding `token` under `secret` gives, before the expiry check.
pub open spec fn decode_outcome(token: Seq<char>, secret: Seq<char>) -> Result<ClaimsView, AuthError> {
    match jwt_opened(token, secret) {
        Err(e) => Err(e),
        Ok(text) => match decoded_claims(text) {
            Some(v) => Ok(v),
            None => Err(AuthError::MalformedToken),
        },
    }
}

/// What validating `token` under `secret` at time `now` gives: its claims
/// while their expiry is after `now`.
pub open spec fn validation_outcome(token: Seq<char>, secret: Seq<char>, now: i64) -> Result<
    ClaimsView,
    AuthError,
> {
    match decode_outcome(token, secret) {
        Err(e) => Err(e),
        Ok(v) => if v.exp > now {
            Ok(v)
        } else {
            Err(AuthError::ExpiredToken)
        },
    }
}

/// Checks `token` under `secret` at time `now`: the signature must hold and
/// the expiry must be after `now`, with no leeway.
pub fn validate_token(token: &str, jwt_secret: &str, now: i64) -> (r: Result<Claims, AuthError>)
    ensures
        claims_result(r) == validation_outcome(token@, jwt_secret@, now),
        r matches Err(e) ==> e == AuthError::MalformedToken || e == AuthError::UnsupportedAlgorithm || e
            == AuthError::ExpiredToken,
        forall|v: ClaimsView| claims_ok(v) && #[trigger] jwt_signed(payload_of(v), jwt_secret@)
            == token@ ==> claims_result(r) == (if v.exp > now {
            Ok::<ClaimsView, AuthError>(v)
        } else {
            Err::<ClaimsView, AuthError>(AuthError::ExpiredToken)
        }),
{
    let claims = Claims::decode(token, jwt_secret)?;
    if claims.exp > now {
        Ok(claims)
    } else {
        Err(AuthError::ExpiredToken)
    }
}

/// Two successful checks of one token, at any two times, yield the same claims:
/// validation reads the token and changes nothing.
pub proof fn lemma_validation_repeatable(token: Seq<char>, secret: Seq<char>, now1: i64, now2: i64)
    ensures
        validation_outcome(token, secret, now1) is Ok && validation_outcome(token, secret, now2) is Ok
            ==> validation_outcome(token, secret, now1) == validation_outcome(token, secret, now2),
{
}

/// Relies on chrono's `Utc::now().timestamp()`: the current time in Unix
/// seconds. Nothing is assumed of its value.
#[verifier::external_body]
pub(crate) fn current_unix_time() -> (r: i64) {
    chrono::Utc::now().timestamp()
}

/// Issues a token with the default lifetime for the principal whose
/// identifier `user_id` writes (any form uuid reads), at the current time.
/// The email and role play no part in the token.
pub fn create_token(user_id: &str, _email: &str, _role: &str, jwt_secret: &str) -> (r: Result<
    TokenResponse,
    AuthError,
>)
    ensures
        uuid_parse_of(user_id@) is None ==> r == Err::<TokenResponse, AuthError>(AuthError::InvalidId),
        uuid_parse_of(user_id@) matches Some(id) ==> issued_now(r, id, DEFAULT_TOKEN_TTL, jwt_secret@),
{
    let id = match uuid_parse(user_id) {
        Some(id) => id,
        None => {
            return Err(AuthError::InvalidId);
        },
    };
    let now = current_unix_time();
    if now > i64::MAX - DEFAULT_TOKEN_TTL {
        return Err(AuthError::SigningError);
    }
    let r = issue(id, now, DEFAULT_TOKEN_TTL, jwt_secret);
    proof {
        if let Ok(ref t) = r {
            assert(token_issued(*t, id, now, DEFAULT_TOKEN_TTL, jwt_secret@));
        }
    }
    r
}

/// `t` is the token issued for `id` at `now` with lifetime `ttl` under `secret`.
pub open spec fn token_issued(t: TokenResponse, id: u128, now: i64, ttl: i64, secret: Seq<char>) -> bool {
    &&& t.access_token@ == jwt_signed(payload_of(issued_claims(id, now, ttl)), secret)
    &&& t.expires_in == ttl
    &&& t.token_type@ == seq!['B', 'e', 'a', 'r', 'e', 'r']
}

/// `r` is the token issued for `id` with lifetime `ttl` under `secret` at the
/// time the clock read, or `SigningError` when that time plus `ttl` does not
/// fit an `i64`.
pub open spec fn issued_now(r: Result<TokenResponse, AuthError>, id: u128, ttl: i64, secret: Seq<char>) -> bool {
    match r {
        Ok(t) => exists|now: i64| #[trigger] token_issued(t, id, now, ttl, secret),
        Err(e) => e == AuthError::SigningError,
    }
}

/// The scheme label of every issued token.
pub fn bearer_label() -> (r: String)
    ensures
        r@ == seq!['B', 'e', 'a', 'r', 'e', 'r'],
{
    let mut v: Vec<char> = Vec::new();
    v.push('B');
    v.push('e');
    v.push('a');
    v.push('r');
    v.push('e');
    v.push('r');
    assert(v@ =~= seq!['B', 'e', 'a', 'r', 'e', 'r']);
    string_from_chars(&v)
}

/// Issues a token for `subject` at `now`, valid for `ttl` seconds.
pub fn issue(subject: u128, now: i64, ttl: i64, jwt_secret: &str) -> (r: Result<TokenResponse, AuthError>)
    requires
        i64::MIN <= now + ttl <= i64::MAX,
    ensures
        r matches Ok(t) ==> t.access_token@ == jwt_signed(
            payload_of(issued_claims(subject, now, ttl)),
            jwt_secret@,
        ) && t.expires_in == ttl && t.token_type@ == seq!['B', 'e', 'a', 'r', 'e', 'r'],
        r is Ok,
        claims_ok(issued_claims(subject, now, ttl)),
{
    let claims = Claims::new(subject, now, ttl);
    let access_token = claims.encode(jwt_secret)?;
    Ok(TokenResponse { access_token, token_type: bearer_label(), expires_in: ttl })
}

} // verus!
