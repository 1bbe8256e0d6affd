//! Reading claims out of JWTs without checking their signature: the ChatGPT identity,
//! e-mail, plan, subscription end and token expiry.

use vstd::prelude::*;

use base64::Engine as _;

use crate::text::{chars_of, spec_trim, str_eq, string_from_chars, trim};

verus! {

/// Claims this library reads from a JWT payload. A field is `None` when the payload has no
/// such claim of the expected JSON type (or the payload is not a JSON object).
#[derive(Debug, Clone)]
pub struct JwtClaims {
    /// `email` (a string)
    pub email: Option<String>,
    /// `https://api.openai.com/auth` → `chatgpt_plan_type` (a string)
    pub plan_type: Option<String>,
    /// `https://api.openai.com/auth` → `chatgpt_account_id` (a string)
    pub account_id: Option<String>,
    /// `https://api.openai.com/auth` → `chatgpt_subscription_active_until` (a string)
    pub subscription_active_until: Option<String>,
    /// `exp` (an integer that fits in `i64`)
    pub exp: Option<i64>,
}

/// Name for what the `base64` crate's `URL_SAFE_NO_PAD` engine decodes a text to.
pub uninterp spec fn spec_base64_url_decode(text: Seq<char>) -> Option<Seq<u8>>;

/// Name for the text the `base64` crate's `URL_SAFE_NO_PAD` engine encodes bytes to.
pub uninterp spec fn spec_base64_url_encode(bytes: Seq<u8>) -> Seq<char>;

/// Name for the claims that `serde_json` finds in a JWT payload; `None` when the bytes are
/// not JSON.
pub uninterp spec fn spec_jwt_claims(payload: Seq<u8>) -> Option<JwtClaims>;

/// Name for `chrono::DateTime::parse_from_rfc3339` of a text, converted to UTC and rendered
/// with `to_rfc3339`; `None` when the text is not RFC 3339.
pub uninterp spec fn spec_rfc3339_utc(text: Seq<char>) -> Option<Seq<char>>;

/// `base64::engine::general_purpose::URL_SAFE_NO_PAD.decode`. The result is named (the round
/// trip with the encoder is stated at `base64_url_encode`).
#[verifier::external_body]
pub fn base64_url_decode(text: &str) -> (r: Option<Vec<u8>>)
    ensures
        opt_bytes(r) == spec_base64_url_decode(text@),
{
    base64::engine::general_purpose::URL_SAFE_NO_PAD.decode(text).ok()
}

/// A character of the URL-safe base64 alphabet.
pub open spec fn spec_is_url_safe_b64(c: char) -> bool {
    ('A' <= c && c <= 'Z') || ('a' <= c && c <= 'z') || ('0' <= c && c <= '9') || c == '-' || c
        == '_'
}

/// `base64::engine::general_purpose::URL_SAFE_NO_PAD.encode`; the result is named. Its
/// characters come from the engine's alphabet (`alphabet::URL_SAFE`), with no padding, and the
/// same engine decodes the text back to the bytes.
#[verifier::external_body]
pub fn base64_url_encode(bytes: &[u8]) -> (r: String)
    ensures
        r@ == spec_base64_url_encode(bytes@),
        spec_base64_url_decode(r@) == Some(bytes@),
        forall|i: int| 0 <= i < r@.len() ==> spec_is_url_safe_b64(#[trigger] r@[i]),
{
    base64::engine::general_purpose::URL_SAFE_NO_PAD.encode(bytes)
}

pub open spec fn opt_bytes(r: Option<Vec<u8>>) -> Option<Seq<u8>> {
    match r {
        Some(v) => Some(v@),
        None => None,
    }
}

/// `serde_json::from_slice::<serde_json::Value>` of a JWT payload, then the claims above picked
/// out with `Value::get`, `as_str` and `as_i64`. The result is named.
#[verifier::external_body]
fn decode_jwt_claims(payload: &[u8]) -> (r: Option<JwtClaims>)
    ensures
        r == spec_jwt_claims(payload@),
{
    let json: serde_json::Value = serde_json::from_slice(payload).ok()?;
    let auth = json.get("https://api.openai.com/auth");
    let text = |v: Option<&serde_json::Value>| v.and_then(|v| v.as_str()).map(String::from);
    Some(JwtClaims {
        email: text(json.get("email")),
        plan_type: text(auth.and_then(|a| a.get("chatgpt_plan_type"))),
        account_id: text(auth.and_then(|a| a.get("chatgpt_account_id"))),
        subscription_active_until: text(auth.and_then(|a| a.get("chatgpt_subscription_active_until"))),
        exp: json.get("exp").and_then(|v| v.as_i64()),
    })
}

/// `chrono::DateTime::parse_from_rfc3339`, converted to `Utc` and rendered with `to_rfc3339`.
/// The result is named.
#[verifier::external_body]
pub(crate) fn rfc3339_utc(text: &str) -> (r: Option<String>)
    ensures
        opt_view(r) == spec_rfc3339_utc(text@),
{
    chrono::DateTime::parse_from_rfc3339(text).ok().map(
        |v| v.with_timezone(&chrono::Utc).to_rfc3339(),
    )
}

pub open spec fn opt_view(s: Option<String>) -> Option<Seq<char>> {
    crate::types::opt_view(s)
}

/// Index of the first `c` at or after `from` (or the length when there is none).
pub open spec fn spec_find_from(s: Seq<char>, c: char, from: int) -> int
    decreases s.len() - from,
{
    if from >= s.len() {
        s.len() as int
    } else if s[from] == c {
        from
    } else {
        spec_find_from(s, c, from + 1)
    }
}

pub proof fn lemma_find_from(s: Seq<char>, c: char, from: int)
    requires
        0 <= from,
    ensures
        from <= spec_find_from(s, c, from) || (from > s.len() && spec_find_from(s, c, from)
            == s.len()),
        spec_find_from(s, c, from) <= s.len(),
        spec_find_from(s, c, from) < s.len() ==> s[spec_find_from(s, c, from)] == c,
        forall|k: int| from <= k < spec_find_from(s, c, from) ==> s[k] != c,
    decreases s.len() - from,
{
    if from < s.len() && s[from] != c {
        lemma_find_from(s, c, from + 1);
    }
}

pub fn find_from(s: &[char], c: char, from: usize) -> (r: usize)
    requires
        from <= s.len(),
    ensures
        r as int == spec_find_from(s@, c, from as int),
{
    proof {
        lemma_find_from(s@, c, from as int);
    }
    let mut i = from;
    while i < s.len() && s[i] != c
        invariant
            from <= i <= s.len(),
            spec_find_from(s@, c, i as int) == spec_find_from(s@, c, from as int),
        decreases s.len() - i,
    {
        i += 1;
    }
    i
}

/// The payload segment of a JWT: `header.payload.signature` with exactly three `.`-separated
/// parts (as `str::split('.')` yields them).
pub open spec fn spec_jwt_payload_segment(token: Seq<char>) -> Option<Seq<char>> {
    let i = spec_find_from(token, '.', 0);
    let j = spec_find_from(token, '.', i + 1);
    let k = spec_find_from(token, '.', j + 1);
    if i < token.len() && j < token.len() && k == token.len() {
        Some(token.subrange(i + 1, j))
    } else {
        None
    }
}

/// The claims of a JWT: split into three parts, base64url-decode the payload, read it as JSON.
pub open spec fn spec_parse_jwt(token: Seq<char>) -> Option<JwtClaims> {
    match spec_jwt_payload_segment(token) {
        Some(seg) => match spec_base64_url_decode(seg) {
            Some(bytes) => spec_jwt_claims(bytes),
            None => None,
        },
        None => None,
    }
}

pub fn jwt_payload_segment(token: &str) -> (r: Option<String>)
    ensures
        opt_view(r) == spec_jwt_payload_segment(token@),
{
    let v = chars_of(token);
    proof {
        lemma_find_from(v@, '.', 0);
    }
    let i = find_from(v.as_slice(), '.', 0);
    if i >= v.len() {
        return None;
    }
    proof {
        lemma_find_from(v@, '.', i + 1);
    }
    let j = find_from(v.as_slice(), '.', i + 1);
    if j >= v.len() {
        return None;
    }
    proof {
        lemma_find_from(v@, '.', j + 1);
    }
    let k = find_from(v.as_slice(), '.', j + 1);
    if k != v.len() {
        return None;
    }
    Some(string_from_chars(&v.as_slice()[i + 1..j]))
}

/// The claims of a JWT payload, without verifying its signature.
pub fn parse_jwt_payload(token: &str) -> (r: Option<JwtClaims>)
    ensures
        r == spec_parse_jwt(token@),
{
    let seg = jwt_payload_segment(token);
    match seg {
        Some(seg) => match base64_url_decode(seg.as_str()) {
            Some(bytes) => decode_jwt_claims(bytes.as_slice()),
            None => None,
        },
        None => None,
    }
}

/// The JWT payload decodes to JSON.
pub fn jwt_payload_is_json(token: &str) -> (r: bool)
    ensures
        r == spec_parse_jwt(token@) is Some,
{
    parse_jwt_payload(token).is_some()
}

pub open spec fn spec_jwt_expiration(token: Seq<char>) -> Option<i64> {
    match spec_parse_jwt(token) {
        Some(c) => c.exp,
        None => None,
    }
}

/// The `exp` claim of a JWT.
pub fn jwt_expiration(token: &str) -> (r: Option<i64>)
    ensures
        r == spec_jwt_expiration(token@),
{
    match parse_jwt_payload(token) {
        Some(c) => c.exp,
        None => None,
    }
}

/// Seconds of slack before expiry at which an access token is refreshed.
pub const EXPIRY_SKEW_SECONDS: i64 = 60;

/// An access token needs a refresh: its expiry is unknown, or it expires within the skew of `now`.
pub open spec fn spec_token_expired_or_near_expiry(token: Seq<char>, now: i64) -> bool {
    match spec_jwt_expiration(token) {
        Some(exp) => exp <= now + EXPIRY_SKEW_SECONDS,
        None => true,
    }
}

pub fn token_expired_or_near_expiry_at(access_token: &str, now: i64) -> (r: bool)
    ensures
        r == spec_token_expired_or_near_expiry(access_token@, now),
{
    match jwt_expiration(access_token) {
        Some(exp) => {
            if now > i64::MAX - EXPIRY_SKEW_SECONDS {
                true
            } else {
                exp <= now + EXPIRY_SKEW_SECONDS
            }
        },
        None => true,
    }
}

/// `chrono::Utc::now().timestamp()`. The value depends on the clock: nothing is promised of it.
#[verifier::external_body]
fn now_unix_seconds() -> i64 {
    chrono::Utc::now().timestamp()
}

/// An access token needs a refresh now. Whatever the clock reads, an access token without a
/// readable expiry always needs one.
pub fn token_expired_or_near_expiry(access_token: &str) -> (r: bool)
    ensures
        spec_jwt_expiration(access_token@) is None ==> r,
        exists|now: i64| r == spec_token_expired_or_near_expiry(access_token@, now),
{
    let now = now_unix_seconds();
    token_expired_or_near_expiry_at(access_token, now)
}

/// E-mail, plan and account id claims of an ID token.
pub struct ChatGptIdTokenMetadata {
    pub email: Option<String>,
    pub plan_type: Option<String>,
    pub account_id: Option<String>,
    pub subscription_active_until: Option<String>,
}

pub open spec fn spec_claim_email(token: Seq<char>) -> Option<String> {
    match spec_parse_jwt(token) {
        Some(c) => c.email,
        None => None,
    }
}

pub open spec fn spec_claim_plan_type(token: Seq<char>) -> Option<String> {
    match spec_parse_jwt(token) {
        Some(c) => c.plan_type,
        None => None,
    }
}

pub open spec fn spec_claim_account_id(token: Seq<char>) -> Option<String> {
    match spec_parse_jwt(token) {
        Some(c) => c.account_id,
        None => None,
    }
}

pub open spec fn spec_subscription_active_until(token: Seq<char>) -> Option<Seq<char>> {
    match spec_parse_jwt(token) {
        Some(c) => match c.subscription_active_until {
            Some(s) => spec_rfc3339_utc(s@),
            None => None,
        },
        None => None,
    }
}

pub fn parse_id_token_metadata(id_token: &str) -> (r: ChatGptIdTokenMetadata)
    ensures
        r.email == spec_claim_email(id_token@),
        r.plan_type == spec_claim_plan_type(id_token@),
        r.account_id == spec_claim_account_id(id_token@),
        opt_view(r.subscription_active_until) == spec_subscription_active_until(id_token@),
{
    match parse_jwt_payload(id_token) {
        Some(c) => {
            let until = match &c.subscription_active_until {
                Some(s) => rfc3339_utc(s.as_str()),
                None => None,
            };
            ChatGptIdTokenMetadata {
                email: c.email,
                plan_type: c.plan_type,
                account_id: c.account_id,
                subscription_active_until: until,
            }
        },
        None => ChatGptIdTokenMetadata {
            email: None,
            plan_type: None,
            account_id: None,
            subscription_active_until: None,
        },
    }
}

/// E-mail and plan claims of an ID token, without validating its signature.
pub fn parse_id_token_claims(id_token: &str) -> (r: (Option<String>, Option<String>))
    ensures
        r.0 == spec_claim_email(id_token@),
        r.1 == spec_claim_plan_type(id_token@),
{
    let m = parse_id_token_metadata(id_token);
    (m.email, m.plan_type)
}

/// The ChatGPT account identity embedded in an ID token.
pub fn parse_id_token_account_id(id_token: &str) -> (r: Option<String>)
    ensures
        r == spec_claim_account_id(id_token@),
{
    parse_id_token_metadata(id_token).account_id
}

/// The end of the current ChatGPT subscription entitlement, in UTC RFC 3339.
pub fn parse_id_token_subscription_active_until(id_token: &str) -> (r: Option<String>)
    ensures
        opt_view(r) == spec_subscription_active_until(id_token@),
{
    parse_id_token_metadata(id_token).subscription_active_until
}

/// A trimmed, non-empty account id, or nothing.
pub open spec fn spec_nonblank_trimmed(s: Option<Seq<char>>) -> Option<Seq<char>> {
    match s {
        Some(v) => if spec_trim(v).len() > 0 {
            Some(spec_trim(v))
        } else {
            None
        },
        None => None,
    }
}

/// The account's stable ChatGPT identity: the explicit id or the one embedded in the ID token,
/// both trimmed and non-empty. `Err` when both are present and differ.
pub open spec fn spec_resolved_account_id(explicit: Option<Seq<char>>, id_token: Seq<char>) -> Result<
    Option<Seq<char>>,
    (),
> {
    let e = spec_nonblank_trimmed(explicit);
    let m = spec_nonblank_trimmed(opt_view(spec_claim_account_id(id_token)));
    match (e, m) {
        (Some(x), Some(y)) => if x != y {
            Err(())
        } else {
            Ok(Some(x))
        },
        (Some(x), None) => Ok(Some(x)),
        (None, Some(y)) => Ok(Some(y)),
        (None, None) => Ok(None),
    }
}

/// The explicit and the embedded ChatGPT account ids conflict.
#[derive(Debug, Clone, Copy, PartialEq, Eq, Structural)]
pub struct ConflictingAccountIds;

pub open spec fn opt_str_view(s: Option<&str>) -> Option<Seq<char>> {
    match s {
        Some(v) => Some(v@),
        None => None,
    }
}

fn nonblank_trimmed(s: Option<&str>) -> (r: Option<String>)
    ensures
        opt_view(r) == spec_nonblank_trimmed(opt_str_view(s)),
{
    match s {
        Some(v) => {
            let t = trim(v);
            if t.as_str().is_empty() {
                None
            } else {
                Some(t)
            }
        },
        None => None,
    }
}

/// The stable ChatGPT account identity of a credential bundle (see `spec_resolved_account_id`).
pub fn resolved_chatgpt_account_id(explicit_account_id: Option<&str>, id_token: &str) -> (r: Result<
    Option<String>,
    ConflictingAccountIds,
>)
    ensures
        match r {
            Ok(v) => spec_resolved_account_id(opt_str_view(explicit_account_id), id_token@) == Ok::<
                Option<Seq<char>>,
                (),
            >(opt_view(v)),
            Err(_) => spec_resolved_account_id(opt_str_view(explicit_account_id), id_token@)
                is Err,
        },
{
    let explicit = nonblank_trimmed(explicit_account_id);
    let embedded_raw = parse_id_token_account_id(id_token);
    let embedded = match &embedded_raw {
        Some(s) => nonblank_trimmed(Some(s.as_str())),
        None => nonblank_trimmed(None),
    };
    match (explicit, embedded) {
        (Some(x), Some(y)) => {
            if !str_eq(x.as_str(), y.as_str()) {
                Err(ConflictingAccountIds)
            } else {
                Ok(Some(x))
            }
        },
        (Some(x), None) => Ok(Some(x)),
        (None, Some(y)) => Ok(Some(y)),
        (None, None) => Ok(None),
    }
}

} // verus!
