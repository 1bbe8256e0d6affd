//! The ChatGPT OAuth login flow: PKCE codes, the authorization URL, what the local callback
//! server does with each request it receives, and the bookkeeping of cancellation flags.
//! Serving HTTP and calling the token endpoint is the caller's part.

use vstd::prelude::*;

use crate::backup::random_bytes;
use crate::digest::{sha256, spec_sha256};
use crate::jwt::{base64_url_encode, parse_id_token_account_id, parse_id_token_claims, spec_base64_url_encode,
    spec_claim_account_id, spec_claim_email, spec_claim_plan_type};
use crate::text::{chars_of, concat_chars, decimal_chars, spec_decimal, str_eq, string_from_chars};
use crate::types::{AuthData, AuthMode, StoredAccount};

verus! {

/// The OAuth issuer.
pub const DEFAULT_ISSUER: &'static str = "https://auth.openai.com";

/// The OAuth client id of the Codex CLI.
pub const CLIENT_ID: &'static str = "app_EMoamEEZ73f0CkXaXp7hrann";

/// The callback port tried first (the one the Codex CLI uses).
pub const DEFAULT_PORT: u16 = 1455;

/// PKCE codes for OAuth.
#[derive(Debug, Clone)]
pub struct PkceCodes {
    pub code_verifier: String,
    pub code_challenge: String,
}

/// A byte that `urlencoding` leaves as it is: ASCII letters, digits and `-`, `.`, `_`, `~`.
pub open spec fn spec_is_unreserved(b: u8) -> bool {
    (48 <= b && b <= 57) || (65 <= b && b <= 90) || (97 <= b && b <= 122) || b == 45 || b == 46
        || b == 95 || b == 126
}

/// An upper-case hexadecimal digit.
pub open spec fn spec_upper_hex(n: u8) -> char {
    if n < 10 {
        ((48 + n) as u8) as char
    } else {
        ((55 + n) as u8) as char
    }
}

/// Percent-encoding of bytes: unreserved bytes as they are, every other byte as `%` and two
/// upper-case hexadecimal digits.
pub open spec fn spec_percent_encode(bytes: Seq<u8>) -> Seq<char>
    decreases bytes.len(),
{
    if bytes.len() == 0 {
        Seq::empty()
    } else {
        let b = bytes.last();
        spec_percent_encode(bytes.drop_last()) + if spec_is_unreserved(b) {
            seq![b as char]
        } else {
            seq!['%', spec_upper_hex(b / 16), spec_upper_hex(b % 16)]
        }
    }
}

/// `urlencoding::encode`: the UTF-8 bytes of the text, percent-encoded (see
/// `spec_percent_encode`; the crate documents "percent-encodes every byte except alphanumerics and
/// `-`, `_`, `.`, `~`", and its `to_hex_digit` gives upper-case digits).
#[verifier::external_body]
pub(crate) fn url_encode(text: &str) -> (r: String)
    ensures
        r@ == spec_percent_encode(vstd::utf8::encode_utf8(text@)),
{
    urlencoding::encode(text).into_owned()
}

/// `key=value` pairs, values percent-encoded, joined by `&`.
pub open spec fn spec_query(pairs: Seq<(Seq<char>, Seq<char>)>) -> Seq<char>
    decreases pairs.len(),
{
    if pairs.len() == 0 {
        Seq::empty()
    } else {
        let last = pairs.last();
        let item = last.0 + "="@ + spec_percent_encode(vstd::utf8::encode_utf8(last.1));
        if pairs.len() == 1 {
            item
        } else {
            spec_query(pairs.drop_last()) + "&"@ + item
        }
    }
}

pub open spec fn pair_views(pairs: Seq<(String, String)>) -> Seq<(Seq<char>, Seq<char>)> {
    pairs.map_values(|p: (String, String)| (p.0@, p.1@))
}

pub(crate) fn query_string(pairs: &Vec<(String, String)>) -> (r: Vec<char>)
    ensures
        r@ == spec_query(pair_views(pairs@)),
{
    let mut out: Vec<char> = Vec::new();
    let eq = chars_of("=");
    let amp = chars_of("&");
    let ghost pv = pair_views(pairs@);
    let mut i: usize = 0;
    assert(pv.take(0) =~= Seq::<(Seq<char>, Seq<char>)>::empty());
    while i < pairs.len()
        invariant
            i <= pairs@.len(),
            pv == pair_views(pairs@),
            eq@ == "="@,
            amp@ == "&"@,
            out@ == spec_query(pv.take(i as int)),
        decreases pairs@.len() - i,
    {
        assert(pv.take(i + 1).drop_last() =~= pv.take(i as int));
        assert(pv.take(i + 1).last() == (pairs@[i as int].0@, pairs@[i as int].1@));
        let key = chars_of(pairs[i].0.as_str());
        let value = url_encode(pairs[i].1.as_str());
        let value_chars = chars_of(value.as_str());
        let head = concat_chars(key.as_slice(), eq.as_slice());
        let item = concat_chars(head.as_slice(), value_chars.as_slice());
        if i == 0 {
            out = item;
        } else {
            let joined = concat_chars(out.as_slice(), amp.as_slice());
            out = concat_chars(joined.as_slice(), item.as_slice());
        }
        i += 1;
    }
    assert(pv.take(i as int) =~= pv);
    out
}

pub(crate) fn pair(k: &str, v: &str) -> (r: (String, String))
    ensures
        r.0@ == k@,
        r.1@ == v@,
{
    (string_from_chars(chars_of(k).as_slice()), string_from_chars(chars_of(v).as_slice()))
}

/// The parameters of the authorization request, in order.
pub open spec fn spec_authorize_params(
    client_id: Seq<char>,
    redirect_uri: Seq<char>,
    code_challenge: Seq<char>,
    state: Seq<char>,
) -> Seq<(Seq<char>, Seq<char>)> {
    seq![
        ("response_type"@, "code"@),
        ("client_id"@, client_id),
        ("redirect_uri"@, redirect_uri),
        ("scope"@, "openid profile email offline_access"@),
        ("code_challenge"@, code_challenge),
        ("code_challenge_method"@, "S256"@),
        ("id_token_add_organizations"@, "true"@),
        ("codex_cli_simplified_flow"@, "true"@),
        ("state"@, state),
        ("originator"@, "codex_cli_rs"@),
    ]
}

/// Build the OAuth authorization URL.
pub fn build_authorize_url(
    issuer: &str,
    client_id: &str,
    redirect_uri: &str,
    pkce: &PkceCodes,
    state: &str,
) -> (r: String)
    ensures
        r@ == issuer@ + "/oauth/authorize?"@ + spec_query(
            spec_authorize_params(client_id@, redirect_uri@, pkce.code_challenge@, state@),
        ),
{
    let mut params: Vec<(String, String)> = Vec::new();
    params.push(pair("response_type", "code"));
    params.push(pair("client_id", client_id));
    params.push(pair("redirect_uri", redirect_uri));
    params.push(pair("scope", "openid profile email offline_access"));
    params.push(pair("code_challenge", pkce.code_challenge.as_str()));
    params.push(pair("code_challenge_method", "S256"));
    params.push(pair("id_token_add_organizations", "true"));
    params.push(pair("codex_cli_simplified_flow", "true"));
    params.push(pair("state", state));
    params.push(pair("originator", "codex_cli_rs"));
    assert(pair_views(params@) =~= spec_authorize_params(
        client_id@,
        redirect_uri@,
        pkce.code_challenge@,
        state@,
    ));
    let q = query_string(&params);
    let head = chars_of(issuer);
    let path = chars_of("/oauth/authorize?");
    let h = concat_chars(head.as_slice(), path.as_slice());
    let all = concat_chars(h.as_slice(), q.as_slice());
    string_from_chars(all.as_slice())
}

/// PKCE codes from random bytes: the verifier is their URL-safe base64, the challenge the
/// URL-safe base64 of the SHA-256 of the verifier's bytes (method `S256`).
pub open spec fn spec_pkce_from(bytes: Seq<u8>, pkce: PkceCodes) -> bool {
    &&& pkce.code_verifier@ == spec_base64_url_encode(bytes)
    &&& pkce.code_challenge@ == spec_base64_url_encode(
        spec_sha256(vstd::utf8::encode_utf8(pkce.code_verifier@)),
    )
}

/// Generate PKCE codes from 64 random bytes.
pub fn generate_pkce() -> (r: PkceCodes)
    ensures
        exists|bytes: Seq<u8>| bytes.len() == 64 && spec_pkce_from(bytes, r),
{
    let bytes = random_bytes(64);
    let code_verifier = base64_url_encode(bytes.as_slice());
    let digest = sha256(code_verifier.as_str().as_bytes());
    let code_challenge = base64_url_encode(digest.as_slice());
    let r = PkceCodes { code_verifier, code_challenge };
    assert(spec_pkce_from(bytes@, r));
    r
}

/// Generate a random state parameter: the URL-safe base64 of 32 random bytes.
pub fn generate_state() -> (r: String)
    ensures
        exists|bytes: Seq<u8>| bytes.len() == 32 && r@ == spec_base64_url_encode(bytes),
{
    let bytes = random_bytes(32);
    base64_url_encode(bytes.as_slice())
}

/// The redirect URI of the local callback server on a port.
pub fn oauth_redirect_uri(port: u16) -> (r: String)
    ensures
        r@ == "http://localhost:"@ + spec_decimal(port as nat) + "/auth/callback"@,
{
    let head = chars_of("http://localhost:");
    let p = decimal_chars(port as u64);
    let tail = chars_of("/auth/callback");
    let a = concat_chars(head.as_slice(), p.as_slice());
    let b = concat_chars(a.as_slice(), tail.as_slice());
    string_from_chars(b.as_slice())
}

/// The form body of the token request that redeems an authorization code.
pub fn token_exchange_body(code: &str, redirect_uri: &str, client_id: &str, pkce: &PkceCodes) -> (r:
    String)
    ensures
        r@ == "grant_type=authorization_code&"@ + spec_query(
            seq![
                ("code"@, code@),
                ("redirect_uri"@, redirect_uri@),
                ("client_id"@, client_id@),
                ("code_verifier"@, pkce.code_verifier@),
            ],
        ),
{
    let mut params: Vec<(String, String)> = Vec::new();
    params.push(pair("code", code));
    params.push(pair("redirect_uri", redirect_uri));
    params.push(pair("client_id", client_id));
    params.push(pair("code_verifier", pkce.code_verifier.as_str()));
    assert(pair_views(params@) =~= seq![
        ("code"@, code@),
        ("redirect_uri"@, redirect_uri@),
        ("client_id"@, client_id@),
        ("code_verifier"@, pkce.code_verifier@),
    ]);
    let q = query_string(&params);
    let head = chars_of("grant_type=authorization_code&");
    let all = concat_chars(head.as_slice(), q.as_slice());
    string_from_chars(all.as_slice())
}

/// Name for what the `url` crate parses a URL to: its path and its decoded query pairs in order;
/// `None` when it is no valid URL.
pub uninterp spec fn spec_url_parts(url: Seq<char>) -> Option<
    (Seq<char>, Seq<(Seq<char>, Seq<char>)>),
>;

/// The local URL a callback request target stands for.
pub open spec fn spec_callback_url(request_url: Seq<char>) -> Seq<char> {
    "http://localhost"@ + request_url
}

/// `url::Url::parse`, then `path` and `query_pairs`. The result is named.
#[verifier::external_body]
fn parse_url_parts(url: &str) -> (r: Option<(String, Vec<(String, String)>)>)
    ensures
        match r {
            Some(parts) => spec_url_parts(url@) == Some((parts.0@, pair_views(parts.1@))),
            None => spec_url_parts(url@) is None,
        },
{
    let parsed = url::Url::parse(url).ok()?;
    let pairs = parsed.query_pairs().into_owned().collect();
    Some((parsed.path().to_string(), pairs))
}

/// The value of the last query pair with the key (as a map built from the pairs keeps it).
pub open spec fn spec_param(pairs: Seq<(Seq<char>, Seq<char>)>, key: Seq<char>) -> Option<Seq<char>>
    decreases pairs.len(),
{
    if pairs.len() == 0 {
        None
    } else if pairs.last().0 == key {
        Some(pairs.last().1)
    } else {
        spec_param(pairs.drop_last(), key)
    }
}

fn param(pairs: &Vec<(String, String)>, key: &str) -> (r: Option<String>)
    ensures
        match r {
            Some(v) => spec_param(pair_views(pairs@), key@) == Some(v@),
            None => spec_param(pair_views(pairs@), key@) is None,
        },
{
    let ghost pv = pair_views(pairs@);
    let mut k: usize = pairs.len();
    assert(pv.take(k as int) =~= pv);
    while k > 0
        invariant
            k <= pairs@.len(),
            pv == pair_views(pairs@),
            spec_param(pv.take(k as int), key@) == spec_param(pv, key@),
        decreases k,
    {
        assert(pv.take(k as int).drop_last() =~= pv.take(k - 1));
        assert(pv.take(k as int).last() == (pairs@[k - 1].0@, pairs@[k - 1].1@));
        if str_eq(pairs[k - 1].0.as_str(), key) {
            return Some(string_from_chars(chars_of(pairs[k - 1].1.as_str()).as_slice()));
        }
        k -= 1;
    }
    assert(pv.take(0) =~= Seq::<(Seq<char>, Seq<char>)>::empty());
    None
}

/// What the callback server does with one request.
#[derive(Debug)]
pub enum OAuthRequestAction {
    /// Answer with this status and body and keep waiting.
    Respond { status: u16, body: String },
    /// Answer with this status and body and fail the login with the error.
    Fail { status: u16, body: String, error: String },
    /// Redeem the authorization code.
    Exchange { code: String },
}

/// How the callback server treats a request: unparsable targets and other paths are answered
/// and ignored; a callback with a missing or wrong state is ignored too (a stray request must
/// not abort the login); a provider error or a missing code fails the login; else the code is
/// redeemed.
pub fn handle_oauth_request(request_url: &str, expected_state: &str) -> (r: OAuthRequestAction)
    ensures
        match spec_url_parts(spec_callback_url(request_url@)) {
            None => r matches OAuthRequestAction::Respond { status, body } && status == 400
                && body@ == "Bad Request"@,
            Some(parts) => {
                let q = parts.1;
                if parts.0 != "/auth/callback"@ {
                    r matches OAuthRequestAction::Respond { status, body } && status == 404
                        && body@ == "Not Found"@
                } else if spec_param(q, "state"@) != Some(expected_state@) {
                    r matches OAuthRequestAction::Respond { status, body } && status == 400
                        && body@ == "State mismatch"@
                } else if spec_param(q, "error"@) is Some {
                    let err = spec_param(q, "error"@).unwrap();
                    let desc = match spec_param(q, "error_description"@) {
                        Some(d) => d,
                        None => "Unknown error"@,
                    };
                    r matches OAuthRequestAction::Fail { status, body, error } && status == 400
                        && body@ == "OAuth Error: "@ + err + " - "@ + desc && error@
                        == "OAuth error: "@ + err + " - "@ + desc
                } else {
                    match spec_param(q, "code"@) {
                        Some(c) => if c.len() > 0 {
                            r matches OAuthRequestAction::Exchange { code } && code@ == c
                        } else {
                            r matches OAuthRequestAction::Fail { status, body, error } && status
                                == 400 && body@ == "Missing authorization code"@ && error@
                                == "Missing authorization code"@
                        },
                        None => r matches OAuthRequestAction::Fail { status, body, error }
                            && status == 400 && body@ == "Missing authorization code"@ && error@
                            == "Missing authorization code"@,
                    }
                }
            },
        },
{
    let url = crate::text::concat_strs("http://localhost", request_url);
    let (path, pairs) = match parse_url_parts(url.as_str()) {
        Some(parts) => parts,
        None => {
            return OAuthRequestAction::Respond {
                status: 400,
                body: string_from_chars(chars_of("Bad Request").as_slice()),
            };
        },
    };
    if !str_eq(path.as_str(), "/auth/callback") {
        return OAuthRequestAction::Respond {
            status: 404,
            body: string_from_chars(chars_of("Not Found").as_slice()),
        };
    }
    let state_ok = match param(&pairs, "state") {
        Some(s) => str_eq(s.as_str(), expected_state),
        None => false,
    };
    if !state_ok {
        return OAuthRequestAction::Respond {
            status: 400,
            body: string_from_chars(chars_of("State mismatch").as_slice()),
        };
    }
    if let Some(err) = param(&pairs, "error") {
        let desc = match param(&pairs, "error_description") {
            Some(d) => d,
            None => string_from_chars(chars_of("Unknown error").as_slice()),
        };
        let e = chars_of(err.as_str());
        let d = chars_of(desc.as_str());
        let sep = chars_of(" - ");
        let mid = concat_chars(e.as_slice(), sep.as_slice());
        let detail = concat_chars(mid.as_slice(), d.as_slice());
        let body = concat_chars(chars_of("OAuth Error: ").as_slice(), detail.as_slice());
        let error = concat_chars(chars_of("OAuth error: ").as_slice(), detail.as_slice());
        return OAuthRequestAction::Fail {
            status: 400,
            body: string_from_chars(body.as_slice()),
            error: string_from_chars(error.as_slice()),
        };
    }
    match param(&pairs, "code") {
        Some(c) => {
            if c.as_str().is_empty() {
                OAuthRequestAction::Fail {
                    status: 400,
                    body: string_from_chars(chars_of("Missing authorization code").as_slice()),
                    error: string_from_chars(chars_of("Missing authorization code").as_slice()),
                }
            } else {
                OAuthRequestAction::Exchange { code: c }
            }
        },
        None => OAuthRequestAction::Fail {
            status: 400,
            body: string_from_chars(chars_of("Missing authorization code").as_slice()),
            error: string_from_chars(chars_of("Missing authorization code").as_slice()),
        },
    }
}

/// Why a completed OAuth exchange yields no account.
#[derive(Debug, Clone, Copy, PartialEq, Eq, Structural)]
pub enum OAuthCompletionError {
    /// The user cancelled the login meanwhile.
    Cancelled,
}

/// The account a successful code exchange yields, unless the login was cancelled meanwhile:
/// a ChatGPT account with the tokens, and the e-mail, plan and account id of its ID token.
pub fn complete_oauth_exchange(
    account_name: String,
    id_token: String,
    access_token: String,
    refresh_token: String,
    cancelled: bool,
) -> (r: Result<StoredAccount, OAuthCompletionError>)
    ensures
        cancelled ==> r == Err::<StoredAccount, OAuthCompletionError>(
            OAuthCompletionError::Cancelled,
        ),
        !cancelled ==> (r matches Ok(a) && a.name == account_name && a.email == spec_claim_email(
            id_token@,
        ) && a.plan_type == spec_claim_plan_type(id_token@) && a.auth_mode == AuthMode::ChatGPT
            && a.auth_data == (AuthData::ChatGPT {
            id_token,
            access_token,
            refresh_token,
            account_id: spec_claim_account_id(id_token@),
            last_refresh: None,
        })),
{
    if cancelled {
        return Err(OAuthCompletionError::Cancelled);
    }
    let (email, plan_type) = parse_id_token_claims(id_token.as_str());
    let account_id = parse_id_token_account_id(id_token.as_str());
    Ok(
        StoredAccount::new_chatgpt(
            account_name,
            email,
            plan_type,
            id_token,
            access_token,
            refresh_token,
            account_id,
        ),
    )
}

/// The cancelled flows after cancelling the pending flow and the running one.
pub open spec fn spec_cancel_all(cancelled: Seq<u64>, pending: Option<u64>, active: Option<u64>) -> Seq<
    u64,
> {
    cancelled + (match pending {
        Some(p) => seq![p],
        None => Seq::empty(),
    }) + (match active {
        Some(a) => seq![a],
        None => Seq::empty(),
    })
}

/// Cancelling reaches the pending and the running flow, and a flow once cancelled stays
/// cancelled: neither cancelling others nor forgetting the running flow takes it back.
pub proof fn law_cancelled_flows_stay_cancelled(
    cancelled: Seq<u64>,
    pending: Option<u64>,
    active: Option<u64>,
    flow: u64,
)
    ensures
        cancelled.contains(flow) ==> spec_cancel_all(cancelled, pending, active).contains(flow),
        pending == Some(flow) ==> spec_cancel_all(cancelled, pending, active).contains(flow),
        active == Some(flow) ==> spec_cancel_all(cancelled, pending, active).contains(flow),
{
    let after = spec_cancel_all(cancelled, pending, active);
    let mid = cancelled + (match pending {
        Some(p) => seq![p],
        None => Seq::<u64>::empty(),
    });
    if cancelled.contains(flow) {
        let i = choose|i: int| 0 <= i < cancelled.len() && cancelled[i] == flow;
        assert(mid[i] == flow);
        assert(after[i] == flow);
    }
    if pending == Some(flow) {
        assert(mid[cancelled.len() as int] == flow);
        assert(after[cancelled.len() as int] == flow);
    }
    if active == Some(flow) {
        assert(after[mid.len() as int] == flow);
    }
}

/// The cancellation flags of login flows, by flow number: the flow whose receiver waits to be
/// completed, the flow currently running, and every flow told to cancel.
#[derive(Debug, Clone)]
pub struct OAuthFlows {
    pub pending: Option<u64>,
    pub active: Option<u64>,
    pub cancelled: Vec<u64>,
}

impl OAuthFlows {
    /// Cancel the pending flow and the running one; neither is kept.
    pub fn signal_active_cancel(&mut self)
        ensures
            final(self).pending is None,
            final(self).active is None,
            final(self).cancelled@ == spec_cancel_all(
                old(self).cancelled@,
                old(self).pending,
                old(self).active,
            ),
    {
        let ghost c0 = self.cancelled@;
        if let Some(p) = self.pending {
            self.cancelled.push(p);
        }
        let ghost c1 = self.cancelled@;
        self.pending = None;
        if let Some(a) = self.active {
            self.cancelled.push(a);
        }
        self.active = None;
        proof {
            assert(c1 =~= c0 + (match old(self).pending {
                Some(p) => seq![p],
                None => Seq::<u64>::empty(),
            }));
        }
        assert(self.cancelled@ =~= c0 + (match old(self).pending {
            Some(p) => seq![p],
            None => Seq::<u64>::empty(),
        }) + (match old(self).active {
            Some(a) => seq![a],
            None => Seq::<u64>::empty(),
        }));
    }

    /// Forget the running flow when it is this one.
    pub fn clear_active_cancel_if_matches(&mut self, flow: u64)
        ensures
            final(self).pending == old(self).pending,
            final(self).cancelled@ == old(self).cancelled@,
            final(self).active == (if old(self).active == Some(flow) {
                None
            } else {
                old(self).active
            }),
    {
        if self.active == Some(flow) {
            self.active = None;
        }
    }

    /// Whether a flow was told to cancel.
    pub fn is_cancelled(&self, flow: u64) -> (r: bool)
        ensures
            r == self.cancelled@.contains(flow),
    {
        let mut i: usize = 0;
        while i < self.cancelled.len()
            invariant
                i <= self.cancelled@.len(),
                forall|j: int| 0 <= j < i ==> self.cancelled@[j] != flow,
            decreases self.cancelled@.len() - i,
        {
            if self.cancelled[i] == flow {
                return true;
            }
            i += 1;
        }
        false
    }
}

/// Where completing a login stands.
#[derive(Debug, Clone, Copy, PartialEq, Eq, Structural)]
pub enum LoginState {
    /// Waiting for the callback's token exchange.
    WaitingForTokens,
    /// Waiting for the account to be stored.
    Storing,
    Done,
    Failed(LoginFailure),
}

/// Why completing a login failed.
#[derive(Debug, Clone, Copy, PartialEq, Eq, Structural)]
pub enum LoginFailure {
    /// The callback or the token exchange failed.
    ExchangeFailed,
    /// The login was cancelled before its account was stored.
    Cancelled,
    /// Storing the account failed.
    StoreFailed,
}

impl LoginFailure {
    /// The text a failed login is reported with.
    pub fn message(&self) -> (r: &'static str)
        ensures
            r@ == spec_login_failure_message(*self),
    {
        match self {
            LoginFailure::ExchangeFailed => "OAuth login failed",
            LoginFailure::Cancelled => "OAuth login cancelled",
            LoginFailure::StoreFailed => "Failed to store the OAuth account",
        }
    }
}

pub open spec fn spec_login_failure_message(f: LoginFailure) -> Seq<char> {
    match f {
        LoginFailure::ExchangeFailed => "OAuth login failed"@,
        LoginFailure::Cancelled => "OAuth login cancelled"@,
        LoginFailure::StoreFailed => "Failed to store the OAuth account"@,
    }
}

/// What the caller does next while completing a login.
#[derive(Debug, Clone, Copy, PartialEq, Eq, Structural)]
pub enum LoginAction {
    AwaitTokens,
    StoreAccount,
    Finish,
    Abort(LoginFailure),
}

/// The transition table of completing a login: the outcome (`ok`) of the last action and whether
/// the flow was told to cancel give the next state and action.
pub open spec fn spec_login_step(state: LoginState, cancelled: bool, ok: bool) -> (
    LoginState,
    LoginAction,
) {
    match state {
        LoginState::WaitingForTokens => if !ok {
            (
                LoginState::Failed(LoginFailure::ExchangeFailed),
                LoginAction::Abort(LoginFailure::ExchangeFailed),
            )
        } else if cancelled {
            (
                LoginState::Failed(LoginFailure::Cancelled),
                LoginAction::Abort(LoginFailure::Cancelled),
            )
        } else {
            (LoginState::Storing, LoginAction::StoreAccount)
        },
        LoginState::Storing => if ok {
            (LoginState::Done, LoginAction::Finish)
        } else {
            (
                LoginState::Failed(LoginFailure::StoreFailed),
                LoginAction::Abort(LoginFailure::StoreFailed),
            )
        },
        LoginState::Done => (LoginState::Done, LoginAction::Finish),
        LoginState::Failed(f) => (LoginState::Failed(f), LoginAction::Abort(f)),
    }
}

/// The running flow after forgetting `flow`.
pub open spec fn spec_cleared(active: Option<u64>, flow: u64) -> Option<u64> {
    if active == Some(flow) {
        None
    } else {
        active
    }
}

/// Start completing the pending login `flow`: it is no longer pending and becomes the running
/// flow; the tokens are awaited first.
pub fn login_completion_start(flows: &mut OAuthFlows, flow: u64) -> (r: (LoginState, LoginAction))
    ensures
        r == (LoginState::WaitingForTokens, LoginAction::AwaitTokens),
        final(flows).pending is None,
        final(flows).active == Some(flow),
        final(flows).cancelled@ == old(flows).cancelled@,
{
    flows.pending = None;
    flows.active = Some(flow);
    (LoginState::WaitingForTokens, LoginAction::AwaitTokens)
}

/// One step of completing the login `flow` (see `spec_login_step`). Every step that ends the
/// completion, finished or aborted, forgets the flow as the running one; only storing keeps it
/// running, so that cancelling can still reach it.
pub fn login_completion_step(flows: &mut OAuthFlows, flow: u64, state: LoginState, ok: bool) -> (r: (
    LoginState,
    LoginAction,
))
    ensures
        r == spec_login_step(state, old(flows).cancelled@.contains(flow), ok),
        final(flows).pending == old(flows).pending,
        final(flows).cancelled@ == old(flows).cancelled@,
        final(flows).active == if r.1 == LoginAction::StoreAccount {
            old(flows).active
        } else {
            spec_cleared(old(flows).active, flow)
        },
{
    let cancelled = flows.is_cancelled(flow);
    let r = match state {
        LoginState::WaitingForTokens => if !ok {
            (
                LoginState::Failed(LoginFailure::ExchangeFailed),
                LoginAction::Abort(LoginFailure::ExchangeFailed),
            )
        } else if cancelled {
            (
                LoginState::Failed(LoginFailure::Cancelled),
                LoginAction::Abort(LoginFailure::Cancelled),
            )
        } else {
            (LoginState::Storing, LoginAction::StoreAccount)
        },
        LoginState::Storing => if ok {
            (LoginState::Done, LoginAction::Finish)
        } else {
            (
                LoginState::Failed(LoginFailure::StoreFailed),
                LoginAction::Abort(LoginFailure::StoreFailed),
            )
        },
        LoginState::Done => (LoginState::Done, LoginAction::Finish),
        LoginState::Failed(f) => (LoginState::Failed(f), LoginAction::Abort(f)),
    };
    match r.1 {
        LoginAction::StoreAccount => {},
        _ => {
            flows.clear_active_cancel_if_matches(flow);
        },
    }
    r
}

/// A login told to cancel before its tokens arrive never stores its account: the completion
/// aborts, and the flow is no longer the running one.
pub proof fn law_cancelled_login_never_stores(ok: bool)
    ensures
        spec_login_step(LoginState::WaitingForTokens, true, ok).1 != LoginAction::StoreAccount,
        spec_login_step(LoginState::WaitingForTokens, true, ok).1 matches LoginAction::Abort(_),
{
}

} // verus!
