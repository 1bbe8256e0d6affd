//! The browser front end's HTTP server: who may use it, how requests are routed to commands and
//! static files, and which headers files are served with. Sockets, files and JSON are the
//! caller's part.

use vstd::prelude::*;

use base64::Engine as _;
use std::io::Read;

use crate::jwt::opt_bytes;
use crate::process::{last_component, opt_chars, spec_last_component_upto};
use crate::text::{
    chars_eq, chars_of, concat_chars, decimal_chars, is_blank, lower_chars, parse_unsigned,
    spec_decimal, spec_is_blank, spec_lower, spec_parse_unsigned, spec_split, spec_starts_with,
    spec_trim, split_chars, starts_with, str_eq, string_from_chars, sub_chars, trim, trim_chars,
};
use crate::types::{clone_string, opt_view};

verus! {

/// The realm of the HTTP Basic challenge.
pub const BASIC_AUTH_REALM: &'static str = "ChatGPT Codex Switcher";

/// The user name HTTP Basic credentials must carry.
pub const BASIC_AUTH_USERNAME: &'static str = "codex";

/// Largest request body accepted, in bytes.
pub const MAX_WEB_REQUEST_BODY_BYTES: u64 = 12 * 1024 * 1024;

/// The content security policy of HTML pages.
pub const WEB_CONTENT_SECURITY_POLICY: &'static str =
    "default-src 'self'; script-src 'self'; style-src 'self' 'unsafe-inline'; img-src 'self' data:; font-src 'self' data:; connect-src 'self'; object-src 'none'; base-uri 'none'; form-action 'none'";

/// Access control of the web server: the HTTP Basic password, when one is required.
#[derive(Debug, Clone, Default)]
pub struct WebServerSecurity {
    basic_auth_password: Option<String>,
}

impl WebServerSecurity {
    pub closed spec fn password(&self) -> Option<Seq<char>> {
        opt_view(self.basic_auth_password)
    }

    /// A blank password counts as none.
    pub fn new(basic_auth_password: Option<String>) -> (r: Self)
        ensures
            r.password() == match basic_auth_password {
                Some(p) => if spec_is_blank(p@) {
                    None
                } else {
                    Some(p@)
                },
                None => None,
            },
    {
        let basic_auth_password = match basic_auth_password {
            Some(p) => if is_blank(p.as_str()) {
                None
            } else {
                Some(p)
            },
            None => None,
        };
        WebServerSecurity { basic_auth_password }
    }

    pub fn basic_auth_password(&self) -> (r: Option<&str>)
        ensures
            match r {
                Some(p) => self.password() == Some(p@),
                None => self.password() is None,
            },
    {
        match &self.basic_auth_password {
            Some(p) => Some(p.as_str()),
            None => None,
        }
    }

    pub fn basic_auth_enabled(&self) -> (r: bool)
        ensures
            r == self.password() is Some,
    {
        self.basic_auth_password().is_some()
    }
}

/// Name for what the `base64` crate's `STANDARD` engine decodes a text to.
pub uninterp spec fn spec_base64_std_decode(text: Seq<char>) -> Option<Seq<u8>>;

/// `base64::engine::general_purpose::STANDARD.decode`. The result is named.
#[verifier::external_body]
pub fn base64_std_decode(text: &str) -> (r: Option<Vec<u8>>)
    ensures
        opt_bytes(r) == spec_base64_std_decode(text@),
{
    base64::engine::general_purpose::STANDARD.decode(text).ok()
}

/// `String::from_utf8`: the text the bytes encode, when they are valid UTF-8.
#[verifier::external_body]
fn string_from_utf8(bytes: Vec<u8>) -> (r: Option<String>)
    ensures
        vstd::utf8::valid_utf8(bytes@) <==> r is Some,
        r matches Some(s) ==> s@ == vstd::utf8::decode_utf8(bytes@),
{
    String::from_utf8(bytes).ok()
}

/// Index of the first occurrence of `c` (or the length).
pub open spec fn spec_index_of(s: Seq<char>, c: char) -> int {
    crate::jwt::spec_find_from(s, c, 0)
}

/// HTTP Basic credentials, base64-encoded, that decode to `codex:` followed by the password.
pub open spec fn spec_basic_auth_matches(encoded: Seq<char>, expected_password: Seq<char>) -> bool {
    match spec_base64_std_decode(encoded) {
        None => false,
        Some(bytes) => {
            let text = vstd::utf8::decode_utf8(bytes);
            let k = spec_index_of(text, ':');
            &&& vstd::utf8::valid_utf8(bytes)
            &&& k < text.len()
            &&& text.take(k) == BASIC_AUTH_USERNAME@
            &&& text.skip(k + 1) == expected_password
        },
    }
}

pub fn basic_auth_matches(encoded_credentials: &str, expected_password: &str) -> (r: bool)
    ensures
        r == spec_basic_auth_matches(encoded_credentials@, expected_password@),
{
    let decoded = match base64_std_decode(encoded_credentials) {
        Some(bytes) => bytes,
        None => {
            return false;
        },
    };
    let text = match string_from_utf8(decoded) {
        Some(t) => t,
        None => {
            return false;
        },
    };
    let chars = chars_of(text.as_str());
    proof {
        crate::jwt::lemma_find_from(chars@, ':', 0);
    }
    let k = crate::jwt::find_from(chars.as_slice(), ':', 0);
    if k >= chars.len() {
        return false;
    }
    let username = sub_chars(chars.as_slice(), 0, k);
    let password = sub_chars(chars.as_slice(), k + 1, chars.len());
    assert(username@ =~= chars@.take(k as int));
    assert(password@ =~= chars@.skip(k + 1));
    let user = chars_of(BASIC_AUTH_USERNAME);
    let expected = chars_of(expected_password);
    chars_eq(username.as_slice(), user.as_slice()) && chars_eq(
        password.as_slice(),
        expected.as_slice(),
    )
}

/// Whether a request may be served: always without a password; else its `Authorization`
/// header must hold `Basic ` and matching credentials.
pub open spec fn spec_request_is_authorized(
    authorization: Option<Seq<char>>,
    expected_password: Option<Seq<char>>,
) -> bool {
    match expected_password {
        None => true,
        Some(p) => match authorization {
            None => false,
            Some(h) => spec_starts_with(h, "Basic "@) && spec_basic_auth_matches(
                spec_trim(h.skip(("Basic "@).len() as int)),
                p,
            ),
        },
    }
}

/// Decide whether a request may be served, given its first `Authorization` header.
pub fn request_is_authorized(authorization: Option<&str>, expected_password: Option<&str>) -> (r:
    bool)
    ensures
        r == spec_request_is_authorized(
            match authorization {
                Some(h) => Some(h@),
                None => None,
            },
            match expected_password {
                Some(p) => Some(p@),
                None => None,
            },
        ),
{
    let expected = match expected_password {
        Some(p) => p,
        None => {
            return true;
        },
    };
    let header = match authorization {
        Some(h) => h,
        None => {
            return false;
        },
    };
    let h = chars_of(header);
    let prefix = chars_of("Basic ");
    if !starts_with(h.as_slice(), prefix.as_slice()) {
        return false;
    }
    let rest = sub_chars(h.as_slice(), prefix.len(), h.len());
    assert(rest@ =~= h@.skip(prefix@.len() as int));
    let trimmed = trim_chars(rest.as_slice());
    let value = string_from_chars(trimmed.as_slice());
    basic_auth_matches(value.as_str(), expected)
}

/// Why the web server refused a request.
#[derive(Debug, Clone, PartialEq, Eq)]
pub enum WebError {
    /// The body could not be read as text.
    BodyUnreadable,
    /// The body is longer than allowed.
    BodyTooLarge { max_bytes: u64 },
    /// The static path leaves the served directory.
    InvalidPath,
    /// No such command.
    UnsupportedCommand(String),
}

impl WebError {
    /// The error's text.
    pub fn message(&self) -> (r: String)
        ensures
            r@ == match *self {
                WebError::BodyUnreadable => "Failed to read request body"@,
                WebError::BodyTooLarge { max_bytes } =>
                    "Request body is too large. Maximum allowed size is "@ + spec_decimal(
                    max_bytes as nat,
                ) + " bytes."@,
                WebError::InvalidPath => "Invalid request path"@,
                WebError::UnsupportedCommand(c) => "Unsupported web command: "@ + c@,
            },
    {
        let v = match self {
            WebError::BodyUnreadable => chars_of("Failed to read request body"),
            WebError::BodyTooLarge { max_bytes } => {
                let head = chars_of("Request body is too large. Maximum allowed size is ");
                let d = decimal_chars(*max_bytes);
                let tail = chars_of(" bytes.");
                let a = concat_chars(head.as_slice(), d.as_slice());
                concat_chars(a.as_slice(), tail.as_slice())
            },
            WebError::InvalidPath => chars_of("Invalid request path"),
            WebError::UnsupportedCommand(c) => {
                let head = chars_of("Unsupported web command: ");
                let tail = chars_of(c.as_str());
                concat_chars(head.as_slice(), tail.as_slice())
            },
        };
        string_from_chars(v.as_slice())
    }
}

/// `std::io::Read::take(max_read)` then `read_to_string`. What a reader yields depends on its
/// state; only that the text's UTF-8 bytes fit the limit is stated.
#[verifier::external_body]
fn read_text_limited<R: Read + ?Sized>(reader: &mut R, max_read: u64) -> (r: Option<String>)
    ensures
        r matches Some(s) ==> vstd::utf8::encode_utf8(s@).len() <= max_read,
        r matches Some(s) ==> vstd::utf8::encode_utf8(s@).len() <= usize::MAX,
{
    let mut body = String::new();
    reader.take(max_read).read_to_string(&mut body).ok()?;
    Some(body)
}

/// What a read request body amounts to: a failed read is unreadable; a text whose UTF-8 bytes
/// exceed `max_bytes` is too large; any other text is the body.
pub open spec fn spec_accept_request_body(read: Option<Seq<char>>, max_bytes: u64) -> Result<
    Seq<char>,
    WebError,
> {
    match read {
        None => Err(WebError::BodyUnreadable),
        Some(text) => if vstd::utf8::encode_utf8(text).len() > max_bytes {
            Err(WebError::BodyTooLarge { max_bytes })
        } else {
            Ok(text)
        },
    }
}

pub open spec fn body_view(r: Result<String, WebError>) -> Result<Seq<char>, WebError> {
    match r {
        Ok(b) => Ok(b@),
        Err(e) => Err(e),
    }
}

/// Accept or refuse the text read from a request body (see `spec_accept_request_body`).
pub fn accept_request_body(read: Option<String>, max_bytes: u64) -> (r: Result<String, WebError>)
    requires
        read matches Some(t) ==> vstd::utf8::encode_utf8(t@).len() <= usize::MAX,
    ensures
        body_view(r) == spec_accept_request_body(opt_view(read), max_bytes),
{
    let body = match read {
        Some(b) => b,
        None => {
            return Err(WebError::BodyUnreadable);
        },
    };
    if body.as_str().len() as u64 > max_bytes {
        return Err(WebError::BodyTooLarge { max_bytes });
    }
    Ok(body)
}

/// How many bytes to read of a request body limited to `max_bytes`: one more, so that a longer
/// body shows.
pub fn request_body_read_limit(max_bytes: u64) -> (n: u64)
    requires
        max_bytes < u64::MAX,
    ensures
        n == max_bytes + 1,
{
    max_bytes + 1
}

/// Read a request body as text, refusing one longer than `max_bytes`: at most one byte more
/// than the limit is read, and what was read is accepted or refused by `accept_request_body`.
/// What the reader yields depends on its state, which is not modeled.
pub fn read_request_body_limited<R: Read + ?Sized>(reader: &mut R, max_bytes: u64) -> (r: Result<
    String,
    WebError,
>)
    requires
        max_bytes < u64::MAX,
    ensures
        exists|read: Option<Seq<char>>|
            body_view(r) == spec_accept_request_body(read, max_bytes),
        r matches Ok(body) ==> vstd::utf8::encode_utf8(body@).len() <= max_bytes,
        r matches Err(e) ==> (e is BodyUnreadable || e == WebError::BodyTooLarge { max_bytes }),
{
    let read = read_text_limited(reader, request_body_read_limit(max_bytes));
    accept_request_body(read, max_bytes)
}

/// Whether a request body stands for an empty JSON object (it is blank).
pub fn request_body_is_empty(body: &str) -> (r: bool)
    ensures
        r == spec_is_blank(body@),
{
    is_blank(body)
}

/// The extension of a path's file name: what follows its last `.`, when the name has one that
/// is not its first character.
pub open spec fn spec_extension(path: Seq<char>) -> Option<Seq<char>> {
    match spec_last_component_upto(path, path.len() as int) {
        None => None,
        Some(name) => {
            let k = spec_last_dot(name, name.len() as int);
            if k <= 0 {
                None
            } else {
                Some(name.skip(k + 1))
            }
        },
    }
}

/// Index of the last `.` before `end`, or -1.
pub open spec fn spec_last_dot(s: Seq<char>, end: int) -> int
    decreases end,
{
    if end <= 0 {
        -1
    } else if s[end - 1] == '.' {
        end - 1
    } else {
        spec_last_dot(s, end - 1)
    }
}

proof fn lemma_last_dot(s: Seq<char>, end: int)
    requires
        0 <= end <= s.len(),
    ensures
        -1 <= spec_last_dot(s, end) < end,
    decreases end,
{
    if end > 0 && s[end - 1] != '.' {
        lemma_last_dot(s, end - 1);
    }
}

fn extension(path: &str) -> (r: Option<Vec<char>>)
    ensures
        opt_chars(r) == spec_extension(path@),
{
    let p = chars_of(path);
    let name = match last_component(p.as_slice()) {
        Some(n) => n,
        None => {
            return None;
        },
    };
    let mut k: usize = name.len();
    while k > 0 && name[k - 1] != '.'
        invariant
            k <= name@.len(),
            spec_last_dot(name@, k as int) == spec_last_dot(name@, name@.len() as int),
        decreases k,
    {
        k -= 1;
    }
    if k <= 1 {
        return None;
    }
    let ext = sub_chars(name.as_slice(), k, name.len());
    assert(ext@ =~= name@.skip(k as int));
    Some(ext)
}

/// A path whose extension is `html` in any letter case.
pub open spec fn spec_is_html_path(path: Seq<char>) -> bool {
    spec_extension(path) matches Some(e) && spec_lower(e) == "html"@
}

pub fn is_html_path(path: &str) -> (r: bool)
    ensures
        r == spec_is_html_path(path@),
{
    match extension(path) {
        Some(e) => {
            let lower = lower_chars(e.as_slice());
            let html = chars_of("html");
            chars_eq(lower.as_slice(), html.as_slice())
        },
        None => false,
    }
}

/// Whether a path's file name has an extension.
pub fn path_has_extension(path: &str) -> (r: bool)
    ensures
        r == spec_extension(path@) is Some,
{
    extension(path).is_some()
}

/// The security headers a static file is served with: `nosniff`, no referrer, and for HTML the
/// content security policy.
pub fn security_header_specs_for_path(path: &str) -> (r: Vec<(&'static str, &'static str)>)
    ensures
        r@.len() == if spec_is_html_path(path@) {
            3int
        } else {
            2int
        },
        r@[0].0@ == "X-Content-Type-Options"@ && r@[0].1@ == "nosniff"@,
        r@[1].0@ == "Referrer-Policy"@ && r@[1].1@ == "no-referrer"@,
        spec_is_html_path(path@) ==> r@[2].0@ == "Content-Security-Policy"@ && r@[2].1@
            == WEB_CONTENT_SECURITY_POLICY@,
{
    let mut headers: Vec<(&'static str, &'static str)> = Vec::new();
    headers.push(("X-Content-Type-Options", "nosniff"));
    headers.push(("Referrer-Policy", "no-referrer"));
    if is_html_path(path) {
        headers.push(("Content-Security-Policy", WEB_CONTENT_SECURITY_POLICY));
    }
    headers
}

/// The MIME type of a static file, by its extension in any letter case.
pub open spec fn spec_mime_type(path: Seq<char>) -> Seq<char> {
    let e = match spec_extension(path) {
        Some(e) => spec_lower(e),
        None => Seq::empty(),
    };
    if e == "css"@ {
        "text/css; charset=utf-8"@
    } else if e == "html"@ {
        "text/html; charset=utf-8"@
    } else if e == "ico"@ {
        "image/x-icon"@
    } else if e == "jpeg"@ || e == "jpg"@ {
        "image/jpeg"@
    } else if e == "js"@ {
        "text/javascript; charset=utf-8"@
    } else if e == "json"@ {
        "application/json; charset=utf-8"@
    } else if e == "png"@ {
        "image/png"@
    } else if e == "svg"@ {
        "image/svg+xml"@
    } else if e == "txt"@ {
        "text/plain; charset=utf-8"@
    } else if e == "webp"@ {
        "image/webp"@
    } else {
        "application/octet-stream"@
    }
}

fn is(e: &[char], text: &str) -> (r: bool)
    ensures
        r == (e@ == text@),
{
    let t = chars_of(text);
    chars_eq(e, t.as_slice())
}

pub fn mime_type_for_path(path: &str) -> (r: &'static str)
    ensures
        r@ == spec_mime_type(path@),
{
    let e: Vec<char> = match extension(path) {
        Some(e) => lower_chars(e.as_slice()),
        None => {
            let v: Vec<char> = Vec::new();
            assert(v@ =~= Seq::<char>::empty());
            v
        },
    };
    if is(e.as_slice(), "css") {
        "text/css; charset=utf-8"
    } else if is(e.as_slice(), "html") {
        "text/html; charset=utf-8"
    } else if is(e.as_slice(), "ico") {
        "image/x-icon"
    } else if is(e.as_slice(), "jpeg") || is(e.as_slice(), "jpg") {
        "image/jpeg"
    } else if is(e.as_slice(), "js") {
        "text/javascript; charset=utf-8"
    } else if is(e.as_slice(), "json") {
        "application/json; charset=utf-8"
    } else if is(e.as_slice(), "png") {
        "image/png"
    } else if is(e.as_slice(), "svg") {
        "image/svg+xml"
    } else if is(e.as_slice(), "txt") {
        "text/plain; charset=utf-8"
    } else if is(e.as_slice(), "webp") {
        "image/webp"
    } else {
        "application/octet-stream"
    }
}

/// The path part of a request target (before any `?`) without leading slashes.
pub open spec fn spec_request_path(url: Seq<char>) -> Seq<char> {
    let path = spec_split(url, '?')[0];
    path.skip(crate::text::spec_strip_start_index(path, '/'))
}

/// A relative path that stays inside the served directory: no `..` component, and no `.` as
/// its first component (a `.` elsewhere is dropped, as `Path::components` does).
pub open spec fn spec_path_is_safe(raw: Seq<char>) -> bool {
    let parts = spec_split_path(raw);
    &&& forall|i: int| 0 <= i < parts.len() ==> #[trigger] parts[i] != ".."@
    &&& !(parts.len() > 0 && parts[0] == "."@)
}

/// The components of a path split at `/` and `\`.
pub open spec fn spec_split_path(s: Seq<char>) -> Seq<Seq<char>> {
    spec_split(crate::text::spec_replace_char(s, '\\', '/'), '/')
}

/// The static file a request target asks for, refusing paths that leave the directory.
pub fn sanitize_path(url: &str) -> (r: Result<String, WebError>)
    ensures
        spec_path_is_safe(spec_request_path(url@)) ==> (r matches Ok(p) && p@ == spec_request_path(
            url@,
        )),
        !spec_path_is_safe(spec_request_path(url@)) ==> r == Err::<String, WebError>(
            WebError::InvalidPath,
        ),
{
    let u = chars_of(url);
    let pieces = split_chars(u.as_slice(), '?');
    let path = &pieces[0];
    assert(crate::text::char_views(pieces@)[0] == pieces@[0]@);
    proof {
        crate::text::lemma_strip_start_index(path@, '/');
    }
    let mut a: usize = 0;
    while a < path.len() && path[a] == '/'
        invariant
            a <= path@.len(),
            a <= crate::text::spec_strip_start_index(path@, '/'),
            forall|j: int|
                0 <= j < crate::text::spec_strip_start_index(path@, '/') ==> #[trigger] path@[j]
                    == '/',
            crate::text::spec_strip_start_index(path@, '/') < path@.len() ==> path@[crate::text::spec_strip_start_index(
                path@,
                '/',
            )] != '/',
            crate::text::spec_strip_start_index(path@, '/') <= path@.len(),
        decreases path@.len() - a,
    {
        a += 1;
    }
    assert(a == crate::text::spec_strip_start_index(path@, '/'));
    let raw = sub_chars(path.as_slice(), a, path.len());
    assert(raw@ =~= path@.skip(a as int));
    assert(path@ == spec_split(url@, '?')[0]);
    assert(raw@ == spec_request_path(url@));
    let slashed = crate::text::replace_char(raw.as_slice(), '\\', '/');
    let parts = split_chars(slashed.as_slice(), '/');
    let ghost pv = crate::text::char_views(parts@);
    let dotdot = chars_of("..");
    let dot = chars_of(".");
    let mut i: usize = 0;
    while i < parts.len()
        invariant
            i <= parts@.len(),
            pv == crate::text::char_views(parts@),
            pv == spec_split_path(raw@),
            raw@ == spec_request_path(url@),
            dotdot@ == ".."@,
            forall|j: int| 0 <= j < i ==> #[trigger] pv[j] != ".."@,
        decreases parts@.len() - i,
    {
        assert(pv[i as int] == parts@[i as int]@);
        if chars_eq(parts[i].as_slice(), dotdot.as_slice()) {
            assert(pv[i as int] == ".."@);
            return Err(WebError::InvalidPath);
        }
        i += 1;
    }
    assert(pv[0] == parts@[0]@);
    if chars_eq(parts[0].as_slice(), dot.as_slice()) {
        assert(pv[0] == "."@);
        assert(pv.len() > 0);
        return Err(WebError::InvalidPath);
    }
    Ok(string_from_chars(raw.as_slice()))
}

/// The HTTP method of a request, as far as routing cares.
#[derive(Debug, Clone, Copy, PartialEq, Eq, Structural)]
pub enum WebMethod {
    Get,
    Post,
    Other,
}

/// What the server does with a request.
#[derive(Debug, Clone)]
pub enum WebRoute {
    /// Answer 401 with a Basic challenge.
    Unauthorized,
    /// Answer `{"ok": true}`.
    Health,
    /// Run a command with the request's JSON body.
    Invoke { command: String },
    /// Serve a static file for the request target.
    Static { url: String },
    /// Answer 405.
    MethodNotAllowed,
}

/// `str::trim_start_matches` with a text pattern: every leading repetition removed.
pub open spec fn spec_trim_start_matches(s: Seq<char>, pat: Seq<char>) -> Seq<char>
    decreases s.len(),
{
    if pat.len() > 0 && spec_starts_with(s, pat) {
        spec_trim_start_matches(s.skip(pat.len() as int), pat)
    } else {
        s
    }
}

/// Route a request: unauthorized requests are challenged; `GET /api/health` is the health
/// check; `POST /api/invoke/<command>` runs a command; other `GET`s serve static files; anything
/// else is not allowed.
pub fn route_request(authorized: bool, method: WebMethod, url: &str) -> (r: WebRoute)
    ensures
        !authorized ==> r is Unauthorized,
        authorized && method == WebMethod::Get && url@ == "/api/health"@ ==> r is Health,
        authorized && method == WebMethod::Post && spec_starts_with(url@, "/api/invoke/"@) ==> (
        r matches WebRoute::Invoke { command } && command@ == spec_trim_start_matches(
            url@,
            "/api/invoke/"@,
        )),
        authorized && method == WebMethod::Get && url@ != "/api/health"@ ==> (
        r matches WebRoute::Static { url: u } && u@ == url@),
        authorized && method == WebMethod::Post && !spec_starts_with(url@, "/api/invoke/"@) ==> r is MethodNotAllowed,
        authorized && method == WebMethod::Other ==> r is MethodNotAllowed,
{
    if !authorized {
        return WebRoute::Unauthorized;
    }
    let u = chars_of(url);
    if method == WebMethod::Get && str_eq(url, "/api/health") {
        return WebRoute::Health;
    }
    let prefix = chars_of("/api/invoke/");
    if method == WebMethod::Post && starts_with(u.as_slice(), prefix.as_slice()) {
        let mut rest = u;
        while prefix.len() > 0 && starts_with(rest.as_slice(), prefix.as_slice())
            invariant
                prefix@ == "/api/invoke/"@,
                spec_trim_start_matches(rest@, prefix@) == spec_trim_start_matches(url@, prefix@),
            decreases rest@.len(),
        {
            let next = sub_chars(rest.as_slice(), prefix.len(), rest.len());
            assert(next@ =~= rest@.skip(prefix@.len() as int));
            rest = next;
        }
        return WebRoute::Invoke { command: string_from_chars(rest.as_slice()) };
    }
    if method == WebMethod::Get {
        return WebRoute::Static { url: string_from_chars(u.as_slice()) };
    }
    WebRoute::MethodNotAllowed
}

/// The static file to serve: `index.html` for `/`, else the sanitized request path.
pub fn serve_static_target(url: &str) -> (r: Result<String, WebError>)
    ensures
        url@ == "/"@ ==> (r matches Ok(p) && p@ == "index.html"@),
        url@ != "/"@ ==> (spec_path_is_safe(spec_request_path(url@)) ==> (r matches Ok(p) && p@
            == spec_request_path(url@))),
        url@ != "/"@ ==> (!spec_path_is_safe(spec_request_path(url@)) ==> r == Err::<
            String,
            WebError,
        >(WebError::InvalidPath)),
{
    if str_eq(url, "/") {
        Ok(string_from_chars(chars_of("index.html").as_slice()))
    } else {
        sanitize_path(url)
    }
}

/// The commands the browser front end can run.
#[derive(Debug, Clone, Copy, PartialEq, Eq, Structural)]
pub enum WebCommand {
    ListAccounts,
    GetActiveAccountInfo,
    AddAccountFromFile,
    AddAccountFromAuthJsonText,
    GetUsage,
    RefreshAllAccountsUsage,
    WarmupAccount,
    WarmupAllAccounts,
    SwitchAccount,
    RestartCodexAndSwitchAccount,
    DeleteAccount,
    RenameAccount,
    StartLogin,
    CompleteLogin,
    CancelLogin,
    ExportAccountsSlimText,
    ImportAccountsSlimText,
    ExportAccountsFullEncryptedBytes,
    ImportAccountsFullEncryptedBytes,
    GetMaskedAccountIds,
    SetMaskedAccountIds,
    CheckCodexProcesses,
}

/// The command a name stands for.
pub open spec fn spec_web_command(name: Seq<char>) -> Option<WebCommand> {
    if name == "list_accounts"@ {
        Some(WebCommand::ListAccounts)
    } else if name == "get_active_account_info"@ {
        Some(WebCommand::GetActiveAccountInfo)
    } else if name == "add_account_from_file"@ {
        Some(WebCommand::AddAccountFromFile)
    } else if name == "add_account_from_auth_json_text"@ {
        Some(WebCommand::AddAccountFromAuthJsonText)
    } else if name == "get_usage"@ {
        Some(WebCommand::GetUsage)
    } else if name == "refresh_all_accounts_usage"@ {
        Some(WebCommand::RefreshAllAccountsUsage)
    } else if name == "warmup_account"@ {
        Some(WebCommand::WarmupAccount)
    } else if name == "warmup_all_accounts"@ {
        Some(WebCommand::WarmupAllAccounts)
    } else if name == "switch_account"@ {
        Some(WebCommand::SwitchAccount)
    } else if name == "restart_codex_and_switch_account"@ {
        Some(WebCommand::RestartCodexAndSwitchAccount)
    } else if name == "delete_account"@ {
        Some(WebCommand::DeleteAccount)
    } else if name == "rename_account"@ {
        Some(WebCommand::RenameAccount)
    } else if name == "start_login"@ {
        Some(WebCommand::StartLogin)
    } else if name == "complete_login"@ {
        Some(WebCommand::CompleteLogin)
    } else if name == "cancel_login"@ {
        Some(WebCommand::CancelLogin)
    } else if name == "export_accounts_slim_text"@ {
        Some(WebCommand::ExportAccountsSlimText)
    } else if name == "import_accounts_slim_text"@ {
        Some(WebCommand::ImportAccountsSlimText)
    } else if name == "export_accounts_full_encrypted_bytes"@ {
        Some(WebCommand::ExportAccountsFullEncryptedBytes)
    } else if name == "import_accounts_full_encrypted_bytes"@ {
        Some(WebCommand::ImportAccountsFullEncryptedBytes)
    } else if name == "get_masked_account_ids"@ {
        Some(WebCommand::GetMaskedAccountIds)
    } else if name == "set_masked_account_ids"@ {
        Some(WebCommand::SetMaskedAccountIds)
    } else if name == "check_codex_processes"@ {
        Some(WebCommand::CheckCodexProcesses)
    } else {
        None
    }
}

/// The name the web front end invokes each command by.
pub open spec fn spec_command_name(c: WebCommand) -> Seq<char> {
    match c {
        WebCommand::ListAccounts => "list_accounts"@,
        WebCommand::GetActiveAccountInfo => "get_active_account_info"@,
        WebCommand::AddAccountFromFile => "add_account_from_file"@,
        WebCommand::AddAccountFromAuthJsonText => "add_account_from_auth_json_text"@,
        WebCommand::GetUsage => "get_usage"@,
        WebCommand::RefreshAllAccountsUsage => "refresh_all_accounts_usage"@,
        WebCommand::WarmupAccount => "warmup_account"@,
        WebCommand::WarmupAllAccounts => "warmup_all_accounts"@,
        WebCommand::SwitchAccount => "switch_account"@,
        WebCommand::RestartCodexAndSwitchAccount => "restart_codex_and_switch_account"@,
        WebCommand::DeleteAccount => "delete_account"@,
        WebCommand::RenameAccount => "rename_account"@,
        WebCommand::StartLogin => "start_login"@,
        WebCommand::CompleteLogin => "complete_login"@,
        WebCommand::CancelLogin => "cancel_login"@,
        WebCommand::ExportAccountsSlimText => "export_accounts_slim_text"@,
        WebCommand::ImportAccountsSlimText => "import_accounts_slim_text"@,
        WebCommand::ExportAccountsFullEncryptedBytes => "export_accounts_full_encrypted_bytes"@,
        WebCommand::ImportAccountsFullEncryptedBytes => "import_accounts_full_encrypted_bytes"@,
        WebCommand::GetMaskedAccountIds => "get_masked_account_ids"@,
        WebCommand::SetMaskedAccountIds => "set_masked_account_ids"@,
        WebCommand::CheckCodexProcesses => "check_codex_processes"@,
    }
}

/// Every command the web front end offers is recognized by its name: looking up the name of
/// any command gives that command.
pub proof fn law_every_offered_command_is_recognized(c: WebCommand)
    ensures
        spec_web_command(spec_command_name(c)) == Some(c),
{
    reveal_strlit("list_accounts");
    reveal_strlit("get_active_account_info");
    reveal_strlit("add_account_from_file");
    reveal_strlit("add_account_from_auth_json_text");
    reveal_strlit("get_usage");
    reveal_strlit("refresh_all_accounts_usage");
    reveal_strlit("warmup_account");
    reveal_strlit("warmup_all_accounts");
    reveal_strlit("switch_account");
    reveal_strlit("restart_codex_and_switch_account");
    reveal_strlit("delete_account");
    reveal_strlit("rename_account");
    reveal_strlit("start_login");
    reveal_strlit("complete_login");
    reveal_strlit("cancel_login");
    reveal_strlit("export_accounts_slim_text");
    reveal_strlit("import_accounts_slim_text");
    reveal_strlit("export_accounts_full_encrypted_bytes");
    reveal_strlit("import_accounts_full_encrypted_bytes");
    reveal_strlit("get_masked_account_ids");
    reveal_strlit("set_masked_account_ids");
    reveal_strlit("check_codex_processes");
    match c {
        WebCommand::ListAccounts => {
            assert(spec_web_command("list_accounts"@) == Some(WebCommand::ListAccounts));
        },
        WebCommand::GetActiveAccountInfo => {
            assert("get_active_account_info"@.len() != "list_accounts"@.len());
            assert(spec_web_command("get_active_account_info"@) == Some(WebCommand::GetActiveAccountInfo));
        },
        WebCommand::AddAccountFromFile => {
            assert("add_account_from_file"@.len() != "list_accounts"@.len());
            assert("add_account_from_file"@.len() != "get_active_account_info"@.len());
            assert(spec_web_command("add_account_from_file"@) == Some(WebCommand::AddAccountFromFile));
        },
        WebCommand::AddAccountFromAuthJsonText => {
            assert("add_account_from_auth_json_text"@.len() != "list_accounts"@.len());
            assert("add_account_from_auth_json_text"@.len() != "get_active_account_info"@.len());
            assert("add_account_from_auth_json_text"@.len() != "add_account_from_file"@.len());
            assert(spec_web_command("add_account_from_auth_json_text"@) == Some(WebCommand::AddAccountFromAuthJsonText));
        },
        WebCommand::GetUsage => {
            assert("get_usage"@.len() != "list_accounts"@.len());
            assert("get_usage"@.len() != "get_active_account_info"@.len());
            assert("get_usage"@.len() != "add_account_from_file"@.len());
            assert("get_usage"@.len() != "add_account_from_auth_json_text"@.len());
            assert(spec_web_command("get_usage"@) == Some(WebCommand::GetUsage));
        },
        WebCommand::RefreshAllAccountsUsage => {
            assert("refresh_all_accounts_usage"@.len() != "list_accounts"@.len());
            assert("refresh_all_accounts_usage"@.len() != "get_active_account_info"@.len());
            assert("refresh_all_accounts_usage"@.len() != "add_account_from_file"@.len());
            assert("refresh_all_accounts_usage"@.len() != "add_account_from_auth_json_text"@.len());
            assert("refresh_all_accounts_usage"@.len() != "get_usage"@.len());
            assert(spec_web_command("refresh_all_accounts_usage"@) == Some(WebCommand::RefreshAllAccountsUsage));
        },
        WebCommand::WarmupAccount => {
            assert("warmup_account"@.len() != "list_accounts"@.len());
            assert("warmup_account"@.len() != "get_active_account_info"@.len());
            assert("warmup_account"@.len() != "add_account_from_file"@.len());
            assert("warmup_account"@.len() != "add_account_from_auth_json_text"@.len());
            assert("warmup_account"@.len() != "get_usage"@.len());
            assert("warmup_account"@.len() != "refresh_all_accounts_usage"@.len());
            assert(spec_web_command("warmup_account"@) == Some(WebCommand::WarmupAccount));
        },
        WebCommand::WarmupAllAccounts => {
            assert("warmup_all_accounts"@.len() != "list_accounts"@.len());
            assert("warmup_all_accounts"@.len() != "get_active_account_info"@.len());
            assert("warmup_all_accounts"@.len() != "add_account_from_file"@.len());
            assert("warmup_all_accounts"@.len() != "add_account_from_auth_json_text"@.len());
            assert("warmup_all_accounts"@.len() != "get_usage"@.len());
            assert("warmup_all_accounts"@.len() != "refresh_all_accounts_usage"@.len());
            assert("warmup_all_accounts"@.len() != "warmup_account"@.len());
            assert(spec_web_command("warmup_all_accounts"@) == Some(WebCommand::WarmupAllAccounts));
        },
        WebCommand::SwitchAccount => {
            assert("switch_account"@.len() != "list_accounts"@.len());
            assert("switch_account"@.len() != "get_active_account_info"@.len());
            assert("switch_account"@.len() != "add_account_from_file"@.len());
            assert("switch_account"@.len() != "add_account_from_auth_json_text"@.len());
            assert("switch_account"@.len() != "get_usage"@.len());
            assert("switch_account"@.len() != "refresh_all_accounts_usage"@.len());
            assert("switch_account"@[0] != "warmup_account"@[0]);
            assert("switch_account"@.len() != "warmup_all_accounts"@.len());
            assert(spec_web_command("switch_account"@) == Some(WebCommand::SwitchAccount));
        },
        WebCommand::RestartCodexAndSwitchAccount => {
            assert("restart_codex_and_switch_account"@.len() != "list_accounts"@.len());
            assert("restart_codex_and_switch_account"@.len() != "get_active_account_info"@.len());
            assert("restart_codex_and_switch_account"@.len() != "add_account_from_file"@.len());
            assert("restart_codex_and_switch_account"@.len() != "add_account_from_auth_json_text"@.len());
            assert("restart_codex_and_switch_account"@.len() != "get_usage"@.len());
            assert("restart_codex_and_switch_account"@.len() != "refresh_all_accounts_usage"@.len());
            assert("restart_codex_and_switch_account"@.len() != "warmup_account"@.len());
            assert("restart_codex_and_switch_account"@.len() != "warmup_all_accounts"@.len());
            assert("restart_codex_and_switch_account"@.len() != "switch_account"@.len());
            assert(spec_web_command("restart_codex_and_switch_account"@) == Some(WebCommand::RestartCodexAndSwitchAccount));
        },
        WebCommand::DeleteAccount => {
            assert("delete_account"@.len() != "list_accounts"@.len());
            assert("delete_account"@.len() != "get_active_account_info"@.len());
            assert("delete_account"@.len() != "add_account_from_file"@.len());
            assert("delete_account"@.len() != "add_account_from_auth_json_text"@.len());
            assert("delete_account"@.len() != "get_usage"@.len());
            assert("delete_account"@.len() != "refresh_all_accounts_usage"@.len());
            assert("delete_account"@[0] != "warmup_account"@[0]);
            assert("delete_account"@.len() != "warmup_all_accounts"@.len());
            assert("delete_account"@[0] != "switch_account"@[0]);
            assert("delete_account"@.len() != "restart_codex_and_switch_account"@.len());
            assert(spec_web_command("delete_account"@) == Some(WebCommand::DeleteAccount));
        },
        WebCommand::RenameAccount => {
            assert("rename_account"@.len() != "list_accounts"@.len());
            assert("rename_account"@.len() != "get_active_account_info"@.len());
            assert("rename_account"@.len() != "add_account_from_file"@.len());
            assert("rename_account"@.len() != "add_account_from_auth_json_text"@.len());
            assert("rename_account"@.len() != "get_usage"@.len());
            assert("rename_account"@.len() != "refresh_all_accounts_usage"@.len());
            assert("rename_account"@[0] != "warmup_account"@[0]);
            assert("rename_account"@.len() != "warmup_all_accounts"@.len());
            assert("rename_account"@[0] != "switch_account"@[0]);
            assert("rename_account"@.len() != "restart_codex_and_switch_account"@.len());
            assert("rename_account"@[0] != "delete_account"@[0]);
            assert(spec_web_command("rename_account"@) == Some(WebCommand::RenameAccount));
        },
        WebCommand::StartLogin => {
            assert("start_login"@.len() != "list_accounts"@.len());
            assert("start_login"@.len() != "get_active_account_info"@.len());
            assert("start_login"@.len() != "add_account_from_file"@.len());
            assert("start_login"@.len() != "add_account_from_auth_json_text"@.len());
            assert("start_login"@.len() != "get_usage"@.len());
            assert("start_login"@.len() != "refresh_all_accounts_usage"@.len());
            assert("start_login"@.len() != "warmup_account"@.len());
            assert("start_login"@.len() != "warmup_all_accounts"@.len());
            assert("start_login"@.len() != "switch_account"@.len());
            assert("start_login"@.len() != "restart_codex_and_switch_account"@.len());
            assert("start_login"@.len() != "delete_account"@.len());
            assert("start_login"@.len() != "rename_account"@.len());
            assert(spec_web_command("start_login"@) == Some(WebCommand::StartLogin));
        },
        WebCommand::CompleteLogin => {
            assert("complete_login"@.len() != "list_accounts"@.len());
            assert("complete_login"@.len() != "get_active_account_info"@.len());
            assert("complete_login"@.len() != "add_account_from_file"@.len());
            assert("complete_login"@.len() != "add_account_from_auth_json_text"@.len());
            assert("complete_login"@.len() != "get_usage"@.len());
            assert("complete_login"@.len() != "refresh_all_accounts_usage"@.len());
            assert("complete_login"@[0] != "warmup_account"@[0]);
            assert("complete_login"@.len() != "warmup_all_accounts"@.len());
            assert("complete_login"@[0] != "switch_account"@[0]);
            assert("complete_login"@.len() != "restart_codex_and_switch_account"@.len());
            assert("complete_login"@[0] != "delete_account"@[0]);
            assert("complete_login"@[0] != "rename_account"@[0]);
            assert("complete_login"@.len() != "start_login"@.len());
            assert(spec_web_command("complete_login"@) == Some(WebCommand::CompleteLogin));
        },
        WebCommand::CancelLogin => {
            assert("cancel_login"@.len() != "list_accounts"@.len());
            assert("cancel_login"@.len() != "get_active_account_info"@.len());
            assert("cancel_login"@.len() != "add_account_from_file"@.len());
            assert("cancel_login"@.len() != "add_account_from_auth_json_text"@.len());
            assert("cancel_login"@.len() != "get_usage"@.len());
            assert("cancel_login"@.len() != "refresh_all_accounts_usage"@.len());
            assert("cancel_login"@.len() != "warmup_account"@.len());
            assert("cancel_login"@.len() != "warmup_all_accounts"@.len());
            assert("cancel_login"@.len() != "switch_account"@.len());
            assert("cancel_login"@.len() != "restart_codex_and_switch_account"@.len());
            assert("cancel_login"@.len() != "delete_account"@.len());
            assert("cancel_login"@.len() != "rename_account"@.len());
            assert("cancel_login"@.len() != "start_login"@.len());
            assert("cancel_login"@.len() != "complete_login"@.len());
            assert(spec_web_command("cancel_login"@) == Some(WebCommand::CancelLogin));
        },
        WebCommand::ExportAccountsSlimText => {
            assert("export_accounts_slim_text"@.len() != "list_accounts"@.len());
            assert("export_accounts_slim_text"@.len() != "get_active_account_info"@.len());
            assert("export_accounts_slim_text"@.len() != "add_account_from_file"@.len());
            assert("export_accounts_slim_text"@.len() != "add_account_from_auth_json_text"@.len());
            assert("export_accounts_slim_text"@.len() != "get_usage"@.len());
            assert("export_accounts_slim_text"@.len() != "refresh_all_accounts_usage"@.len());
            assert("export_accounts_slim_text"@.len() != "warmup_account"@.len());
            assert("export_accounts_slim_text"@.len() != "warmup_all_accounts"@.len());
            assert("export_accounts_slim_text"@.len() != "switch_account"@.len());
            assert("export_accounts_slim_text"@.len() != "restart_codex_and_switch_account"@.len());
            assert("export_accounts_slim_text"@.len() != "delete_account"@.len());
            assert("export_accounts_slim_text"@.len() != "rename_account"@.len());
            assert("export_accounts_slim_text"@.len() != "start_login"@.len());
            assert("export_accounts_slim_text"@.len() != "complete_login"@.len());
            assert("export_accounts_slim_text"@.len() != "cancel_login"@.len());
            assert(spec_web_command("export_accounts_slim_text"@) == Some(WebCommand::ExportAccountsSlimText));
        },
        WebCommand::ImportAccountsSlimText => {
            assert("import_accounts_slim_text"@.len() != "list_accounts"@.len());
            assert("import_accounts_slim_text"@.len() != "get_active_account_info"@.len());
            assert("import_accounts_slim_text"@.len() != "add_account_from_file"@.len());
            assert("import_accounts_slim_text"@.len() != "add_account_from_auth_json_text"@.len());
            assert("import_accounts_slim_text"@.len() != "get_usage"@.len());
            assert("import_accounts_slim_text"@.len() != "refresh_all_accounts_usage"@.len());
            assert("import_accounts_slim_text"@.len() != "warmup_account"@.len());
            assert("import_accounts_slim_text"@.len() != "warmup_all_accounts"@.len());
            assert("import_accounts_slim_text"@.len() != "switch_account"@.len());
            assert("import_accounts_slim_text"@.len() != "restart_codex_and_switch_account"@.len());
            assert("import_accounts_slim_text"@.len() != "delete_account"@.len());
            assert("import_accounts_slim_text"@.len() != "rename_account"@.len());
            assert("import_accounts_slim_text"@.len() != "start_login"@.len());
            assert("import_accounts_slim_text"@.len() != "complete_login"@.len());
            assert("import_accounts_slim_text"@.len() != "cancel_login"@.len());
            assert("import_accounts_slim_text"@[0] != "export_accounts_slim_text"@[0]);
            assert(spec_web_command("import_accounts_slim_text"@) == Some(WebCommand::ImportAccountsSlimText));
        },
        WebCommand::ExportAccountsFullEncryptedBytes => {
            assert("export_accounts_full_encrypted_bytes"@.len() != "list_accounts"@.len());
            assert("export_accounts_full_encrypted_bytes"@.len() != "get_active_account_info"@.len());
            assert("export_accounts_full_encrypted_bytes"@.len() != "add_account_from_file"@.len());
            assert("export_accounts_full_encrypted_bytes"@.len() != "add_account_from_auth_json_text"@.len());
            assert("export_accounts_full_encrypted_bytes"@.len() != "get_usage"@.len());
            assert("export_accounts_full_encrypted_bytes"@.len() != "refresh_all_accounts_usage"@.len());
            assert("export_accounts_full_encrypted_bytes"@.len() != "warmup_account"@.len());
            assert("export_accounts_full_encrypted_bytes"@.len() != "warmup_all_accounts"@.len());
            assert("export_accounts_full_encrypted_bytes"@.len() != "switch_account"@.len());
            assert("export_accounts_full_encrypted_bytes"@.len() != "restart_codex_and_switch_account"@.len());
            assert("export_accounts_full_encrypted_bytes"@.len() != "delete_account"@.len());
            assert("export_accounts_full_encrypted_bytes"@.len() != "rename_account"@.len());
            assert("export_accounts_full_encrypted_bytes"@.len() != "start_login"@.len());
            assert("export_accounts_full_encrypted_bytes"@.len() != "complete_login"@.len());
            assert("export_accounts_full_encrypted_bytes"@.len() != "cancel_login"@.len());
            assert("export_accounts_full_encrypted_bytes"@.len() != "export_accounts_slim_text"@.len());
            assert("export_accounts_full_encrypted_bytes"@.len() != "import_accounts_slim_text"@.len());
            assert(spec_web_command("export_accounts_full_encrypted_bytes"@) == Some(WebCommand::ExportAccountsFullEncryptedBytes));
        },
        WebCommand::ImportAccountsFullEncryptedBytes => {
            assert("import_accounts_full_encrypted_bytes"@.len() != "list_accounts"@.len());
            assert("import_accounts_full_encrypted_bytes"@.len() != "get_active_account_info"@.len());
            assert("import_accounts_full_encrypted_bytes"@.len() != "add_account_from_file"@.len());
            assert("import_accounts_full_encrypted_bytes"@.len() != "add_account_from_auth_json_text"@.len());
            assert("import_accounts_full_encrypted_bytes"@.len() != "get_usage"@.len());
            assert("import_accounts_full_encrypted_bytes"@.len() != "refresh_all_accounts_usage"@.len());
            assert("import_accounts_full_encrypted_bytes"@.len() != "warmup_account"@.len());
            assert("import_accounts_full_encrypted_bytes"@.len() != "warmup_all_accounts"@.len());
            assert("import_accounts_full_encrypted_bytes"@.len() != "switch_account"@.len());
            assert("import_accounts_full_encrypted_bytes"@.len() != "restart_codex_and_switch_account"@.len());
            assert("import_accounts_full_encrypted_bytes"@.len() != "delete_account"@.len());
            assert("import_accounts_full_encrypted_bytes"@.len() != "rename_account"@.len());
            assert("import_accounts_full_encrypted_bytes"@.len() != "start_login"@.len());
            assert("import_accounts_full_encrypted_bytes"@.len() != "complete_login"@.len());
            assert("import_accounts_full_encrypted_bytes"@.len() != "cancel_login"@.len());
            assert("import_accounts_full_encrypted_bytes"@.len() != "export_accounts_slim_text"@.len());
            assert("import_accounts_full_encrypted_bytes"@.len() != "import_accounts_slim_text"@.len());
            assert("import_accounts_full_encrypted_bytes"@[0] != "export_accounts_full_encrypted_bytes"@[0]);
            assert(spec_web_command("import_accounts_full_encrypted_bytes"@) == Some(WebCommand::ImportAccountsFullEncryptedBytes));
        },
        WebCommand::GetMaskedAccountIds => {
            assert("get_masked_account_ids"@.len() != "list_accounts"@.len());
            assert("get_masked_account_ids"@.len() != "get_active_account_info"@.len());
            assert("get_masked_account_ids"@.len() != "add_account_from_file"@.len());
            assert("get_masked_account_ids"@.len() != "add_account_from_auth_json_text"@.len());
            assert("get_masked_account_ids"@.len() != "get_usage"@.len());
            assert("get_masked_account_ids"@.len() != "refresh_all_accounts_usage"@.len());
            assert("get_masked_account_ids"@.len() != "warmup_account"@.len());
            assert("get_masked_account_ids"@.len() != "warmup_all_accounts"@.len());
            assert("get_masked_account_ids"@.len() != "switch_account"@.len());
            assert("get_masked_account_ids"@.len() != "restart_codex_and_switch_account"@.len());
            assert("get_masked_account_ids"@.len() != "delete_account"@.len());
            assert("get_masked_account_ids"@.len() != "rename_account"@.len());
            assert("get_masked_account_ids"@.len() != "start_login"@.len());
            assert("get_masked_account_ids"@.len() != "complete_login"@.len());
            assert("get_masked_account_ids"@.len() != "cancel_login"@.len());
            assert("get_masked_account_ids"@.len() != "export_accounts_slim_text"@.len());
            assert("get_masked_account_ids"@.len() != "import_accounts_slim_text"@.len());
            assert("get_masked_account_ids"@.len() != "export_accounts_full_encrypted_bytes"@.len());
            assert("get_masked_account_ids"@.len() != "import_accounts_full_encrypted_bytes"@.len());
            assert(spec_web_command("get_masked_account_ids"@) == Some(WebCommand::GetMaskedAccountIds));
        },
        WebCommand::SetMaskedAccountIds => {
            assert("set_masked_account_ids"@.len() != "list_accounts"@.len());
            assert("set_masked_account_ids"@.len() != "get_active_account_info"@.len());
            assert("set_masked_account_ids"@.len() != "add_account_from_file"@.len());
            assert("set_masked_account_ids"@.len() != "add_account_from_auth_json_text"@.len());
            assert("set_masked_account_ids"@.len() != "get_usage"@.len());
            assert("set_masked_account_ids"@.len() != "refresh_all_accounts_usage"@.len());
            assert("set_masked_account_ids"@.len() != "warmup_account"@.len());
            assert("set_masked_account_ids"@.len() != "warmup_all_accounts"@.len());
            assert("set_masked_account_ids"@.len() != "switch_account"@.len());
            assert("set_masked_account_ids"@.len() != "restart_codex_and_switch_account"@.len());
            assert("set_masked_account_ids"@.len() != "delete_account"@.len());
            assert("set_masked_account_ids"@.len() != "rename_account"@.len());
            assert("set_masked_account_ids"@.len() != "start_login"@.len());
            assert("set_masked_account_ids"@.len() != "complete_login"@.len());
            assert("set_masked_account_ids"@.len() != "cancel_login"@.len());
            assert("set_masked_account_ids"@.len() != "export_accounts_slim_text"@.len());
            assert("set_masked_account_ids"@.len() != "import_accounts_slim_text"@.len());
            assert("set_masked_account_ids"@.len() != "export_accounts_full_encrypted_bytes"@.len());
            assert("set_masked_account_ids"@.len() != "import_accounts_full_encrypted_bytes"@.len());
            assert("set_masked_account_ids"@[0] != "get_masked_account_ids"@[0]);
            assert(spec_web_command("set_masked_account_ids"@) == Some(WebCommand::SetMaskedAccountIds));
        },
        WebCommand::CheckCodexProcesses => {
            assert("check_codex_processes"@.len() != "list_accounts"@.len());
            assert("check_codex_processes"@.len() != "get_active_account_info"@.len());
            assert("check_codex_processes"@[0] != "add_account_from_file"@[0]);
            assert("check_codex_processes"@.len() != "add_account_from_auth_json_text"@.len());
            assert("check_codex_processes"@.len() != "get_usage"@.len());
            assert("check_codex_processes"@.len() != "refresh_all_accounts_usage"@.len());
            assert("check_codex_processes"@.len() != "warmup_account"@.len());
            assert("check_codex_processes"@.len() != "warmup_all_accounts"@.len());
            assert("check_codex_processes"@.len() != "switch_account"@.len());
            assert("check_codex_processes"@.len() != "restart_codex_and_switch_account"@.len());
            assert("check_codex_processes"@.len() != "delete_account"@.len());
            assert("check_codex_processes"@.len() != "rename_account"@.len());
            assert("check_codex_processes"@.len() != "start_login"@.len());
            assert("check_codex_processes"@.len() != "complete_login"@.len());
            assert("check_codex_processes"@.len() != "cancel_login"@.len());
            assert("check_codex_processes"@.len() != "export_accounts_slim_text"@.len());
            assert("check_codex_processes"@.len() != "import_accounts_slim_text"@.len());
            assert("check_codex_processes"@.len() != "export_accounts_full_encrypted_bytes"@.len());
            assert("check_codex_processes"@.len() != "import_accounts_full_encrypted_bytes"@.len());
            assert("check_codex_processes"@.len() != "get_masked_account_ids"@.len());
            assert("check_codex_processes"@.len() != "set_masked_account_ids"@.len());
            assert(spec_web_command("check_codex_processes"@) == Some(WebCommand::CheckCodexProcesses));
        },
    }
}

/// Look a command up by name; an unknown name is refused.
pub fn invoke_web_command(command: &str) -> (r: Result<WebCommand, WebError>)
    ensures
        match spec_web_command(command@) {
            Some(c) => r == Ok::<WebCommand, WebError>(c),
            None => r matches Err(WebError::UnsupportedCommand(name)) && name@ == command@,
        },
        forall|c: WebCommand| command@ == #[trigger] spec_command_name(c) ==> r == Ok::<
            WebCommand,
            WebError,
        >(c),
{
    proof {
        assert forall|c: WebCommand| command@ == #[trigger] spec_command_name(c) implies spec_web_command(
            command@,
        ) == Some(c) by {
            law_every_offered_command_is_recognized(c);
        }
    }
    if str_eq(command, "list_accounts") {
        Ok(WebCommand::ListAccounts)
    } else if str_eq(command, "get_active_account_info") {
        Ok(WebCommand::GetActiveAccountInfo)
    } else if str_eq(command, "add_account_from_file") {
        Ok(WebCommand::AddAccountFromFile)
    } else if str_eq(command, "add_account_from_auth_json_text") {
        Ok(WebCommand::AddAccountFromAuthJsonText)
    } else if str_eq(command, "get_usage") {
        Ok(WebCommand::GetUsage)
    } else if str_eq(command, "refresh_all_accounts_usage") {
        Ok(WebCommand::RefreshAllAccountsUsage)
    } else if str_eq(command, "warmup_account") {
        Ok(WebCommand::WarmupAccount)
    } else if str_eq(command, "warmup_all_accounts") {
        Ok(WebCommand::WarmupAllAccounts)
    } else if str_eq(command, "switch_account") {
        Ok(WebCommand::SwitchAccount)
    } else if str_eq(command, "restart_codex_and_switch_account") {
        Ok(WebCommand::RestartCodexAndSwitchAccount)
    } else if str_eq(command, "delete_account") {
        Ok(WebCommand::DeleteAccount)
    } else if str_eq(command, "rename_account") {
        Ok(WebCommand::RenameAccount)
    } else if str_eq(command, "start_login") {
        Ok(WebCommand::StartLogin)
    } else if str_eq(command, "complete_login") {
        Ok(WebCommand::CompleteLogin)
    } else if str_eq(command, "cancel_login") {
        Ok(WebCommand::CancelLogin)
    } else if str_eq(command, "export_accounts_slim_text") {
        Ok(WebCommand::ExportAccountsSlimText)
    } else if str_eq(command, "import_accounts_slim_text") {
        Ok(WebCommand::ImportAccountsSlimText)
    } else if str_eq(command, "export_accounts_full_encrypted_bytes") {
        Ok(WebCommand::ExportAccountsFullEncryptedBytes)
    } else if str_eq(command, "import_accounts_full_encrypted_bytes") {
        Ok(WebCommand::ImportAccountsFullEncryptedBytes)
    } else if str_eq(command, "get_masked_account_ids") {
        Ok(WebCommand::GetMaskedAccountIds)
    } else if str_eq(command, "set_masked_account_ids") {
        Ok(WebCommand::SetMaskedAccountIds)
    } else if str_eq(command, "check_codex_processes") {
        Ok(WebCommand::CheckCodexProcesses)
    } else {
        Err(WebError::UnsupportedCommand(string_from_chars(chars_of(command).as_slice())))
    }
}

/// Settings of the web server.
#[derive(Debug, Clone, PartialEq, Eq)]
pub struct WebServerSettings {
    pub host: String,
    pub port: u16,
    pub password: Option<String>,
}

/// The settings from the environment's values: the host (default `127.0.0.1`), the port when it
/// parses as one (default 3210), and the password, or else the legacy token, unless blank.
pub fn web_server_settings(
    host: Option<String>,
    port: Option<String>,
    password: Option<String>,
    token: Option<String>,
) -> (r: WebServerSettings)
    ensures
        r.host@ == match host {
            Some(h) => h@,
            None => "127.0.0.1"@,
        },
        r.port == match port {
            Some(p) => match spec_parse_unsigned(p@, 65535) {
                Some(v) => v as u16,
                None => 3210u16,
            },
            None => 3210u16,
        },
        opt_view(r.password) == match (match password {
            Some(p) => Some(p),
            None => token,
        }) {
            Some(p) => if spec_is_blank(p@) {
                None
            } else {
                Some(p@)
            },
            None => None,
        },
{
    let host = match host {
        Some(h) => h,
        None => string_from_chars(chars_of("127.0.0.1").as_slice()),
    };
    let port: u16 = match port {
        Some(p) => {
            let c = chars_of(p.as_str());
            match parse_unsigned(c.as_slice(), 65535) {
                Some(v) => v as u16,
                None => 3210,
            }
        },
        None => 3210,
    };
    let chosen = match password {
        Some(p) => Some(p),
        None => token,
    };
    let password = match chosen {
        Some(p) => if is_blank(p.as_str()) {
            None
        } else {
            Some(p)
        },
        None => None,
    };
    WebServerSettings { host, port, password }
}

/// Why the web server refuses to start.
#[derive(Debug, Clone, PartialEq, Eq)]
pub enum WebSettingsError {
    /// A host other than loopback without a password.
    ExposedWithoutPassword { host: String },
}

/// A host names this machine: `localhost` in any ASCII case, or an address that is a loopback
/// address (`address_is_loopback`: the host parses as an IP address and that address is a
/// loopback one).
pub fn is_loopback_host(host: &str, address_is_loopback: bool) -> (r: bool)
    ensures
        r == (crate::text::spec_lower(host@) == "localhost"@ || address_is_loopback),
{
    let lowered = crate::text::lower_chars(crate::text::chars_of(host).as_slice());
    let name = crate::text::string_from_chars(lowered.as_slice());
    crate::text::str_eq(name.as_str(), "localhost") || address_is_loopback
}

/// A server reachable from other machines must require a password.
pub fn validate_web_server_settings(settings: &WebServerSettings, host_is_loopback: bool) -> (r:
    Result<(), WebSettingsError>)
    ensures
        r is Ok <==> (host_is_loopback || settings.password is Some),
        r matches Err(WebSettingsError::ExposedWithoutPassword { host }) ==> host == settings.host,
{
    if !host_is_loopback && settings.password.is_none() {
        return Err(WebSettingsError::ExposedWithoutPassword { host: clone_string(&settings.host) });
    }
    Ok(())
}

} // verus!
