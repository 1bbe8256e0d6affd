use codex_switcher::web::{accept_request_body, is_loopback_host, request_body_read_limit};
use base64::engine::general_purpose::STANDARD;
use base64::Engine as _;
use codex_switcher::web::{
    basic_auth_matches, invoke_web_command, mime_type_for_path, read_request_body_limited,
    request_is_authorized, route_request, sanitize_path, security_header_specs_for_path,
    serve_static_target, validate_web_server_settings, web_server_settings, WebCommand, WebError,
    WebMethod, WebRoute, WebServerSecurity, BASIC_AUTH_USERNAME, WEB_CONTENT_SECURITY_POLICY,
};
use std::io::Cursor;

#[test]
fn basic_auth_requires_expected_username_and_password() {
    let encoded = STANDARD.encode(format!("{BASIC_AUTH_USERNAME}:super-secret"));
    assert!(basic_auth_matches(&encoded, "super-secret"));
    assert!(!basic_auth_matches(&encoded, "wrong-secret"));

    let wrong_user = STANDARD.encode("not-codex:super-secret");
    assert!(!basic_auth_matches(&wrong_user, "super-secret"));
    assert!(!basic_auth_matches("not-base64", "super-secret"));
}

#[test]
fn request_body_reader_rejects_oversized_payloads() {
    let mut accepted = Cursor::new("abcd");
    assert_eq!(
        read_request_body_limited(&mut accepted, 4).expect("body should fit"),
        "abcd"
    );

    let mut rejected = Cursor::new("abcde");
    assert!(read_request_body_limited(&mut rejected, 4).is_err());
}

#[test]
fn html_static_files_get_csp_header() {
    let headers = security_header_specs_for_path("index.html");
    assert!(headers.contains(&("Content-Security-Policy", WEB_CONTENT_SECURITY_POLICY)));
    assert!(headers.contains(&("X-Content-Type-Options", "nosniff")));

    let asset_headers = security_header_specs_for_path("app.js");
    assert!(!asset_headers
        .iter()
        .any(|(name, _)| *name == "Content-Security-Policy"));
    assert!(asset_headers.contains(&("X-Content-Type-Options", "nosniff")));
}

#[test]
fn authorization_header_must_carry_basic_credentials() {
    let header = format!("Basic {}", STANDARD.encode("codex:pw"));
    assert!(request_is_authorized(Some(&header), Some("pw")));
    assert!(!request_is_authorized(None, Some("pw")));
    assert!(!request_is_authorized(Some("Bearer pw"), Some("pw")));
    assert!(request_is_authorized(None, None));
}

#[test]
fn server_security_keeps_the_password() {
    let open = WebServerSecurity::new(None);
    assert!(!open.basic_auth_enabled());
    let closed = WebServerSecurity::new(Some("pw".to_string()));
    assert!(closed.basic_auth_enabled());
    assert_eq!(closed.basic_auth_password(), Some("pw"));
}

#[test]
fn static_paths_cannot_leave_the_directory() {
    assert_eq!(sanitize_path("/app.js?v=1").expect("safe"), "app.js");
    assert_eq!(sanitize_path("/assets/./logo.png").expect("safe"), "assets/./logo.png");
    assert_eq!(sanitize_path("/../secret"), Err(WebError::InvalidPath));
    assert_eq!(sanitize_path("/a\\..\\b"), Err(WebError::InvalidPath));
    assert_eq!(sanitize_path("/./x"), Err(WebError::InvalidPath));
    assert_eq!(serve_static_target("/").expect("index"), "index.html");
}

#[test]
fn requests_are_routed_by_method_and_path() {
    assert!(matches!(route_request(false, WebMethod::Get, "/"), WebRoute::Unauthorized));
    assert!(matches!(route_request(true, WebMethod::Get, "/api/health"), WebRoute::Health));
    assert!(matches!(
        route_request(true, WebMethod::Post, "/api/invoke/list_accounts"),
        WebRoute::Invoke { command } if command == "list_accounts"
    ));
    assert!(matches!(
        route_request(true, WebMethod::Get, "/app.js"),
        WebRoute::Static { url } if url == "/app.js"
    ));
    assert!(matches!(route_request(true, WebMethod::Other, "/"), WebRoute::MethodNotAllowed));
    assert!(matches!(route_request(true, WebMethod::Post, "/x"), WebRoute::MethodNotAllowed));
}

#[test]
fn commands_are_known_by_name() {
    assert_eq!(invoke_web_command("list_accounts"), Ok(WebCommand::ListAccounts));
    assert!(invoke_web_command("format_disk").is_err());
}

#[test]
fn mime_types_follow_the_extension() {
    assert_eq!(mime_type_for_path("index.html"), "text/html; charset=utf-8");
    assert_eq!(mime_type_for_path("logo.png"), "image/png");
    assert_eq!(mime_type_for_path("blob"), "application/octet-stream");
}

#[test]
fn web_server_defaults_to_loopback() {
    let settings = web_server_settings(None, None, None, None);
    assert_eq!(settings.host, "127.0.0.1");
    assert_eq!(settings.port, 3210);
    assert!(settings.password.is_none());
    assert!(validate_web_server_settings(&settings, true).is_ok());
}

#[test]
fn web_server_accepts_password_from_primary_env_var() {
    let settings = web_server_settings(
        Some("0.0.0.0".to_string()),
        Some("8080".to_string()),
        Some("pw".to_string()),
        Some("legacy".to_string()),
    );
    assert_eq!(settings.port, 8080);
    assert_eq!(settings.password.as_deref(), Some("pw"));
    assert!(validate_web_server_settings(&settings, false).is_ok());
}

#[test]
fn web_server_falls_back_to_legacy_token_alias() {
    let settings = web_server_settings(None, Some("not-a-port".to_string()), None, Some("legacy".to_string()));
    assert_eq!(settings.port, 3210);
    assert_eq!(settings.password.as_deref(), Some("legacy"));
}

#[test]
fn non_loopback_without_password_is_rejected() {
    let settings = web_server_settings(Some("0.0.0.0".to_string()), None, Some("  ".to_string()), None);
    assert!(settings.password.is_none());
    assert!(validate_web_server_settings(&settings, false).is_err());
}

#[test]
fn non_loopback_with_password_is_allowed() {
    let settings = web_server_settings(Some("0.0.0.0".to_string()), None, Some("secret".to_string()), None);
    assert_eq!(settings.host, "0.0.0.0");
    assert!(validate_web_server_settings(&settings, false).is_ok());
}

#[test]
fn read_bodies_are_accepted_within_the_limit() {
    assert_eq!(accept_request_body(Some("abcd".to_string()), 4), Ok("abcd".to_string()));
    assert_eq!(
        accept_request_body(Some("ééé".to_string()), 5),
        Err(WebError::BodyTooLarge { max_bytes: 5 })
    );
    assert_eq!(accept_request_body(None, 4), Err(WebError::BodyUnreadable));
}

#[test]
fn the_body_read_goes_one_byte_past_the_limit() {
    assert_eq!(request_body_read_limit(4), 5);
    assert_eq!(request_body_read_limit(0), 1);
}

/// The loopback status of the address each host parses to (none for `localhost`).
fn address_is_loopback(host: &str) -> bool {
    matches!(host, "127.0.0.1" | "::1")
}

#[test]
fn loopback_host_detection_covers_common_inputs() {
    let check = |host: &str| is_loopback_host(host, address_is_loopback(host));
    assert!(check("127.0.0.1"));
    assert!(check("::1"));
    assert!(check("localhost"));
    assert!(!check("0.0.0.0"));
    assert!(!check("192.168.1.25"));
    assert!(is_loopback_host("LocalHost", false));
}
