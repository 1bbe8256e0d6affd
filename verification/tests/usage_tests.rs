use codex_switcher::types::RateLimitResetCredits;
use codex_switcher::usage::{
    banked_resets, extract_chatgpt_account_metadata, request_concurrency, truncate_text,
    truncate_to_char_boundary, window_minutes, AccountsCheckEntry, UsageError,
};

fn entry(plan_type: &str, expires_at: &str) -> AccountsCheckEntry {
    AccountsCheckEntry {
        plan_type: Some(plan_type.to_string()),
        expires_at: Some(expires_at.to_string()),
    }
}

#[test]
fn extracts_subscription_metadata_for_the_exact_requested_account() {
    let payload = vec![
        ("default".to_string(), entry("free", "2030-01-01T00:00:00Z")),
        ("acct-target".to_string(), entry("plus", "2026-09-12T05:30:00Z")),
    ];

    let metadata =
        extract_chatgpt_account_metadata(&payload, "acct-target").expect("target account metadata");

    assert_eq!(metadata.plan_type.as_deref(), Some("plus"));
    assert_eq!(
        metadata.subscription_expires_at,
        Some("2026-09-12T05:30:00+00:00".to_string())
    );
}

#[test]
fn rejects_metadata_for_a_different_account() {
    let payload = vec![("acct-other".to_string(), entry("plus", "2026-09-12T05:30:00Z"))];

    let error = extract_chatgpt_account_metadata(&payload, "acct-target")
        .expect_err("metadata from another account must not be accepted");

    assert!(error.message().contains("did not include the requested account"));
}

#[test]
fn accepts_a_sole_default_account_entry() {
    let payload = vec![("default".to_string(), entry("plus", "2026-09-12T05:30:00Z"))];

    let metadata = extract_chatgpt_account_metadata(&payload, "acct-target")
        .expect("a sole default entry belongs to the authenticated account");

    assert_eq!(metadata.plan_type.as_deref(), Some("plus"));
    assert_eq!(
        metadata.subscription_expires_at,
        Some("2026-09-12T05:30:00+00:00".to_string())
    );
}

#[test]
fn rejects_default_fallback_when_multiple_accounts_are_returned() {
    let payload = vec![
        ("default".to_string(), entry("plus", "2026-09-12T05:30:00Z")),
        ("acct-other".to_string(), entry("pro", "2026-10-15T05:30:00Z")),
    ];

    let error = extract_chatgpt_account_metadata(&payload, "acct-target")
        .expect_err("a default entry is ambiguous when other accounts are present");

    assert!(error.message().contains("did not include the requested account"));
}

#[test]
fn metadata_with_an_unreadable_entitlement_end_is_refused() {
    let payload = vec![("acct-target".to_string(), entry("plus", "next tuesday"))];
    assert_eq!(
        extract_chatgpt_account_metadata(&payload, "acct-target"),
        Err(UsageError::InvalidExpiry)
    );
}

#[test]
fn truncates_multibyte_text_without_panicking() {
    // "é" is 2 bytes in UTF-8; cutting at byte 3 would split the second char.
    assert_eq!(truncate_text("ééééé", 3), "é...");
    assert_eq!(truncate_to_char_boundary("ééééé", 3), "é");
    assert_eq!(truncate_text("abc", 3), "abc");
}

#[test]
fn maps_banked_reset_count_from_usage_payload() {
    let credits = Some(RateLimitResetCredits { available_count: Some(3) });
    assert_eq!(banked_resets(credits), Some(3));
    assert_eq!(banked_resets(None), None);
}

#[test]
fn window_length_rounds_up_to_minutes() {
    assert_eq!(window_minutes(18_000), 300);
    assert_eq!(window_minutes(61), 2);
    assert_eq!(window_minutes(0), 0);
    assert_eq!(window_minutes(-120), -1);
}

#[test]
fn concurrency_is_between_one_and_ten() {
    assert_eq!(request_concurrency(0), 1);
    assert_eq!(request_concurrency(4), 4);
    assert_eq!(request_concurrency(40), 10);
}
