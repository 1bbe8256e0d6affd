//! Usage and warm-up helpers: cutting text to a byte budget without splitting a character,
//! rate-limit window lengths, which account a metadata response describes, which plan to keep
//! from a usage report, and the summaries kept after a round of requests. HTTP and JSON
//! encoding are the caller's part.

use vstd::prelude::*;

use crate::jwt::{rfc3339_utc, spec_rfc3339_utc, resolved_chatgpt_account_id, spec_resolved_account_id, ConflictingAccountIds};
use crate::text::{chars_of, concat_chars, spec_trim, str_eq, string_from_chars, sub_chars, trim};
use crate::types::{
    clone_opt_string, clone_string, opt_view, AuthData, CreditStatusDetails, RateLimitResetCredits, StoredAccount,
    WarmupSummary,
};

verus! {

/// Bytes of a character in UTF-8.
pub open spec fn spec_utf8_width(c: char) -> nat {
    let u = c as u32;
    if u < 0x80 {
        1
    } else if u < 0x800 {
        2
    } else if u < 0x10000 {
        3
    } else {
        4
    }
}

/// Bytes of a text in UTF-8.
pub open spec fn spec_utf8_len(s: Seq<char>) -> nat
    decreases s.len(),
{
    if s.len() == 0 {
        0
    } else {
        spec_utf8_width(s[0]) + spec_utf8_len(s.drop_first())
    }
}

/// The byte count above is the length of the UTF-8 encoding.
pub proof fn lemma_utf8_len(s: Seq<char>)
    ensures
        spec_utf8_len(s) == vstd::utf8::encode_utf8(s).len(),
    decreases s.len(),
{
    if s.len() > 0 {
        vstd::utf8::char_is_scalar(s[0]);
        lemma_utf8_len(s.drop_first());
    }
}

pub proof fn lemma_utf8_len_append(a: Seq<char>, b: Seq<char>)
    ensures
        spec_utf8_len(a + b) == spec_utf8_len(a) + spec_utf8_len(b),
    decreases a.len(),
{
    if a.len() > 0 {
        assert((a + b).drop_first() =~= a.drop_first() + b);
        lemma_utf8_len_append(a.drop_first(), b);
    }
}

proof fn lemma_utf8_len_push(s: Seq<char>, i: int)
    requires
        0 <= i < s.len(),
    ensures
        spec_utf8_len(s.take(i + 1)) == spec_utf8_len(s.take(i)) + spec_utf8_width(s[i]),
{
    assert(s.take(i + 1) =~= s.take(i) + seq![s[i]]);
    lemma_utf8_len_append(s.take(i), seq![s[i]]);
    assert(seq![s[i]].drop_first() =~= Seq::<char>::empty());
    assert(spec_utf8_len(Seq::<char>::empty()) == 0);
    assert(spec_utf8_len(seq![s[i]]) == spec_utf8_width(s[i]) + spec_utf8_len(
        seq![s[i]].drop_first(),
    ));
}

fn utf8_width(c: char) -> (r: usize)
    ensures
        r == spec_utf8_width(c),
{
    let u = c as u32;
    if u < 0x80 {
        1
    } else if u < 0x800 {
        2
    } else if u < 0x10000 {
        3
    } else {
        4
    }
}

/// The longest prefix of `text` whose UTF-8 encoding takes at most `max_len` bytes: `text` cut
/// at the last character boundary at or before byte `max_len`.
pub fn truncate_to_char_boundary(text: &str, max_len: usize) -> (r: String)
    ensures
        r@.len() <= text@.len(),
        r@ == text@.take(r@.len() as int),
        spec_utf8_len(r@) <= max_len,
        r@.len() < text@.len() ==> spec_utf8_len(text@.take(r@.len() as int + 1)) > max_len,
{
    let chars = chars_of(text);
    let mut k: usize = 0;
    let mut used: usize = 0;
    assert(chars@.take(0) =~= Seq::<char>::empty());
    while k < chars.len() && utf8_width(chars[k]) <= max_len - used
        invariant
            k <= chars@.len(),
            chars@ == text@,
            used == spec_utf8_len(chars@.take(k as int)),
            used <= max_len,
        decreases chars@.len() - k,
    {
        let w = utf8_width(chars[k]);
        proof {
            lemma_utf8_len_push(chars@, k as int);
        }
        used = used + w;
        k += 1;
    }
    proof {
        if k < chars@.len() {
            lemma_utf8_len_push(chars@, k as int);
        }
    }
    let out = sub_chars(chars.as_slice(), 0, k);
    assert(out@ =~= text@.take(k as int));
    string_from_chars(out.as_slice())
}

/// `text` when it fits `max_len` UTF-8 bytes, else its longest fitting prefix followed by `...`.
pub fn truncate_text(text: &str, max_len: usize) -> (r: String)
    ensures
        spec_utf8_len(text@) <= max_len ==> r@ == text@,
        spec_utf8_len(text@) > max_len ==> exists|k: int|
            0 <= k < text@.len() && r@ == text@.take(k) + "..."@ && spec_utf8_len(text@.take(k))
                <= max_len && spec_utf8_len(text@.take(k + 1)) > max_len,
{
    let cut = truncate_to_char_boundary(text, max_len);
    let c = chars_of(cut.as_str());
    let whole = chars_of(text);
    if c.len() == whole.len() {
        proof {
            assert(text@.take(text@.len() as int) =~= text@);
        }
        assert(cut@ == text@);
        return cut;
    }
    proof {
        if spec_utf8_len(text@) <= max_len {
            let k = cut@.len() as int;
            lemma_utf8_len_append(text@.take(k + 1), text@.skip(k + 1));
            assert(text@.take(k + 1) + text@.skip(k + 1) =~= text@);
        }
    }
    let dots = chars_of("...");
    let all = concat_chars(c.as_slice(), dots.as_slice());
    string_from_chars(all.as_slice())
}

/// The length in minutes of a rate-limit window of some seconds, rounded up (`(s + 59) / 60`
/// with the integer division of `i64`).
pub fn window_minutes(seconds: i32) -> (r: i64)
    ensures
        r == if seconds + 59 >= 0 {
            (seconds + 59) / 60
        } else {
            -((-(seconds + 59)) / 60)
        },
{
    let s: i64 = seconds as i64 + 59;
    if s >= 0 {
        s / 60
    } else {
        let n: i64 = -s;
        -(n / 60)
    }
}

/// The credit status of a usage report, as reported.
pub fn extract_credits(credits: Option<CreditStatusDetails>) -> (r: Option<CreditStatusDetails>)
    ensures
        r == credits,
{
    credits
}

/// The number of banked rate-limit resets a usage report gives, where it gives one.
pub fn banked_resets(credits: Option<RateLimitResetCredits>) -> (r: Option<i64>)
    ensures
        r == match credits {
            Some(c) => c.available_count,
            None => None,
        },
{
    match credits {
        Some(c) => c.available_count,
        None => None,
    }
}

/// One entry of the account check response.
#[derive(Debug, Clone)]
pub struct AccountsCheckEntry {
    pub plan_type: Option<String>,
    /// The entitlement's end, as RFC 3339 text.
    pub expires_at: Option<String>,
}

/// The subscription metadata of one ChatGPT account.
#[derive(Debug, Clone, PartialEq, Eq)]
pub struct ChatGptAccountMetadata {
    pub plan_type: Option<String>,
    pub subscription_expires_at: Option<String>,
}

/// Why usage or metadata cannot be had for an account.
#[derive(Debug, Clone, PartialEq, Eq)]
pub enum UsageError {
    /// The response does not describe the requested account.
    AccountMissing,
    /// The account signs in with an API key.
    NotChatGpt,
    /// The account's tokens name two different ChatGPT accounts.
    ConflictingAccountIds,
    /// The account has no stable ChatGPT account id.
    NoStableAccountId,
    /// An entitlement end in the response is not an RFC 3339 time.
    InvalidExpiry,
}

impl UsageError {
    pub fn message(&self) -> (r: String)
        ensures
            r@ == match *self {
                UsageError::AccountMissing =>
                    "ChatGPT account metadata response did not include the requested account"@,
                UsageError::NotChatGpt => "Account is not using ChatGPT OAuth"@,
                UsageError::ConflictingAccountIds =>
                    "ChatGPT account IDs in the stored token and ID token do not match"@,
                UsageError::NoStableAccountId =>
                    "ChatGPT account metadata requires a stable account ID"@,
                UsageError::InvalidExpiry =>
                    "Failed to parse ChatGPT account metadata response"@,
            },
    {
        let v = match self {
            UsageError::AccountMissing => chars_of(
                "ChatGPT account metadata response did not include the requested account",
            ),
            UsageError::NotChatGpt => chars_of("Account is not using ChatGPT OAuth"),
            UsageError::ConflictingAccountIds => chars_of(
                "ChatGPT account IDs in the stored token and ID token do not match",
            ),
            UsageError::NoStableAccountId => chars_of(
                "ChatGPT account metadata requires a stable account ID",
            ),
            UsageError::InvalidExpiry => chars_of(
                "Failed to parse ChatGPT account metadata response",
            ),
        };
        string_from_chars(v.as_slice())
    }
}

/// Index of the first entry with the key (or the length).
pub open spec fn spec_key_index(entries: Seq<(String, AccountsCheckEntry)>, key: Seq<char>, k: int) -> int
    decreases entries.len() - k,
{
    if k >= entries.len() {
        entries.len() as int
    } else if entries[k].0@ == key {
        k
    } else {
        spec_key_index(entries, key, k + 1)
    }
}

fn key_index(entries: &Vec<(String, AccountsCheckEntry)>, key: &str) -> (r: usize)
    ensures
        r as int == spec_key_index(entries@, key@, 0),
{
    let mut k: usize = 0;
    while k < entries.len() && !str_eq(entries[k].0.as_str(), key)
        invariant
            k <= entries@.len(),
            spec_key_index(entries@, key@, k as int) == spec_key_index(entries@, key@, 0),
        decreases entries@.len() - k,
    {
        k += 1;
    }
    k
}

/// The entry a metadata response has for an account: its own, or a sole `default` entry.
pub open spec fn spec_metadata_entry(entries: Seq<(String, AccountsCheckEntry)>, account_id: Seq<char>) -> int {
    let k = spec_key_index(entries, account_id, 0);
    if k < entries.len() {
        k
    } else if entries.len() == 1 {
        spec_key_index(entries, "default"@, 0)
    } else {
        entries.len() as int
    }
}

/// An entry's entitlement end, where it has one, is an RFC 3339 time.
pub open spec fn spec_expiry_ok(entry: AccountsCheckEntry) -> bool {
    match entry.expires_at {
        Some(t) => spec_rfc3339_utc(t@) is Some,
        None => true,
    }
}

/// Every entitlement end of the response is an RFC 3339 time.
pub open spec fn spec_expiries_parse(entries: Seq<(String, AccountsCheckEntry)>) -> bool {
    forall|i: int| 0 <= i < entries.len() ==> spec_expiry_ok(#[trigger] entries[i].1)
}

/// An entitlement end, normalized to UTC.
pub open spec fn spec_expiry_utc(expires_at: Option<String>) -> Option<Seq<char>> {
    match expires_at {
        Some(t) => spec_rfc3339_utc(t@),
        None => None,
    }
}

fn normalized_expiry(expires_at: &Option<String>) -> (r: Option<String>)
    ensures
        opt_view(r) == spec_expiry_utc(*expires_at),
{
    match expires_at {
        Some(t) => rfc3339_utc(t.as_str()),
        None => None,
    }
}

/// The plan and entitlement end (in UTC) a metadata response gives for exactly the requested
/// account (a sole `default` entry counts as the account's own); any other response is refused,
/// and so is a response with an entitlement end that is not an RFC 3339 time.
pub fn extract_chatgpt_account_metadata(
    entries: &Vec<(String, AccountsCheckEntry)>,
    chatgpt_account_id: &str,
) -> (r: Result<ChatGptAccountMetadata, UsageError>)
    ensures
        !spec_expiries_parse(entries@) ==> r == Err::<ChatGptAccountMetadata, UsageError>(
            UsageError::InvalidExpiry,
        ),
        spec_expiries_parse(entries@) ==> ({
            let k = spec_metadata_entry(entries@, chatgpt_account_id@);
            &&& k >= entries@.len() ==> r == Err::<ChatGptAccountMetadata, UsageError>(
                UsageError::AccountMissing,
            )
            &&& k < entries@.len() ==> (r matches Ok(m) && m.plan_type == entries@[k].1.plan_type
                && opt_view(m.subscription_expires_at) == spec_expiry_utc(entries@[k].1.expires_at))
        }),
{
    let mut i: usize = 0;
    while i < entries.len()
        invariant
            i <= entries@.len(),
            forall|j: int| 0 <= j < i ==> spec_expiry_ok(#[trigger] entries@[j].1),
        decreases entries@.len() - i,
    {
        if normalized_expiry(&entries[i].1.expires_at).is_none() && entries[i].1.expires_at.is_some() {
            return Err(UsageError::InvalidExpiry);
        }
        i += 1;
    }
    let mut k = key_index(entries, chatgpt_account_id);
    if k >= entries.len() {
        if entries.len() != 1 {
            return Err(UsageError::AccountMissing);
        }
        k = key_index(entries, "default");
        if k >= entries.len() {
            return Err(UsageError::AccountMissing);
        }
    }
    Ok(
        ChatGptAccountMetadata {
            plan_type: clone_opt_string(&entries[k].1.plan_type),
            subscription_expires_at: normalized_expiry(&entries[k].1.expires_at),
        },
    )
}

/// The access token and ChatGPT account id usage requests are sent with.
pub fn extract_chatgpt_auth(account: &StoredAccount) -> (r: Result<(String, Option<String>), UsageError>)
    ensures
        match account.auth_data {
            AuthData::ChatGPT { access_token, account_id, .. } => r == Ok::<
                (String, Option<String>),
                UsageError,
            >((access_token, account_id)),
            AuthData::ApiKey { .. } => r == Err::<(String, Option<String>), UsageError>(
                UsageError::NotChatGpt,
            ),
        },
{
    match &account.auth_data {
        AuthData::ChatGPT { access_token, account_id, .. } => Ok(
            (clone_string(access_token), clone_opt_string(account_id)),
        ),
        AuthData::ApiKey { .. } => Err(UsageError::NotChatGpt),
    }
}

/// The access token and the stable ChatGPT account id metadata requests are sent with.
pub fn extract_chatgpt_metadata_auth(account: &StoredAccount) -> (r: Result<
    (String, String),
    UsageError,
>)
    ensures
        match account.auth_data {
            AuthData::ApiKey { .. } => r == Err::<(String, String), UsageError>(
                UsageError::NotChatGpt,
            ),
            AuthData::ChatGPT { id_token, access_token, account_id, .. } => match spec_resolved_account_id(
                opt_view(account_id),
                id_token@,
            ) {
                Err(_) => r == Err::<(String, String), UsageError>(
                    UsageError::ConflictingAccountIds,
                ),
                Ok(None) => r == Err::<(String, String), UsageError>(
                    UsageError::NoStableAccountId,
                ),
                Ok(Some(id)) => r matches Ok(pair) && pair.0 == access_token && pair.1@ == id,
            },
        },
{
    match &account.auth_data {
        AuthData::ApiKey { .. } => Err(UsageError::NotChatGpt),
        AuthData::ChatGPT { id_token, access_token, account_id, .. } => {
            let stored = match account_id {
                Some(a) => Some(a.as_str()),
                None => None,
            };
            match resolved_chatgpt_account_id(stored, id_token.as_str()) {
                Err(_) => Err(UsageError::ConflictingAccountIds),
                Ok(None) => Err(UsageError::NoStableAccountId),
                Ok(Some(id)) => Ok((clone_string(access_token), id)),
            }
        },
    }
}

/// The plan a usage report gives for an account, when it should be stored: the report is not
/// an error, its plan is not blank (it is stored trimmed), and the account has another plan.
pub fn live_plan_type_update(
    account: &StoredAccount,
    usage_failed: bool,
    usage_plan_type: &Option<String>,
) -> (r: Option<String>)
    ensures
        opt_view(r) == if usage_failed {
            None
        } else {
            match usage_plan_type {
                None => None,
                Some(p) => if spec_trim(p@).len() == 0 || opt_view(account.plan_type) == Some(
                    spec_trim(p@),
                ) {
                    None
                } else {
                    Some(spec_trim(p@))
                },
            }
        },
{
    if usage_failed {
        return None;
    }
    let plan = match usage_plan_type {
        Some(p) => trim(p.as_str()),
        None => {
            return None;
        },
    };
    if plan.as_str().is_empty() {
        return None;
    }
    let same = match &account.plan_type {
        Some(current) => str_eq(current.as_str(), plan.as_str()),
        None => false,
    };
    if same {
        None
    } else {
        Some(plan)
    }
}

/// The summary of a warm-up round: all accounts, those that did not fail, and the failed ones.
pub fn warmup_summary(total_accounts: usize, failed_account_ids: Vec<String>) -> (r: WarmupSummary)
    ensures
        r.total_accounts == total_accounts,
        r.warmed_accounts == if failed_account_ids@.len() <= total_accounts {
            total_accounts - failed_account_ids@.len()
        } else {
            0
        },
        r.failed_account_ids@ == failed_account_ids@,
{
    let warmed_accounts = total_accounts.saturating_sub(failed_account_ids.len());
    WarmupSummary { total_accounts, warmed_accounts, failed_account_ids }
}

/// How many requests run at once for some accounts: between 1 and 10.
pub fn request_concurrency(accounts: usize) -> (r: usize)
    ensures
        r == if accounts < 1 {
            1
        } else if accounts > 10 {
            10
        } else {
            accounts
        },
{
    if accounts < 1 {
        1
    } else if accounts > 10 {
        10
    } else {
        accounts
    }
}

} // verus!
