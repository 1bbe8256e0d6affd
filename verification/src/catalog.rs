//! In-memory edits of the account catalog: adding, naming, removing, looking up and updating
//! accounts. Reading and writing accounts.json under its lock is the caller's part.

use vstd::prelude::*;
use vstd::set_lib::{lemma_int_range, lemma_len_subset, lemma_map_size, set_int_range};

use crate::identity::{
    spec_catalog_unique, spec_validate_account, validate_catalog_credential_uniqueness,
    validate_stored_account_credentials, CatalogError, CredentialError,
};
use crate::digest::{chatgpt_auth_data_fingerprint, spec_credential_fingerprint};
use crate::live::{spec_catalog_error, spec_hash_views};
use crate::text::{
    chars_of, concat_chars, decimal_chars, lemma_decimal_injective, spec_decimal, spec_trim,
    str_eq, string_from_chars, trim,
};
use crate::types::{
    str_views, ImportAccountsSummary, clone_opt_string, clone_string, opt_view, same_account, AccountsStore, AuthData, AuthMode,
    StoredAccount,
};

verus! {

/// Why an edit of the catalog is refused.
#[derive(Debug, Clone)]
pub enum StoreError {
    /// Another account already has this name.
    NameTaken,
    /// Another account already has this id.
    IdTaken,
    /// No account has this id.
    AccountNotFound,
    /// No account has the id of the account to update (reported without the id).
    UpdatedAccountNotFound,
    /// The edited catalog would hold unusable or shared credentials.
    Catalog(CatalogError),
    /// The edited account's credentials are unusable.
    Credentials(CredentialError),
    /// OAuth tokens cannot be stored in an API key account.
    NotChatGpt,
}

/// The text a refused edit of the account with id `account_id` and name `name` is reported with.
pub open spec fn spec_store_error_message(e: StoreError, account_id: Seq<char>, name: Seq<char>) -> Seq<
    char,
> {
    match e {
        StoreError::NameTaken => "An account with name '"@ + name + "' already exists"@,
        StoreError::IdTaken => "An account with this ID already exists"@,
        StoreError::AccountNotFound => "Account not found: "@ + account_id,
        StoreError::UpdatedAccountNotFound => "Account not found"@,
        StoreError::Catalog(c) => crate::identity::spec_catalog_message(c),
        StoreError::Credentials(c) => crate::identity::spec_credential_message(c, name),
        StoreError::NotChatGpt => "Cannot update OAuth tokens for an API key account"@,
    }
}

impl StoreError {
    /// The text the error is reported with, for an edit of the account with id `account_id` and
    /// name `name`.
    pub fn message(&self, account_id: &str, name: &str) -> (r: String)
        ensures
            r@ == spec_store_error_message(*self, account_id@, name@),
    {
        match self {
            StoreError::NameTaken => {
                let head = crate::text::concat_strs("An account with name '", name);
                crate::text::concat_strs(head.as_str(), "' already exists")
            },
            StoreError::IdTaken => "An account with this ID already exists".to_string(),
            StoreError::AccountNotFound => crate::text::concat_strs("Account not found: ", account_id),
            StoreError::UpdatedAccountNotFound => "Account not found".to_string(),
            StoreError::Catalog(c) => c.message(),
            StoreError::Credentials(c) => c.message(name),
            StoreError::NotChatGpt => "Cannot update OAuth tokens for an API key account".to_string(),
        }
    }
}

/// Some account has this name.
pub open spec fn spec_name_taken(accounts: Seq<StoredAccount>, name: Seq<char>) -> bool {
    exists|i: int| 0 <= i < accounts.len() && (#[trigger] accounts[i]).name@ == name
}

/// Some account has this id.
pub open spec fn spec_id_present(accounts: Seq<StoredAccount>, id: Seq<char>) -> bool {
    exists|i: int| 0 <= i < accounts.len() && (#[trigger] accounts[i]).id@ == id
}

pub fn name_taken(accounts: &Vec<StoredAccount>, name: &str) -> (r: bool)
    ensures
        r == spec_name_taken(accounts@, name@),
{
    let mut i: usize = 0;
    while i < accounts.len()
        invariant
            i <= accounts@.len(),
            forall|j: int| 0 <= j < i ==> (#[trigger] accounts@[j]).name@ != name@,
        decreases accounts.len() - i,
    {
        if str_eq(accounts[i].name.as_str(), name) {
            return true;
        }
        i += 1;
    }
    false
}

/// Index of the first account with this id.
pub fn find_account_index(accounts: &Vec<StoredAccount>, id: &str) -> (r: Option<usize>)
    ensures
        r is None <==> !spec_id_present(accounts@, id@),
        r matches Some(k) ==> k < accounts@.len() && accounts@[k as int].id@ == id@ && forall|
            j: int,
        | 0 <= j < k ==> (#[trigger] accounts@[j]).id@ != id@,
{
    let mut i: usize = 0;
    while i < accounts.len()
        invariant
            i <= accounts@.len(),
            forall|j: int| 0 <= j < i ==> (#[trigger] accounts@[j]).id@ != id@,
        decreases accounts.len() - i,
    {
        if str_eq(accounts[i].id.as_str(), id) {
            return Some(i);
        }
        i += 1;
    }
    None
}

/// The first account with this id.
pub open spec fn spec_first_with_id(accounts: Seq<StoredAccount>, id: Seq<char>) -> int {
    choose|k: int|
        0 <= k < accounts.len() && accounts[k].id@ == id && forall|j: int|
            0 <= j < k ==> (#[trigger] accounts[j]).id@ != id
}

pub proof fn lemma_first_with_id(accounts: Seq<StoredAccount>, id: Seq<char>, k: int)
    requires
        0 <= k < accounts.len(),
        accounts[k].id@ == id,
        forall|j: int| 0 <= j < k ==> (#[trigger] accounts[j]).id@ != id,
    ensures
        spec_first_with_id(accounts, id) == k,
{
    let c = spec_first_with_id(accounts, id);
    if c < k {
        assert(accounts[c].id@ != id);
    } else if c > k {
        assert(accounts[k].id@ != id);
    }
}

/// A present id has a first account.
pub proof fn lemma_first_with_id_exists(accounts: Seq<StoredAccount>, id: Seq<char>)
    requires
        spec_id_present(accounts, id),
    ensures
        0 <= spec_first_with_id(accounts, id) < accounts.len(),
        accounts[spec_first_with_id(accounts, id)].id@ == id,
        forall|j: int| 0 <= j < spec_first_with_id(accounts, id) ==> (#[trigger] accounts[j]).id@ != id,
    decreases accounts.len(),
{
    let n = accounts.len() as int;
    let front = accounts.drop_last();
    if spec_id_present(front, id) {
        lemma_first_with_id_exists(front, id);
        let k = spec_first_with_id(front, id);
        assert(accounts[k] == front[k]);
        assert forall|j: int| 0 <= j < k implies (#[trigger] accounts[j]).id@ != id by {
            assert(accounts[j] == front[j]);
        }
        lemma_first_with_id(accounts, id, k);
    } else {
        let i = choose|i: int| 0 <= i < accounts.len() && (#[trigger] accounts[i]).id@ == id;
        if i < n - 1 {
            assert(front[i] == accounts[i]);
        }
        assert forall|j: int| 0 <= j < n - 1 implies (#[trigger] accounts[j]).id@ != id by {
            assert(accounts[j] == front[j]);
        }
        lemma_first_with_id(accounts, id, n - 1);
    }
}

/// Add an account to the catalog. Its name must be new; the catalog must stay free of unusable
/// and shared credentials. The first account of an empty catalog becomes active. A refused
/// addition leaves the catalog as it was.
pub fn add_account(store: &mut AccountsStore, account: StoredAccount) -> (r: Result<
    StoredAccount,
    StoreError,
>)
    ensures
        ({
            let extended = old(store).accounts@.push(account);
            &&& spec_name_taken(old(store).accounts@, account.name@) ==> (r matches Err(
                StoreError::NameTaken,
            ))
            &&& !spec_name_taken(old(store).accounts@, account.name@) ==> {
                &&& r is Ok <==> spec_catalog_unique(extended)
                &&& r matches Err(e) ==> (e matches StoreError::Catalog(ce) && spec_catalog_error(
                    extended,
                    ce,
                ))
            }
            &&& r matches Ok(a) ==> {
                &&& same_account(a, account)
                &&& final(store).accounts@ == extended
                &&& final(store).version == old(store).version
                &&& final(store).masked_account_ids@ == old(store).masked_account_ids@
                &&& if old(store).accounts@.len() == 0 {
                    opt_view(final(store).active_account_id) == Some(account.id@)
                } else {
                    final(store).active_account_id == old(store).active_account_id
                }
            }
            &&& r is Err ==> final(store).accounts@ == old(store).accounts@
                && final(store).active_account_id == old(store).active_account_id
                && final(store).version == old(store).version
                && final(store).masked_account_ids@ == old(store).masked_account_ids@
        }),
{
    if name_taken(&store.accounts, account.name.as_str()) {
        return Err(StoreError::NameTaken);
    }
    let copy = account.duplicate();
    let becomes_active = store.accounts.len() == 0;
    let ghost before = store.accounts@;
    store.accounts.push(account);
    match validate_catalog_credential_uniqueness(store) {
        Ok(()) => {},
        Err(e) => {
            let _ = store.accounts.pop();
            assert(store.accounts@ =~= before);
            return Err(StoreError::Catalog(e));
        },
    }
    if becomes_active {
        store.active_account_id = Some(copy.id.clone());
    }
    Ok(copy)
}

/// The candidate automatic name `prefix N`.
pub open spec fn spec_candidate(prefix: Seq<char>, n: nat) -> Seq<char> {
    prefix + seq![' '] + spec_decimal(n)
}

/// The prefix automatic names start with: the trimmed prefix, or `Account` when it is blank.
pub open spec fn spec_auto_prefix(prefix: Seq<char>) -> Seq<char> {
    if spec_trim(prefix).len() == 0 {
        "Account"@
    } else {
        spec_trim(prefix)
    }
}

pub proof fn lemma_candidate_injective(prefix: Seq<char>, a: nat, b: nat)
    requires
        spec_candidate(prefix, a) == spec_candidate(prefix, b),
    ensures
        a == b,
{
    let ca = spec_candidate(prefix, a);
    let cb = spec_candidate(prefix, b);
    let p: int = prefix.len() as int + 1;
    assert(ca.subrange(p, ca.len() as int) =~= spec_decimal(a));
    assert(cb.subrange(p, cb.len() as int) =~= spec_decimal(b));
    lemma_decimal_injective(a, b);
}

/// At most as many distinct candidate names are taken as there are accounts.
pub proof fn lemma_candidates_bounded(names: Seq<Seq<char>>, prefix: Seq<char>, k: int)
    requires
        k >= 1,
        forall|m: int| 1 <= m < k ==> names.contains(#[trigger] spec_candidate(prefix, m as nat)),
    ensures
        k - 1 <= names.len(),
{
    let x = set_int_range(1, k);
    lemma_int_range(1, k);
    let f = |m: int| spec_candidate(prefix, m as nat);
    assert(vstd::relations::injective_on(f, x)) by {
        assert forall|a: int, b: int| x.contains(a) && x.contains(b) && #[trigger] f(a) == #[trigger] f(
            b,
        ) implies a == b by {
            lemma_candidate_injective(prefix, a as nat, b as nat);
        }
    }
    let y = x.map(f);
    lemma_map_size(x, y, f);
    assert(y.subset_of(names.to_set())) by {
        assert forall|s: Seq<char>| y.contains(s) implies names.to_set().contains(s) by {
            let m = choose|m: int| x.contains(m) && f(m) == s;
            assert(names.contains(spec_candidate(prefix, m as nat)));
        }
    }
    names.lemma_cardinality_of_set();
    vstd::seq_lib::seq_to_set_is_finite(names);
    lemma_len_subset(y, names.to_set());
}

/// The next free automatic name: `P N` with `P` the (trimmed) prefix, or `Account`, and `N` the
/// least positive number whose name no account has.
pub fn next_auto_account_name(store: &AccountsStore, prefix: &str) -> (r: String)
    requires
        store.accounts@.len() < u64::MAX,
    ensures
        exists|n: nat|
            {
                &&& n >= 1
                &&& r@ == spec_candidate(spec_auto_prefix(prefix@), n)
                &&& !store.names().contains(r@)
                &&& forall|m: nat|
                    1 <= m < n ==> store.names().contains(
                        #[trigger] spec_candidate(spec_auto_prefix(prefix@), m),
                    )
            },
{
    let trimmed = trim(prefix);
    proof {
        crate::text::lemma_trim_empty_iff_blank(prefix@);
    }
    let p: Vec<char> = if trimmed.as_str().is_empty() {
        let v = chars_of("Account");
        v
    } else {
        chars_of(trimmed.as_str())
    };
    proof {
        if trimmed@.len() == 0 {
            assert(p@ == spec_auto_prefix(prefix@));
        }
    }
    let mut sep: Vec<char> = Vec::new();
    sep.push(' ');
    let head = concat_chars(p.as_slice(), sep.as_slice());
    let ghost names = store.names();
    let mut index: u64 = 1;
    loop
        invariant
            p@ == spec_auto_prefix(prefix@),
            head@ == p@ + seq![' '],
            names == store.names(),
            store.accounts@.len() < u64::MAX,
            1 <= index,
            forall|m: nat| 1 <= m < index ==> names.contains(#[trigger] spec_candidate(p@, m)),
        decreases store.accounts@.len() + 1 - index,
    {
        proof {
            lemma_candidates_bounded(names, p@, index as int);
        }
        let digits = decimal_chars(index);
        let candidate = concat_chars(head.as_slice(), digits.as_slice());
        let text = string_from_chars(candidate.as_slice());
        if !name_taken(&store.accounts, text.as_str()) {
            proof {
                assert(candidate@ == spec_candidate(p@, index as nat));
                if names.contains(text@) {
                    let j = choose|j: int| 0 <= j < names.len() && names[j] == text@;
                    assert(store.accounts@[j].name@ == text@);
                }
            }
            return text;
        }
        proof {
            let j = choose|j: int|
                0 <= j < store.accounts@.len() && (#[trigger] store.accounts@[j]).name@ == text@;
            assert(names[j] == text@);
            assert(candidate@ == spec_candidate(p@, index as nat));
            assert(names.contains(spec_candidate(p@, index as nat)));
            lemma_candidates_bounded(names, p@, index as int + 1);
        }
        index = index + 1;
    }
}


/// `name` is the least free automatic name for `prefix` among `names` (see
/// `next_auto_account_name`).
pub open spec fn spec_next_auto_name(names: Seq<Seq<char>>, prefix: Seq<char>, name: Seq<char>) -> bool {
    exists|n: nat|
        {
            &&& n >= 1
            &&& name == spec_candidate(spec_auto_prefix(prefix), n)
            &&& !names.contains(name)
            &&& forall|m: nat|
                1 <= m < n ==> names.contains(#[trigger] spec_candidate(spec_auto_prefix(prefix), m))
        }
}

/// Add an account under the next free automatic name for `prefix` (see `add_account`). The
/// name is always free, so the addition is refused only when the catalog would hold unusable or
/// shared credentials; the first account of an empty catalog becomes active.
pub fn add_account_with_auto_name(
    store: &mut AccountsStore,
    account: StoredAccount,
    prefix: &str,
) -> (r: Result<StoredAccount, StoreError>)
    requires
        old(store).accounts@.len() < u64::MAX,
    ensures
        r is Ok <==> crate::identity::spec_catalog_unique(old(store).accounts@.push(account)),
        r matches Err(e) ==> e is Catalog,
        r matches Ok(a) ==> {
            &&& a.id == account.id
            &&& a.email == account.email
            &&& a.plan_type == account.plan_type
            &&& a.auth_mode == account.auth_mode
            &&& a.auth_data == account.auth_data
            &&& a.created_at == account.created_at
            &&& a.last_used_at == account.last_used_at
            &&& a.previous_chatgpt_credential_hashes@ == account.previous_chatgpt_credential_hashes@
            &&& spec_next_auto_name(old(store).names(), prefix@, a.name@)
            &&& !old(store).names().contains(a.name@)
            &&& exists|n: nat| a.name@ == spec_candidate(spec_auto_prefix(prefix@), n)
            &&& final(store).accounts@.len() == old(store).accounts@.len() + 1
            &&& final(store).accounts@.drop_last() == old(store).accounts@
            &&& same_account(final(store).accounts@.last(), a)
            &&& final(store).version == old(store).version
            &&& final(store).masked_account_ids@ == old(store).masked_account_ids@
            &&& if old(store).accounts@.len() == 0 {
                opt_view(final(store).active_account_id) == Some(account.id@)
            } else {
                final(store).active_account_id == old(store).active_account_id
            }
        },
        r is Err ==> final(store).accounts@ == old(store).accounts@
            && final(store).active_account_id == old(store).active_account_id
            && final(store).version == old(store).version
            && final(store).masked_account_ids@ == old(store).masked_account_ids@,
{
    let ghost original = account;
    let mut account = account;
    account.name = next_auto_account_name(store, prefix);
    proof {
        if spec_name_taken(old(store).accounts@, account.name@) {
            let j = choose|j: int|
                0 <= j < old(store).accounts@.len() && (#[trigger] old(store).accounts@[j]).name@
                    == account.name@;
            assert(old(store).names()[j] == account.name@);
        }
        let a = old(store).accounts@.push(account);
        let b = old(store).accounts@.push(original);
        assert forall|i: int| 0 <= i < a.len() implies (#[trigger] a[i]).auth_mode == b[i].auth_mode
            && a[i].auth_data == b[i].auth_data by {}
        crate::identity::lemma_catalog_unique_by_credentials(a, b);
    }
    let r = add_account(store, account);
    proof {
        if r is Ok {
            assert(final(store).accounts@.drop_last() =~= old(store).accounts@);
        }
    }
    r
}

/// The catalog without the accounts that have this id.
pub open spec fn spec_without_id(s: Seq<StoredAccount>, id: Seq<char>) -> Seq<StoredAccount>
    decreases s.len(),
{
    if s.len() == 0 {
        s
    } else if s.last().id@ == id {
        spec_without_id(s.drop_last(), id)
    } else {
        spec_without_id(s.drop_last(), id).push(s.last())
    }
}

/// Remove every account with this id from the list.
pub fn retain_other_ids(accounts: &mut Vec<StoredAccount>, id: &str)
    ensures
        final(accounts)@ == spec_without_id(old(accounts)@, id@),
{
    let ghost orig = accounts@;
    let mut i: usize = 0;
    let mut j: usize = 0;
    let n = accounts.len();
    while j < n
        invariant
            n == orig.len(),
            j <= orig.len(),
            i <= j,
            accounts@ == spec_without_id(orig.subrange(0, j as int), id@) + orig.subrange(
                j as int,
                orig.len() as int,
            ),
            i == spec_without_id(orig.subrange(0, j as int), id@).len(),
        decreases orig.len() - j,
    {
        let ghost kept = spec_without_id(orig.subrange(0, j as int), id@);
        assert(orig.subrange(0, j + 1).drop_last() =~= orig.subrange(0, j as int));
        assert(accounts@[i as int] == orig[j as int]);
        if str_eq(accounts[i].id.as_str(), id) {
            let _ = accounts.remove(i);
            assert(accounts@ =~= spec_without_id(orig.subrange(0, j + 1), id@) + orig.subrange(
                j + 1,
                orig.len() as int,
            ));
        } else {
            i += 1;
            assert(accounts@ =~= spec_without_id(orig.subrange(0, j + 1), id@) + orig.subrange(
                j + 1,
                orig.len() as int,
            ));
        }
        j += 1;
    }
    assert(orig.subrange(0, orig.len() as int) =~= orig);
    assert(accounts@ =~= spec_without_id(orig, id@));
}

pub proof fn lemma_without_absent(s: Seq<StoredAccount>, id: Seq<char>)
    requires
        !spec_id_present(s, id),
    ensures
        spec_without_id(s, id) == s,
    decreases s.len(),
{
    if s.len() > 0 {
        assert(!spec_id_present(s.drop_last(), id)) by {
            if spec_id_present(s.drop_last(), id) {
                let k = choose|k: int| 0 <= k < s.drop_last().len() && (#[trigger] s.drop_last()[k]).id@ == id;
                assert(s[k].id@ == id);
            }
        }
        lemma_without_absent(s.drop_last(), id);
        assert(s.drop_last().push(s.last()) =~= s);
    }
}

pub proof fn lemma_without_shrinks(s: Seq<StoredAccount>, id: Seq<char>)
    requires
        spec_id_present(s, id),
    ensures
        spec_without_id(s, id).len() < s.len(),
    decreases s.len(),
{
    lemma_without_len(s, id);
    if s.last().id@ != id {
        assert(spec_id_present(s.drop_last(), id)) by {
            let k = choose|k: int| 0 <= k < s.len() && (#[trigger] s[k]).id@ == id;
            assert(s.drop_last()[k].id@ == id);
        }
        lemma_without_shrinks(s.drop_last(), id);
    } else {
        lemma_without_len(s.drop_last(), id);
    }
}

pub proof fn lemma_without_len(s: Seq<StoredAccount>, id: Seq<char>)
    ensures
        spec_without_id(s, id).len() <= s.len(),
    decreases s.len(),
{
    if s.len() > 0 {
        lemma_without_len(s.drop_last(), id);
    }
}

/// Removing an account that was just added, by its id, gives back the catalog's accounts:
/// adding is undone (`add_account` appends, `remove_account` drops every account with the id).
pub proof fn law_remove_undoes_add(accounts: Seq<StoredAccount>, account: StoredAccount)
    requires
        !spec_id_present(accounts, account.id@),
    ensures
        spec_without_id(accounts.push(account), account.id@) == accounts,
{
    lemma_without_absent(accounts, account.id@);
    assert(accounts.push(account).drop_last() =~= accounts);
}

/// Remove an account by id. When the active account is removed, the first remaining account (if
/// any) becomes active.
pub fn remove_account(store: &mut AccountsStore, account_id: &str) -> (r: Result<(), StoreError>)
    ensures
        r is Ok <==> spec_id_present(old(store).accounts@, account_id@),
        r matches Err(e) ==> e matches StoreError::AccountNotFound,
        final(store).version == old(store).version,
        final(store).masked_account_ids == old(store).masked_account_ids,
        final(store).accounts@ == spec_without_id(old(store).accounts@, account_id@),
        if r is Ok && opt_view(old(store).active_account_id) == Some(account_id@) {
            if final(store).accounts@.len() > 0 {
                final(store).active_account_id == Some(final(store).accounts@[0].id)
            } else {
                final(store).active_account_id is None
            }
        } else {
            final(store).active_account_id == old(store).active_account_id
        },
{
    let initial_len = store.accounts.len();
    let removed_active = crate::types::opt_is_str(&store.active_account_id, account_id);
    retain_other_ids(&mut store.accounts, account_id);
    if store.accounts.len() == initial_len {
        proof {
            if spec_id_present(old(store).accounts@, account_id@) {
                lemma_without_shrinks(old(store).accounts@, account_id@);
            }
        }
        return Err(StoreError::AccountNotFound);
    }
    proof {
        if !spec_id_present(old(store).accounts@, account_id@) {
            lemma_without_absent(old(store).accounts@, account_id@);
        }
    }
    if removed_active {
        store.active_account_id = if store.accounts.len() > 0 {
            Some(store.accounts[0].id.clone())
        } else {
            None
        };
    }
    Ok(())
}

/// The first account with this id.
pub fn get_account(store: &AccountsStore, account_id: &str) -> (r: Option<StoredAccount>)
    ensures
        r is None <==> !spec_id_present(store.accounts@, account_id@),
        r matches Some(a) ==> same_account(
            a,
            store.accounts@[spec_first_with_id(store.accounts@, account_id@)],
        ),
{
    match find_account_index(&store.accounts, account_id) {
        Some(k) => {
            proof {
                lemma_first_with_id(store.accounts@, account_id@, k as int);
            }
            Some(store.accounts[k].duplicate())
        },
        None => None,
    }
}

/// The active account, when it names an account of the catalog.
pub fn get_active_account(store: &AccountsStore) -> (r: Option<StoredAccount>)
    ensures
        match store.active_account_id {
            None => r is None,
            Some(id) => {
                &&& r is None <==> !spec_id_present(store.accounts@, id@)
                &&& r matches Some(a) ==> same_account(
                    a,
                    store.accounts@[spec_first_with_id(store.accounts@, id@)],
                )
            },
        },
{
    match &store.active_account_id {
        Some(id) => get_account(store, id.as_str()),
        None => None,
    }
}

/// Set the last-used time of the first account with this id (no change when there is none).
pub fn touch_account_at(store: &mut AccountsStore, account_id: &str, now: String)
    ensures
        final(store).version == old(store).version,
        final(store).active_account_id == old(store).active_account_id,
        final(store).masked_account_ids == old(store).masked_account_ids,
        final(store).accounts@.len() == old(store).accounts@.len(),
        !spec_id_present(old(store).accounts@, account_id@) ==> final(store).accounts@ == old(store).accounts@,
        spec_id_present(old(store).accounts@, account_id@) ==> {
            let k = spec_first_with_id(old(store).accounts@, account_id@);
            &&& forall|j: int|
                0 <= j < old(store).accounts@.len() && j != k ==> final(store).accounts@[j] == old(store).accounts@[j]
            &&& final(store).accounts@[k].last_used_at == Some(now)
            &&& same_but_last_used(final(store).accounts@[k], old(store).accounts@[k])
        },
{
    match find_account_index(&store.accounts, account_id) {
        Some(k) => {
            proof {
                lemma_first_with_id(store.accounts@, account_id@, k as int);
            }
            let mut acc = store.accounts[k].duplicate();
            acc.last_used_at = Some(now);
            store.accounts.set(k, acc);
        },
        None => {},
    }
}

/// Set the last-used time of an account to now (see `touch_account_at`).
pub fn touch_account(store: &mut AccountsStore, account_id: &str)
    ensures
        final(store).version == old(store).version,
        final(store).active_account_id == old(store).active_account_id,
        final(store).masked_account_ids == old(store).masked_account_ids,
        final(store).accounts@.len() == old(store).accounts@.len(),
        !spec_id_present(old(store).accounts@, account_id@) ==> final(store).accounts@ == old(store).accounts@,
        spec_id_present(old(store).accounts@, account_id@) ==> {
            let k = spec_first_with_id(old(store).accounts@, account_id@);
            &&& forall|j: int|
                0 <= j < old(store).accounts@.len() && j != k ==> final(store).accounts@[j] == old(store).accounts@[j]
            &&& final(store).accounts@[k].last_used_at is Some
            &&& same_but_last_used(final(store).accounts@[k], old(store).accounts@[k])
        },
{
    touch_account_at(store, account_id, crate::types::now_rfc3339());
}

pub open spec fn same_but_last_used(a: StoredAccount, b: StoredAccount) -> bool {
    &&& a.id == b.id
    &&& a.name == b.name
    &&& a.email == b.email
    &&& a.plan_type == b.plan_type
    &&& a.auth_mode == b.auth_mode
    &&& a.auth_data == b.auth_data
    &&& a.created_at == b.created_at
    &&& a.previous_chatgpt_credential_hashes@ == b.previous_chatgpt_credential_hashes@
}

/// Another account than `id` has this name.
pub open spec fn spec_name_taken_by_other(
    accounts: Seq<StoredAccount>,
    id: Seq<char>,
    name: Seq<char>,
) -> bool {
    exists|i: int|
        0 <= i < accounts.len() && (#[trigger] accounts[i]).id@ != id && accounts[i].name@ == name
}

fn name_taken_by_other(accounts: &Vec<StoredAccount>, id: &str, name: &str) -> (r: bool)
    ensures
        r == spec_name_taken_by_other(accounts@, id@, name@),
{
    let mut i: usize = 0;
    while i < accounts.len()
        invariant
            i <= accounts@.len(),
            forall|j: int|
                0 <= j < i ==> !((#[trigger] accounts@[j]).id@ != id@ && accounts@[j].name@
                    == name@),
        decreases accounts.len() - i,
    {
        if !str_eq(accounts[i].id.as_str(), id) && str_eq(accounts[i].name.as_str(), name) {
            return true;
        }
        i += 1;
    }
    false
}

/// Update an account's name, e-mail and plan (each only when given). A new name must not belong to
/// another account.
pub fn update_account_metadata(
    store: &mut AccountsStore,
    account_id: &str,
    name: Option<String>,
    email: Option<String>,
    plan_type: Option<String>,
) -> (r: Result<(), StoreError>)
    ensures
        final(store).version == old(store).version,
        final(store).active_account_id == old(store).active_account_id,
        final(store).masked_account_ids == old(store).masked_account_ids,
        final(store).accounts@.len() == old(store).accounts@.len(),
        (name matches Some(n) && spec_name_taken_by_other(old(store).accounts@, account_id@, n@))
            ==> (r matches Err(StoreError::NameTaken)),
        !(name matches Some(n) && spec_name_taken_by_other(old(store).accounts@, account_id@, n@))
            ==> {
            &&& r is Ok <==> spec_id_present(old(store).accounts@, account_id@)
            &&& r matches Err(e) ==> e matches StoreError::UpdatedAccountNotFound
        },
        r is Err ==> final(store).accounts@ == old(store).accounts@,
        r is Ok ==> {
            let k = spec_first_with_id(old(store).accounts@, account_id@);
            let a = old(store).accounts@[k];
            let b = final(store).accounts@[k];
            &&& forall|j: int|
                0 <= j < old(store).accounts@.len() && j != k ==> final(store).accounts@[j] == old(store).accounts@[j]
            &&& b.name == (if name is Some {
                name->Some_0
            } else {
                a.name
            })
            &&& b.email == (if email is Some {
                email
            } else {
                a.email
            })
            &&& b.plan_type == (if plan_type is Some {
                plan_type
            } else {
                a.plan_type
            })
            &&& b.id == a.id
            &&& b.auth_mode == a.auth_mode
            &&& b.auth_data == a.auth_data
            &&& b.created_at == a.created_at
            &&& b.last_used_at == a.last_used_at
            &&& b.previous_chatgpt_credential_hashes@ == a.previous_chatgpt_credential_hashes@
        },
{
    if let Some(new_name) = &name {
        if name_taken_by_other(&store.accounts, account_id, new_name.as_str()) {
            return Err(StoreError::NameTaken);
        }
    }
    let k = match find_account_index(&store.accounts, account_id) {
        Some(k) => k,
        None => {
            return Err(StoreError::UpdatedAccountNotFound);
        },
    };
    proof {
        lemma_first_with_id(store.accounts@, account_id@, k as int);
    }
    let mut acc = store.accounts[k].duplicate();
    if let Some(n) = name {
        acc.name = n;
    }
    if email.is_some() {
        acc.email = email;
    }
    if plan_type.is_some() {
        acc.plan_type = plan_type;
    }
    store.accounts.set(k, acc);
    Ok(())
}

/// The masked (hidden) account ids.
pub fn get_masked_account_ids(store: &AccountsStore) -> (r: Vec<String>)
    ensures
        r@ == store.masked_account_ids@,
{
    crate::types::clone_strings(&store.masked_account_ids)
}

/// Replace the masked (hidden) account ids.
pub fn set_masked_account_ids(store: &mut AccountsStore, ids: Vec<String>)
    ensures
        final(store).masked_account_ids == ids,
        final(store).accounts == old(store).accounts,
        final(store).active_account_id == old(store).active_account_id,
        final(store).version == old(store).version,
{
    store.masked_account_ids = ids;
}


/// The imported accounts that a merge keeps, in order: each one whose id and name are new to the
/// catalog and to the accounts kept before it.
pub open spec fn spec_accepted(current: Seq<StoredAccount>, imported: Seq<StoredAccount>) -> Seq<
    StoredAccount,
>
    decreases imported.len(),
{
    if imported.len() == 0 {
        Seq::empty()
    } else {
        let prev = spec_accepted(current, imported.drop_last());
        let a = imported.last();
        let all = current + prev;
        if spec_id_present(all, a.id@) || spec_name_taken(all, a.name@) {
            prev
        } else {
            prev.push(a)
        }
    }
}

/// No two accounts share an id or a name.
pub open spec fn spec_ids_and_names_distinct(s: Seq<StoredAccount>) -> bool {
    forall|i: int, j: int|
        0 <= i < j < s.len() ==> (#[trigger] s[i]).id@ != (#[trigger] s[j]).id@ && s[i].name@
            != s[j].name@
}

/// A merge keeps account ids and names pairwise distinct: when no two accounts of the catalog
/// share an id or a name, neither do any two accounts of the merged catalog, whatever was
/// imported.
pub proof fn law_merge_keeps_ids_and_names_distinct(
    current: Seq<StoredAccount>,
    imported: Seq<StoredAccount>,
)
    requires
        spec_ids_and_names_distinct(current),
    ensures
        spec_ids_and_names_distinct(current + spec_accepted(current, imported)),
    decreases imported.len(),
{
    if imported.len() == 0 {
        assert(current + spec_accepted(current, imported) =~= current);
    } else {
        law_merge_keeps_ids_and_names_distinct(current, imported.drop_last());
        let prev = spec_accepted(current, imported.drop_last());
        let all = current + prev;
        let a = imported.last();
        if !(spec_id_present(all, a.id@) || spec_name_taken(all, a.name@)) {
            let next = current + prev.push(a);
            assert(next =~= all.push(a));
            assert forall|i: int, j: int| 0 <= i < j < next.len() implies (#[trigger] next[i]).id@
                != (#[trigger] next[j]).id@ && next[i].name@ != next[j].name@ by {
                if j == next.len() - 1 {
                    assert(next[i] == all[i]);
                    if next[i].id@ == a.id@ {
                        assert(spec_id_present(all, a.id@));
                    }
                    if next[i].name@ == a.name@ {
                        assert(spec_name_taken(all, a.name@));
                    }
                } else {
                    assert(next[i] == all[i] && next[j] == all[j]);
                }
            }
        }
    }
}

/// Every account of `s` has its id and its name present in `x`.
pub open spec fn spec_covers(x: Seq<StoredAccount>, s: Seq<StoredAccount>) -> bool {
    forall|i: int|
        0 <= i < s.len() ==> spec_id_present(x, (#[trigger] s[i]).id@) && spec_name_taken(
            x,
            s[i].name@,
        )
}

proof fn lemma_accepted_prefix(current: Seq<StoredAccount>, imported: Seq<StoredAccount>)
    requires
        imported.len() > 0,
    ensures
        ({
            let prev = spec_accepted(current, imported.drop_last());
            let all = spec_accepted(current, imported);
            &&& prev.len() <= all.len()
            &&& forall|i: int| 0 <= i < prev.len() ==> all[i] == prev[i]
        }),
{
}

/// Nothing is accepted from imported accounts whose ids or names `x` already covers, with the
/// catalog and what was accepted from them.
proof fn lemma_accepted_none_when_covered(
    current: Seq<StoredAccount>,
    imported: Seq<StoredAccount>,
    x: Seq<StoredAccount>,
)
    requires
        spec_covers(x, current + spec_accepted(current, imported)),
    ensures
        spec_accepted(x, imported) == Seq::<StoredAccount>::empty(),
    decreases imported.len(),
{
    if imported.len() > 0 {
        let front = imported.drop_last();
        let prev = spec_accepted(current, front);
        let all = spec_accepted(current, imported);
        lemma_accepted_prefix(current, imported);
        assert forall|i: int| 0 <= i < (current + prev).len() implies spec_id_present(
            x,
            (#[trigger] (current + prev)[i]).id@,
        ) && spec_name_taken(x, (current + prev)[i].name@) by {
            if i < current.len() {
                assert((current + prev)[i] == (current + all)[i]);
            } else {
                assert((current + prev)[i] == (current + all)[i]);
            }
        }
        lemma_accepted_none_when_covered(current, front, x);
        let a = imported.last();
        let cp = current + prev;
        assert(spec_accepted(x, front) == Seq::<StoredAccount>::empty());
        assert(x + Seq::<StoredAccount>::empty() =~= x);
        if spec_id_present(cp, a.id@) {
            let i = choose|i: int| 0 <= i < cp.len() && (#[trigger] cp[i]).id@ == a.id@;
            assert(spec_id_present(x, cp[i].id@));
        } else if spec_name_taken(cp, a.name@) {
            let i = choose|i: int| 0 <= i < cp.len() && (#[trigger] cp[i]).name@ == a.name@;
            assert(spec_name_taken(x, cp[i].name@));
        } else {
            assert(all == prev.push(a));
            assert((current + all)[current.len() + prev.len() as int] == a);
            assert(spec_id_present(x, a.id@));
        }
    }
}

/// Merging is idempotent: merging the same import again into the merged catalog adds nothing.
pub proof fn law_merge_is_idempotent(current: Seq<StoredAccount>, imported: Seq<StoredAccount>)
    ensures
        spec_accepted(current + spec_accepted(current, imported), imported) == Seq::<
            StoredAccount,
        >::empty(),
{
    let x = current + spec_accepted(current, imported);
    assert forall|i: int| 0 <= i < x.len() implies spec_id_present(x, (#[trigger] x[i]).id@)
        && spec_name_taken(x, x[i].name@) by {}
    lemma_accepted_none_when_covered(current, imported, x);
}

/// The masked ids after a merge: each imported masked id that names an account of the merged
/// catalog and is not masked yet is appended, in order.
pub open spec fn spec_masked_after(
    masked: Seq<Seq<char>>,
    accounts: Seq<StoredAccount>,
    imported: Seq<Seq<char>>,
) -> Seq<Seq<char>>
    decreases imported.len(),
{
    if imported.len() == 0 {
        masked
    } else {
        let prev = spec_masked_after(masked, accounts, imported.drop_last());
        let m = imported.last();
        if spec_id_present(accounts, m) && !prev.contains(m) {
            prev.push(m)
        } else {
            prev
        }
    }
}

pub open spec fn spec_max3(a: u32, b: u32, c: u32) -> u32 {
    let m = if a >= b {
        a
    } else {
        b
    };
    if m >= c {
        m
    } else {
        c
    }
}

/// The active account after a merge: the current one when it still names an account; otherwise
/// the imported one when it names an account; otherwise the first account.
pub open spec fn spec_active_after_merge(
    current: Option<String>,
    imported: Option<String>,
    accounts: Seq<StoredAccount>,
    result: Option<String>,
) -> bool {
    if current matches Some(id) && spec_id_present(accounts, id@) {
        result == current
    } else if imported matches Some(ia) && spec_id_present(accounts, ia@) {
        result == imported
    } else if accounts.len() > 0 {
        result == Some(accounts[0].id)
    } else {
        result is None
    }
}

fn contains_str(v: &Vec<String>, s: &str) -> (r: bool)
    ensures
        r == str_views(v@).contains(s@),
{
    let mut i: usize = 0;
    while i < v.len()
        invariant
            i <= v@.len(),
            forall|j: int| 0 <= j < i ==> v@[j]@ != s@,
        decreases v.len() - i,
    {
        if str_eq(v[i].as_str(), s) {
            assert(str_views(v@)[i as int] == s@);
            return true;
        }
        i += 1;
    }
    proof {
        if str_views(v@).contains(s@) {
            let j = choose|j: int| 0 <= j < str_views(v@).len() && str_views(v@)[j] == s@;
            assert(v@[j]@ == s@);
        }
    }
    false
}

/// Merge an imported catalog into this one, skipping imported accounts whose id or name is
/// already taken. The version becomes the highest seen (at least 1); an active account that no
/// longer names an account is replaced (see `spec_active_after_merge`); imported masked ids of
/// merged accounts are added. The merged catalog must be free of unusable and shared credentials.
pub fn merge_accounts_store(current: &mut AccountsStore, imported: AccountsStore) -> (r: Result<
    ImportAccountsSummary,
    StoreError,
>)
    ensures
        ({
            let accepted = spec_accepted(old(current).accounts@, imported.accounts@);
            let merged = final(current).accounts@;
            &&& merged == old(current).accounts@ + accepted
            &&& final(current).version == spec_max3(old(current).version, imported.version, 1)
            &&& spec_active_after_merge(
                old(current).active_account_id,
                imported.active_account_id,
                merged,
                final(current).active_account_id,
            )
            &&& str_views(final(current).masked_account_ids@) == spec_masked_after(
                str_views(old(current).masked_account_ids@),
                merged,
                str_views(imported.masked_account_ids@),
            )
            &&& r is Ok <==> spec_catalog_unique(merged)
            &&& r matches Err(e) ==> (e matches StoreError::Catalog(ce) && spec_catalog_error(merged, ce))
            &&& r matches Ok(s) ==> {
                &&& s.total_in_payload == imported.accounts@.len()
                &&& s.imported_count == accepted.len()
                &&& s.skipped_count == imported.accounts@.len() - accepted.len()
            }
        }),
{
    let AccountsStore {
        version: imported_version,
        accounts: imported_accounts,
        active_account_id: imported_active_id,
        masked_account_ids: imported_masked_ids,
    } = imported;
    let total_in_payload = imported_accounts.len();
    let ghost orig = current.accounts@;
    let ghost all_imported = imported_accounts@;
    let mut items = imported_accounts;
    let mut imported_count: usize = 0;
    let mut i: usize = 0;
    while i < total_in_payload
        invariant
            total_in_payload == all_imported.len(),
            i <= total_in_payload,
            items@ == all_imported.subrange(i as int, total_in_payload as int),
            current.accounts@ == orig + spec_accepted(orig, all_imported.subrange(0, i as int)),
            imported_count == spec_accepted(orig, all_imported.subrange(0, i as int)).len(),
            imported_count <= i,
            current.version == old(current).version,
            current.active_account_id == old(current).active_account_id,
            current.masked_account_ids == old(current).masked_account_ids,
            orig == old(current).accounts@,
        decreases total_in_payload - i,
    {
        let account = items.remove(0);
        assert(all_imported.subrange(0, i + 1).drop_last() =~= all_imported.subrange(0, i as int));
        assert(account == all_imported[i as int]);
        let taken = find_account_index(&current.accounts, account.id.as_str()).is_some()
            || name_taken(&current.accounts, account.name.as_str());
        if !taken {
            current.accounts.push(account);
            imported_count += 1;
        }
        i += 1;
        assert(items@ =~= all_imported.subrange(i as int, total_in_payload as int));
    }
    assert(all_imported.subrange(0, total_in_payload as int) =~= all_imported);
    let v = if current.version >= imported_version {
        current.version
    } else {
        imported_version
    };
    current.version = if v >= 1 {
        v
    } else {
        1
    };
    let current_active_is_valid = match &current.active_account_id {
        Some(id) => find_account_index(&current.accounts, id.as_str()).is_some(),
        None => false,
    };
    if !current_active_is_valid {
        let imported_present = match &imported_active_id {
            Some(ia) => find_account_index(&current.accounts, ia.as_str()).is_some(),
            None => false,
        };
        if imported_present {
            current.active_account_id = imported_active_id;
        } else {
            current.active_account_id = if current.accounts.len() > 0 {
                Some(current.accounts[0].id.clone())
            } else {
                None
            };
        }
    }
    let ghost masked0 = str_views(current.masked_account_ids@);
    let ghost imported_active_id_ghost = imported.active_account_id;
    let ghost imported_masked = str_views(imported_masked_ids@);
    let mut m: usize = 0;
    while m < imported_masked_ids.len()
        invariant
            m <= imported_masked_ids@.len(),
            imported_masked == str_views(imported_masked_ids@),
            current.accounts@ == orig + spec_accepted(orig, all_imported),
            current.version == spec_max3(old(current).version, imported_version, 1),
            spec_active_after_merge(
                old(current).active_account_id,
                imported_active_id_ghost,
                current.accounts@,
                current.active_account_id,
            ),
            str_views(current.masked_account_ids@) == spec_masked_after(
                masked0,
                current.accounts@,
                imported_masked.subrange(0, m as int),
            ),
        decreases imported_masked_ids.len() - m,
    {
        let masked_id = &imported_masked_ids[m];
        assert(imported_masked.subrange(0, m + 1).drop_last() =~= imported_masked.subrange(0, m as int));
        assert(imported_masked.subrange(0, m + 1).last() == masked_id@);
        if find_account_index(&current.accounts, masked_id.as_str()).is_some() && !contains_str(
            &current.masked_account_ids,
            masked_id.as_str(),
        ) {
            current.masked_account_ids.push(masked_id.clone());
            assert(str_views(current.masked_account_ids@) =~= spec_masked_after(
                masked0,
                current.accounts@,
                imported_masked.subrange(0, m + 1),
            ));
        }
        m += 1;
    }
    assert(imported_masked.subrange(0, imported_masked_ids@.len() as int) =~= imported_masked);
    match validate_catalog_credential_uniqueness(current) {
        Ok(()) => {},
        Err(e) => {
            return Err(StoreError::Catalog(e));
        },
    }
    Ok(
        ImportAccountsSummary {
            total_in_payload,
            imported_count,
            skipped_count: total_in_payload - imported_count,
        },
    )
}


/// Freshly obtained ChatGPT OAuth tokens and the metadata that came with them.
#[derive(Clone)]
pub struct ChatGptTokenUpdate {
    pub id_token: String,
    pub access_token: String,
    pub refresh_token: String,
    pub account_id: Option<String>,
    pub email: Option<String>,
    pub plan_type: Option<String>,
    pub last_refresh: Option<String>,
}

/// The account after storing a token update: the new tokens and refresh time, the new ChatGPT
/// account id, e-mail and plan where the update has them, the fingerprint of the replaced bundle
/// added to the previous ones, everything else as before.
pub open spec fn spec_token_updated(
    before: StoredAccount,
    update: ChatGptTokenUpdate,
    after: StoredAccount,
) -> bool {
    &&& before.auth_data matches AuthData::ChatGPT { account_id: old_account_id, .. }
    &&& after.auth_data == (AuthData::ChatGPT {
        id_token: update.id_token,
        access_token: update.access_token,
        refresh_token: update.refresh_token,
        account_id: if update.account_id is Some {
            update.account_id
        } else {
            old_account_id
        },
        last_refresh: update.last_refresh,
    })
    &&& after.email == (if update.email is Some {
        update.email
    } else {
        before.email
    })
    &&& after.plan_type == (if update.plan_type is Some {
        update.plan_type
    } else {
        before.plan_type
    })
    &&& after.id == before.id
    &&& after.name == before.name
    &&& after.auth_mode == before.auth_mode
    &&& after.created_at == before.created_at
    &&& after.last_used_at == before.last_used_at
    &&& spec_hash_views(after.previous_chatgpt_credential_hashes@) == spec_hash_views(
        before.previous_chatgpt_credential_hashes@,
    ).push(spec_credential_fingerprint(before.auth_data)->Some_0)
}

/// The account after a token update, as a value, but for the recorded fingerprints (see
/// `spec_token_updated`).
pub open spec fn spec_after_update(before: StoredAccount, update: ChatGptTokenUpdate) -> StoredAccount {
    StoredAccount {
        auth_data: AuthData::ChatGPT {
            id_token: update.id_token,
            access_token: update.access_token,
            refresh_token: update.refresh_token,
            account_id: if update.account_id is Some {
                update.account_id
            } else {
                before.auth_data->ChatGPT_account_id
            },
            last_refresh: update.last_refresh,
        },
        email: if update.email is Some {
            update.email
        } else {
            before.email
        },
        plan_type: if update.plan_type is Some {
            update.plan_type
        } else {
            before.plan_type
        },
        ..before
    }
}

/// Store new ChatGPT tokens in an account, recording the fingerprint of the replaced bundle; API
/// key accounts are refused and left unchanged. The updated account must have usable credentials.
pub fn apply_chatgpt_token_update(account: &mut StoredAccount, update: ChatGptTokenUpdate) -> (r:
    Result<(), StoreError>)
    ensures
        old(account).auth_data is ApiKey ==> (r matches Err(StoreError::NotChatGpt)) && *final(account) == *old(account),
        old(account).auth_data is ChatGPT ==> {
            &&& spec_token_updated(*old(account), update, *final(account))
            &&& spec_validate_account(*final(account)) == spec_validate_account(
                spec_after_update(*old(account), update),
            )
            &&& r is Ok <==> spec_validate_account(*final(account)) is Ok
            &&& r matches Err(e) ==> (e matches StoreError::Credentials(c) && spec_validate_account(
                *final(account),
            ) == Err::<(), CredentialError>(c))
        },
{
    let ChatGptTokenUpdate {
        id_token,
        access_token,
        refresh_token,
        account_id,
        email,
        plan_type,
        last_refresh,
    } = update;
    let replaced = match chatgpt_auth_data_fingerprint(&account.auth_data) {
        Some(h) => h,
        None => {
            return Err(StoreError::NotChatGpt);
        },
    };
    let next_account_id = match &account.auth_data {
        AuthData::ChatGPT { account_id: stored, .. } => {
            if account_id.is_some() {
                account_id
            } else {
                clone_opt_string(stored)
            }
        },
        AuthData::ApiKey { .. } => {
            return Err(StoreError::NotChatGpt);
        },
    };
    account.auth_data = AuthData::ChatGPT {
        id_token,
        access_token,
        refresh_token,
        account_id: next_account_id,
        last_refresh,
    };
    if email.is_some() {
        account.email = email;
    }
    if plan_type.is_some() {
        account.plan_type = plan_type;
    }
    let ghost hashes_before = account.previous_chatgpt_credential_hashes@;
    account.previous_chatgpt_credential_hashes.push(replaced);
    assert(spec_hash_views(account.previous_chatgpt_credential_hashes@) =~= spec_hash_views(
        hashes_before,
    ).push(replaced@));
    match validate_stored_account_credentials(account) {
        Ok(()) => Ok(()),
        Err(e) => Err(StoreError::Credentials(e)),
    }
}

/// What storing a token update in the catalog does, and reports (see
/// `update_account_chatgpt_tokens_with_last_refresh`).
pub open spec fn spec_tokens_stored(
    old: AccountsStore,
    new: AccountsStore,
    account_id: Seq<char>,
    expected_refresh_token: Option<Seq<char>>,
    update: ChatGptTokenUpdate,
    r: Result<StoredAccount, StoreError>,
) -> bool {
    &&& new.version == old.version
    &&& new.active_account_id == old.active_account_id
    &&& new.masked_account_ids == old.masked_account_ids
    &&& new.accounts@.len() == old.accounts@.len()
    &&& !spec_id_present(old.accounts@, account_id) ==> (r matches Err(
        StoreError::UpdatedAccountNotFound,
    )) && new.accounts@ == old.accounts@
    &&& spec_id_present(old.accounts@, account_id) ==> {
        let k = spec_first_with_id(old.accounts@, account_id);
        let before = old.accounts@[k];
        let after = new.accounts@[k];
        &&& forall|j: int|
            0 <= j < old.accounts@.len() && j != k ==> new.accounts@[j] == old.accounts@[j]
        &&& match before.auth_data {
            AuthData::ApiKey { .. } => (r matches Err(StoreError::NotChatGpt))
                && new.accounts@ == old.accounts@,
            AuthData::ChatGPT { refresh_token, .. } => if expected_refresh_token matches Some(
                e,
            ) && e != refresh_token@ {
                &&& r matches Ok(a) && same_account(a, before)
                &&& new.accounts@ == old.accounts@
            } else if spec_validate_account(spec_after_update(before, update)) is Err {
                &&& r matches Err(StoreError::Credentials(c))
                &&& spec_validate_account(spec_after_update(before, update)) == Err::<
                    (),
                    CredentialError,
                >(c)
                &&& new.accounts@ == old.accounts@
            } else {
                &&& r is Ok <==> spec_catalog_unique(old.accounts@.update(
                    k,
                    spec_after_update(before, update),
                ))
                &&& r matches Ok(a) ==> spec_token_updated(before, update, after)
                    && same_account(a, after)
                &&& r matches Err(e) ==> (e is Catalog && new.accounts@ == old.accounts@)
            },
        }
    }
}

/// Store new ChatGPT tokens for an account of the catalog, recording the fingerprint of the
/// replaced bundle so that auth.json still holding it is recognized as stale. With an expected
/// refresh token, an account whose refresh token has changed meanwhile is returned as it is,
/// unchanged. The catalog must stay free of unusable and shared credentials.
pub fn update_account_chatgpt_tokens_with_last_refresh(
    store: &mut AccountsStore,
    account_id: &str,
    expected_refresh_token: Option<&str>,
    update: ChatGptTokenUpdate,
) -> (r: Result<StoredAccount, StoreError>)
    ensures
        spec_tokens_stored(
            *old(store),
            *final(store),
            account_id@,
            crate::jwt::opt_str_view(expected_refresh_token),
            update,
            r,
        ),
{
    let k = match find_account_index(&store.accounts, account_id) {
        Some(k) => k,
        None => {
            return Err(StoreError::UpdatedAccountNotFound);
        },
    };
    proof {
        lemma_first_with_id(store.accounts@, account_id@, k as int);
    }
    if let Some(expected) = expected_refresh_token {
        match &store.accounts[k].auth_data {
            AuthData::ChatGPT { refresh_token, .. } => {
                if !str_eq(refresh_token.as_str(), expected) {
                    return Ok(store.accounts[k].duplicate());
                }
            },
            AuthData::ApiKey { .. } => {
                return Err(StoreError::NotChatGpt);
            },
        }
    }
    let ghost before_all = store.accounts@;
    let ghost update_view = update;
    let mut acc = store.accounts[k].duplicate();
    match apply_chatgpt_token_update(&mut acc, update) {
        Ok(()) => {},
        Err(e) => {
            return Err(e);
        },
    }
    let updated = acc.duplicate();
    store.accounts.set_and_swap(k, &mut acc);
    proof {
        let spec_next = before_all.update(
            k as int,
            spec_after_update(before_all[k as int], update_view),
        );
        assert forall|i: int| 0 <= i < store.accounts@.len() implies (#[trigger] store.accounts@[i]).auth_mode
            == spec_next[i].auth_mode && store.accounts@[i].auth_data == spec_next[i].auth_data by {}
        crate::identity::lemma_catalog_unique_by_credentials(store.accounts@, spec_next);
    }
    match validate_catalog_credential_uniqueness(store) {
        Ok(()) => Ok(updated),
        Err(e) => {
            store.accounts.set_and_swap(k, &mut acc);
            assert(store.accounts@ =~= before_all);
            Err(StoreError::Catalog(e))
        },
    }
}

/// Store freshly obtained ChatGPT tokens, stamped with the current time as their refresh time:
/// the catalog changes as `update_account_chatgpt_tokens_with_last_refresh` describes for an
/// update whose refresh time is some text (the clock's, which is not stated).
pub fn update_account_chatgpt_tokens(
    store: &mut AccountsStore,
    account_id: &str,
    id_token: String,
    access_token: String,
    refresh_token: String,
    chatgpt_account_id: Option<String>,
    email: Option<String>,
    plan_type: Option<String>,
) -> (r: Result<StoredAccount, StoreError>)
    ensures
        exists|t: String|
            spec_tokens_stored(
                *old(store),
                *final(store),
                account_id@,
                None,
                (ChatGptTokenUpdate {
                    id_token,
                    access_token,
                    refresh_token,
                    account_id: chatgpt_account_id,
                    email,
                    plan_type,
                    last_refresh: Some(t),
                }),
                r,
            ),
{
    let now = crate::types::now_rfc3339();
    let ghost t = now;
    let update = ChatGptTokenUpdate {
        id_token,
        access_token,
        refresh_token,
        account_id: chatgpt_account_id,
        email,
        plan_type,
        last_refresh: Some(now),
    };
    let r = update_account_chatgpt_tokens_with_last_refresh(store, account_id, None, update);
    assert(spec_tokens_stored(*old(store), *store, account_id@, None, update, r));
    r
}

} // verus!
