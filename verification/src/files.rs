//! Where the switcher's files live, exact file snapshots, and the decisions of the guarded file
//! replacement protocol (staging, recovery sidecars, restoring after a failed publication).
//! Touching the file system is the caller's part.

use vstd::prelude::*;

use crate::text::{
    chars_eq, chars_of, concat_chars, is_blank, spec_is_blank, spec_split, spec_trim, split_chars,
    str_eq, string_from_chars, trim, trim_chars,
};

verus! {

/// The file name of the account catalog.
pub const STORE_FILENAME: &'static str = "accounts.json";

/// What is appended to a path to name its recovery sidecar.
pub const RECOVERY_SUFFIX: &'static str = ".codex-switcher.recovery";

/// Name for `Path::join` of std on this platform: the path `name` adjoined to `dir`.
pub uninterp spec fn spec_path_join(dir: Seq<char>, name: Seq<char>) -> Seq<char>;

/// `std::path::Path::new(dir).join(name)`, as text. The result is named.
#[verifier::external_body]
fn path_join(dir: &str, name: &str) -> (r: String)
    ensures
        r@ == spec_path_join(dir@, name@),
{
    std::path::Path::new(dir).join(name).to_string_lossy().into_owned()
}

/// `dirs::home_dir`, as text. It depends on the environment; nothing is stated of it.
#[verifier::external_body]
fn home_dir() -> (r: Option<String>) {
    dirs::home_dir().map(|p| p.to_string_lossy().into_owned())
}

/// Why a location cannot be determined.
#[derive(Debug, Clone, Copy, PartialEq, Eq, Structural)]
pub enum PathError {
    /// No home directory is known.
    NoHomeDirectory,
}

/// The switcher's configuration directory: the override (from `CODEX_SWITCHER_CONFIG_DIR`)
/// trimmed, when not blank; else `.codex-switcher` in the home directory.
pub fn get_config_dir(override_dir: Option<String>) -> (r: Result<String, PathError>)
    ensures
        match override_dir {
            Some(o) if !spec_is_blank(o@) => r matches Ok(d) && d@ == spec_trim(o@),
            _ => match r {
                Ok(d) => exists|home: Seq<char>| d@ == spec_path_join(home, ".codex-switcher"@),
                Err(e) => e == PathError::NoHomeDirectory,
            },
        },
{
    if let Some(o) = &override_dir {
        if !is_blank(o.as_str()) {
            return Ok(trim(o.as_str()));
        }
    }
    match home_dir() {
        Some(home) => Ok(path_join(home.as_str(), ".codex-switcher")),
        None => Err(PathError::NoHomeDirectory),
    }
}

/// The account catalog in a configuration directory.
pub fn get_accounts_file(config_dir: &str) -> (r: String)
    ensures
        r@ == spec_path_join(config_dir@, STORE_FILENAME@),
{
    path_join(config_dir, STORE_FILENAME)
}

/// The lock file of the account catalog in a configuration directory.
pub fn get_accounts_lock_file(config_dir: &str) -> (r: String)
    ensures
        r@ == spec_path_join(config_dir@, "accounts.json.lock"@),
{
    path_join(config_dir, "accounts.json.lock")
}

/// Codex's home directory: the `CODEX_HOME` value when set, else `.codex` in the home directory.
pub fn get_codex_home(codex_home: Option<String>) -> (r: Result<String, PathError>)
    ensures
        match codex_home {
            Some(h) => r == Ok::<String, PathError>(h),
            None => match r {
                Ok(d) => exists|home: Seq<char>| d@ == spec_path_join(home, ".codex"@),
                Err(e) => e == PathError::NoHomeDirectory,
            },
        },
{
    if let Some(h) = codex_home {
        return Ok(h);
    }
    match home_dir() {
        Some(home) => Ok(path_join(home.as_str(), ".codex")),
        None => Err(PathError::NoHomeDirectory),
    }
}

/// Codex's auth.json in its home directory.
pub fn get_codex_auth_file(codex_home: &str) -> (r: String)
    ensures
        r@ == spec_path_join(codex_home@, "auth.json"@),
{
    path_join(codex_home, "auth.json")
}

/// The recovery sidecar of a file: its path with the recovery suffix appended.
pub fn recovery_path(path: &str) -> (r: String)
    ensures
        r@ == path@ + RECOVERY_SUFFIX@,
{
    let p = chars_of(path);
    let s = chars_of(RECOVERY_SUFFIX);
    string_from_chars(concat_chars(p.as_slice(), s.as_slice()).as_slice())
}

/// Which file a change label names, for messages.
pub fn display_name(label: &str) -> (r: &'static str)
    ensures
        r@ == if label@ == "auth"@ || label@ == "rollback"@ {
            "Codex auth.json"@
        } else if label@ == "accounts"@ {
            "the account catalog"@
        } else {
            "the file"@
        },
{
    if str_eq(label, "auth") || str_eq(label, "rollback") {
        "Codex auth.json"
    } else if str_eq(label, "accounts") {
        "the account catalog"
    } else {
        "the file"
    }
}

/// The fail point checked when staging a change with a label.
pub fn stage_fail_point(label: &str) -> (r: &'static str)
    ensures
        r@ == if label@ == "auth"@ {
            "stage_auth"@
        } else if label@ == "accounts"@ {
            "stage_accounts"@
        } else if label@ == "rollback"@ {
            "stage_rollback"@
        } else {
            "stage_file"@
        },
{
    if str_eq(label, "auth") {
        "stage_auth"
    } else if str_eq(label, "accounts") {
        "stage_accounts"
    } else if str_eq(label, "rollback") {
        "stage_rollback"
    } else {
        "stage_file"
    }
}

/// The fail point checked when publishing a change with a label.
pub fn publish_fail_point(label: &str) -> (r: &'static str)
    ensures
        r@ == if label@ == "auth"@ {
            "publish_auth"@
        } else if label@ == "accounts"@ {
            "publish_accounts"@
        } else if label@ == "rollback"@ {
            "publish_rollback"@
        } else {
            "publish_file"@
        },
{
    if str_eq(label, "auth") {
        "publish_auth"
    } else if str_eq(label, "accounts") {
        "publish_accounts"
    } else if str_eq(label, "rollback") {
        "publish_rollback"
    } else {
        "publish_file"
    }
}

/// A fail point is configured when one of the comma-separated names, trimmed, is it.
pub fn test_fail_point(configured: &str, name: &str) -> (r: bool)
    ensures
        r == exists|i: int|
            0 <= i < spec_split(configured@, ',').len() && spec_trim(
                #[trigger] spec_split(configured@, ',')[i],
            ) == name@,
{
    let c = chars_of(configured);
    let parts = split_chars(c.as_slice(), ',');
    let n = chars_of(name);
    let ghost ps = spec_split(configured@, ',');
    let mut i: usize = 0;
    while i < parts.len()
        invariant
            i <= parts@.len(),
            crate::text::char_views(parts@) == ps,
            ps == spec_split(configured@, ','),
            ps.len() == parts@.len(),
            n@ == name@,
            forall|j: int| 0 <= j < i ==> spec_trim(#[trigger] ps[j]) != name@,
        decreases parts@.len() - i,
    {
        assert(ps[i as int] == parts@[i as int]@);
        let t = trim_chars(parts[i].as_slice());
        if chars_eq(t.as_slice(), n.as_slice()) {
            assert(spec_trim(spec_split(configured@, ',')[i as int]) == name@);
            return true;
        }
        i += 1;
    }
    false
}

/// Whether a failed lock attempt only means another process holds the lock: it would block,
/// or (on Windows) the OS reported a lock violation (error 33).
pub fn store_lock_is_contended(would_block: bool, raw_os_error: Option<i32>, is_windows: bool) -> (r:
    bool)
    ensures
        r == (would_block || (is_windows && raw_os_error == Some(33i32))),
{
    would_block || (is_windows && match raw_os_error {
        Some(code) => code == 33,
        None => false,
    })
}

/// The exact state of a file: missing, or present with these bytes.
#[derive(Debug, Clone)]
pub enum FileSnapshot {
    Missing,
    Present(Vec<u8>),
}

impl FileSnapshot {
    pub open spec fn view_bytes(self) -> Option<Seq<u8>> {
        match self {
            FileSnapshot::Missing => None,
            FileSnapshot::Present(b) => Some(b@),
        }
    }

    pub fn present(bytes: Vec<u8>) -> (r: Self)
        ensures
            r.view_bytes() == Some(bytes@),
    {
        FileSnapshot::Present(bytes)
    }

    pub fn bytes(&self) -> (r: Option<&[u8]>)
        ensures
            match r {
                Some(b) => self.view_bytes() == Some(b@),
                None => self.view_bytes() is None,
            },
    {
        match self {
            FileSnapshot::Missing => None,
            FileSnapshot::Present(b) => Some(b.as_slice()),
        }
    }

    /// Two snapshots show the same file state.
    pub fn same_as(&self, other: &FileSnapshot) -> (r: bool)
        ensures
            r == (self.view_bytes() == other.view_bytes()),
    {
        match (self, other) {
            (FileSnapshot::Missing, FileSnapshot::Missing) => true,
            (FileSnapshot::Present(a), FileSnapshot::Present(b)) => {
                if a.len() != b.len() {
                    return false;
                }
                let mut i: usize = 0;
                while i < a.len()
                    invariant
                        i <= a@.len(),
                        a@.len() == b@.len(),
                        self.view_bytes() == Some(a@),
                        other.view_bytes() == Some(b@),
                        forall|j: int| 0 <= j < i ==> a@[j] == b@[j],
                    decreases a@.len() - i,
                {
                    if a[i] != b[i] {
                        assert(a@[i as int] != b@[i as int]);
                        assert(a@ != b@);
                        return false;
                    }
                    i += 1;
                }
                assert(a@ =~= b@);
                true
            },
            _ => false,
        }
    }
}

/// An auth.json that does not exist.
pub fn missing_auth_snapshot() -> (r: FileSnapshot)
    ensures
        r.view_bytes() is None,
{
    FileSnapshot::Missing
}

/// What publishing a change to a file the switcher alone writes (under its lock) does.
#[derive(Debug, Clone, Copy, PartialEq, Eq, Structural)]
pub enum LockedCommitAction {
    /// The file changed meanwhile: refuse.
    Changed,
    /// Remove the file.
    Remove,
    /// Move the staged file over it.
    Replace,
}

/// Publishing a change to a locked file: refuse when it no longer is what was expected; else
/// remove it or replace it by the staged file.
pub fn commit_locked_file(current_is_expected: bool, desired_present: bool) -> (r: LockedCommitAction)
    ensures
        r == if !current_is_expected {
            LockedCommitAction::Changed
        } else if desired_present {
            LockedCommitAction::Replace
        } else {
            LockedCommitAction::Remove
        },
{
    if !current_is_expected {
        LockedCommitAction::Changed
    } else if desired_present {
        LockedCommitAction::Replace
    } else {
        LockedCommitAction::Remove
    }
}

/// Where publishing a change to a file others may change too (Codex's auth.json) stands.
#[derive(Debug, Clone, Copy, PartialEq, Eq, Structural)]
pub enum SwapState {
    /// Waiting for a stale recovery sidecar to be removed.
    Recovering,
    /// Waiting to learn whether a sidecar is still there.
    CheckingSidecar,
    /// (Nothing expected) waiting to learn whether the file is still missing.
    CheckingStillMissing,
    /// (Nothing expected) waiting for the staged file to be moved in without replacing.
    MovingInNew,
    /// Waiting for the file to be moved to its sidecar.
    MovingAside,
    /// Waiting to learn whether the sidecar holds exactly the expected bytes.
    VerifyingAside,
    /// The file was not the expected one: waiting for it to be moved back.
    PuttingBack,
    /// Waiting to learn whether the file is missing (when the change removes it).
    PublishingRemoval,
    /// Waiting for the staged file to be moved in without replacing.
    PublishingNew,
    /// Waiting for the sidecar to be removed after a removal.
    CleaningUp,
    /// Waiting for the sidecar to be removed after a replacement (failure is ignored).
    CleaningUpQuietly,
    /// Publication failed: waiting to learn whether the file exists again.
    CheckingAfterFailure,
    /// Publication failed: waiting for the sidecar to be moved back.
    RestoringAside,
    /// Moving the sidecar back failed: waiting to learn whether the file exists again.
    CheckingAfterFailedRestore,
    Done,
    Failed(SwapFailure),
}

/// Why publishing a change to an externally changed file failed.
#[derive(Debug, Clone, Copy, PartialEq, Eq, Structural)]
pub enum SwapFailure {
    /// A stale sidecar could not be removed.
    RecoveryFailed,
    /// A previous transaction still awaits recovery.
    AwaitingRecovery,
    /// The file changed while the operation was in progress.
    Changed,
    /// The file changed, and moving it back failed: it remains at the sidecar.
    ChangedLeftAside,
    /// The sidecar could not be read.
    VerifyFailed,
    /// Publication failed and the file exists again; the sidecar was discarded.
    PublicationFailed,
    /// Publication failed; the previous file was restored.
    NotAppliedRestored,
    /// Publication failed, and the file changed while recovery was in progress.
    ChangedDuringRecovery,
    /// Publication failed, and the previous file remains at the sidecar.
    LeftAside,
}

/// What the caller does next.
#[derive(Debug, Clone, Copy, PartialEq, Eq, Structural)]
pub enum SwapAction {
    RemoveStaleSidecar,
    CheckSidecarExists,
    CheckFileMissing,
    MoveStagedInWithoutReplacing,
    MoveFileAside,
    CheckAsideIsExpected,
    MoveAsideBack,
    RemoveSidecar,
    RemoveSidecarQuietly,
    CheckFileExists,
    Finish,
    Abort(SwapFailure),
}

/// Start publishing a change to an externally changed file: first a stale sidecar left by an
/// interrupted transaction is removed (never restored: the file may have been deliberately
/// removed since).
pub fn swap_start() -> (r: (SwapState, SwapAction))
    ensures
        r == (SwapState::Recovering, SwapAction::RemoveStaleSidecar),
{
    (SwapState::Recovering, SwapAction::RemoveStaleSidecar)
}

/// The transition table of publishing a change to an externally changed file (see
/// `swap_step`).
pub open spec fn spec_swap_step(
    state: SwapState,
    expected_present: bool,
    desired_present: bool,
    ok: bool,
) -> (SwapState, SwapAction) {
    match state {
        SwapState::Recovering => if ok {
            (SwapState::CheckingSidecar, SwapAction::CheckSidecarExists)
        } else {
            (
                SwapState::Failed(SwapFailure::RecoveryFailed),
                SwapAction::Abort(SwapFailure::RecoveryFailed),
            )
        },
        SwapState::CheckingSidecar => if ok {
            (
                SwapState::Failed(SwapFailure::AwaitingRecovery),
                SwapAction::Abort(SwapFailure::AwaitingRecovery),
            )
        } else if !expected_present {
            if desired_present {
                (SwapState::MovingInNew, SwapAction::MoveStagedInWithoutReplacing)
            } else {
                (SwapState::CheckingStillMissing, SwapAction::CheckFileMissing)
            }
        } else {
            (SwapState::MovingAside, SwapAction::MoveFileAside)
        },
        SwapState::CheckingStillMissing | SwapState::MovingInNew => if ok {
            (SwapState::Done, SwapAction::Finish)
        } else {
            (SwapState::Failed(SwapFailure::Changed), SwapAction::Abort(SwapFailure::Changed))
        },
        SwapState::MovingAside => if ok {
            (SwapState::VerifyingAside, SwapAction::CheckAsideIsExpected)
        } else {
            (SwapState::Failed(SwapFailure::Changed), SwapAction::Abort(SwapFailure::Changed))
        },
        SwapState::VerifyingAside => if ok {
            if desired_present {
                (SwapState::PublishingNew, SwapAction::MoveStagedInWithoutReplacing)
            } else {
                (SwapState::PublishingRemoval, SwapAction::CheckFileMissing)
            }
        } else {
            (SwapState::PuttingBack, SwapAction::MoveAsideBack)
        },
        SwapState::PuttingBack => if ok {
            (SwapState::Failed(SwapFailure::Changed), SwapAction::Abort(SwapFailure::Changed))
        } else {
            (
                SwapState::Failed(SwapFailure::ChangedLeftAside),
                SwapAction::Abort(SwapFailure::ChangedLeftAside),
            )
        },
        SwapState::PublishingRemoval => if ok {
            (SwapState::CleaningUp, SwapAction::RemoveSidecar)
        } else {
            (SwapState::CheckingAfterFailure, SwapAction::CheckFileExists)
        },
        SwapState::PublishingNew => if ok {
            (SwapState::CleaningUpQuietly, SwapAction::RemoveSidecarQuietly)
        } else {
            (SwapState::CheckingAfterFailure, SwapAction::CheckFileExists)
        },
        SwapState::CleaningUp => if ok {
            (SwapState::Done, SwapAction::Finish)
        } else {
            (SwapState::CheckingAfterFailure, SwapAction::CheckFileExists)
        },
        SwapState::CleaningUpQuietly => (SwapState::Done, SwapAction::Finish),
        SwapState::CheckingAfterFailure => if ok {
            (
                SwapState::Failed(SwapFailure::PublicationFailed),
                SwapAction::Abort(SwapFailure::PublicationFailed),
            )
        } else {
            (SwapState::RestoringAside, SwapAction::MoveAsideBack)
        },
        SwapState::RestoringAside => if ok {
            (
                SwapState::Failed(SwapFailure::NotAppliedRestored),
                SwapAction::Abort(SwapFailure::NotAppliedRestored),
            )
        } else {
            (SwapState::CheckingAfterFailedRestore, SwapAction::CheckFileExists)
        },
        SwapState::CheckingAfterFailedRestore => if ok {
            (
                SwapState::Failed(SwapFailure::ChangedDuringRecovery),
                SwapAction::Abort(SwapFailure::ChangedDuringRecovery),
            )
        } else {
            (
                SwapState::Failed(SwapFailure::LeftAside),
                SwapAction::Abort(SwapFailure::LeftAside),
            )
        },
        SwapState::Done => (SwapState::Done, SwapAction::Finish),
        SwapState::Failed(f) => (SwapState::Failed(f), SwapAction::Abort(f)),
    }
}

/// One step of publishing a change to an externally changed file, given what was expected
/// (`expected_present`), what is wanted (`desired_present`) and the outcome of the last action.
/// With a file expected, it is moved aside first and its bytes verified, so that nothing
/// written meanwhile is lost; the new state moves in without replacing anything; on failure the
/// aside copy comes back unless the file exists again.
pub fn swap_step(state: SwapState, expected_present: bool, desired_present: bool, ok: bool) -> (r: (
    SwapState,
    SwapAction,
))
    ensures
        r == spec_swap_step(state, expected_present, desired_present, ok),
{
    match state {
        SwapState::Recovering => if ok {
            (SwapState::CheckingSidecar, SwapAction::CheckSidecarExists)
        } else {
            (
                SwapState::Failed(SwapFailure::RecoveryFailed),
                SwapAction::Abort(SwapFailure::RecoveryFailed),
            )
        },
        SwapState::CheckingSidecar => if ok {
            (
                SwapState::Failed(SwapFailure::AwaitingRecovery),
                SwapAction::Abort(SwapFailure::AwaitingRecovery),
            )
        } else if !expected_present {
            if desired_present {
                (SwapState::MovingInNew, SwapAction::MoveStagedInWithoutReplacing)
            } else {
                (SwapState::CheckingStillMissing, SwapAction::CheckFileMissing)
            }
        } else {
            (SwapState::MovingAside, SwapAction::MoveFileAside)
        },
        SwapState::CheckingStillMissing | SwapState::MovingInNew => if ok {
            (SwapState::Done, SwapAction::Finish)
        } else {
            (SwapState::Failed(SwapFailure::Changed), SwapAction::Abort(SwapFailure::Changed))
        },
        SwapState::MovingAside => if ok {
            (SwapState::VerifyingAside, SwapAction::CheckAsideIsExpected)
        } else {
            (SwapState::Failed(SwapFailure::Changed), SwapAction::Abort(SwapFailure::Changed))
        },
        SwapState::VerifyingAside => if ok {
            if desired_present {
                (SwapState::PublishingNew, SwapAction::MoveStagedInWithoutReplacing)
            } else {
                (SwapState::PublishingRemoval, SwapAction::CheckFileMissing)
            }
        } else {
            (SwapState::PuttingBack, SwapAction::MoveAsideBack)
        },
        SwapState::PuttingBack => if ok {
            (SwapState::Failed(SwapFailure::Changed), SwapAction::Abort(SwapFailure::Changed))
        } else {
            (
                SwapState::Failed(SwapFailure::ChangedLeftAside),
                SwapAction::Abort(SwapFailure::ChangedLeftAside),
            )
        },
        SwapState::PublishingRemoval => if ok {
            (SwapState::CleaningUp, SwapAction::RemoveSidecar)
        } else {
            (SwapState::CheckingAfterFailure, SwapAction::CheckFileExists)
        },
        SwapState::PublishingNew => if ok {
            (SwapState::CleaningUpQuietly, SwapAction::RemoveSidecarQuietly)
        } else {
            (SwapState::CheckingAfterFailure, SwapAction::CheckFileExists)
        },
        SwapState::CleaningUp => if ok {
            (SwapState::Done, SwapAction::Finish)
        } else {
            (SwapState::CheckingAfterFailure, SwapAction::CheckFileExists)
        },
        SwapState::CleaningUpQuietly => (SwapState::Done, SwapAction::Finish),
        SwapState::CheckingAfterFailure => if ok {
            (
                SwapState::Failed(SwapFailure::PublicationFailed),
                SwapAction::Abort(SwapFailure::PublicationFailed),
            )
        } else {
            (SwapState::RestoringAside, SwapAction::MoveAsideBack)
        },
        SwapState::RestoringAside => if ok {
            (
                SwapState::Failed(SwapFailure::NotAppliedRestored),
                SwapAction::Abort(SwapFailure::NotAppliedRestored),
            )
        } else {
            (SwapState::CheckingAfterFailedRestore, SwapAction::CheckFileExists)
        },
        SwapState::CheckingAfterFailedRestore => if ok {
            (
                SwapState::Failed(SwapFailure::ChangedDuringRecovery),
                SwapAction::Abort(SwapFailure::ChangedDuringRecovery),
            )
        } else {
            (
                SwapState::Failed(SwapFailure::LeftAside),
                SwapAction::Abort(SwapFailure::LeftAside),
            )
        },
        SwapState::Done => (SwapState::Done, SwapAction::Finish),
        SwapState::Failed(f) => (SwapState::Failed(f), SwapAction::Abort(f)),
    }
}

/// The state publishing a change reaches from `state` when its actions have the outcomes `oks`.
pub open spec fn spec_swap_run(
    state: SwapState,
    expected_present: bool,
    desired_present: bool,
    oks: Seq<bool>,
) -> SwapState
    decreases oks.len(),
{
    if oks.len() == 0 {
        state
    } else {
        spec_swap_run(
            spec_swap_step(state, expected_present, desired_present, oks[0]).0,
            expected_present,
            desired_present,
            oks.drop_first(),
        )
    }
}

/// A publication that failed stays failed, for the same reason, whatever follows.
pub proof fn law_swap_failure_is_final(
    f: SwapFailure,
    expected_present: bool,
    desired_present: bool,
    oks: Seq<bool>,
)
    ensures
        spec_swap_run(SwapState::Failed(f), expected_present, desired_present, oks)
            == SwapState::Failed(f),
    decreases oks.len(),
{
    if oks.len() > 0 {
        law_swap_failure_is_final(f, expected_present, desired_present, oks.drop_first());
    }
}

/// The copy moved aside is only ever moved back over nothing: when its bytes were not the
/// expected ones (the file is put back as it was found), or when publication failed and the
/// file does not exist again. So nothing written by another program meanwhile is replaced, and a
/// stale sidecar of an interrupted transaction is never restored.
pub proof fn law_aside_copy_returns_only_over_nothing(
    state: SwapState,
    expected_present: bool,
    desired_present: bool,
    ok: bool,
)
    ensures
        spec_swap_step(state, expected_present, desired_present, ok).1 == SwapAction::MoveAsideBack
            ==> !ok && (state == SwapState::VerifyingAside || state
            == SwapState::CheckingAfterFailure),
        state == SwapState::Recovering ==> spec_swap_step(
            state,
            expected_present,
            desired_present,
            ok,
        ).1 != SwapAction::MoveAsideBack,
{
}

/// With nothing expected, the new file is moved in without replacing anything, and a file that
/// appeared meanwhile makes the publication fail as changed.
pub proof fn law_new_file_never_replaces(desired_present: bool)
    ensures
        spec_swap_step(SwapState::MovingInNew, false, desired_present, false) == (
            SwapState::Failed(SwapFailure::Changed),
            SwapAction::Abort(SwapFailure::Changed),
        ),
{
}

/// Once the new file is in place, the publication ends well whatever follows: removing the
/// sidecar is attempted once, and its failure neither fails the publication nor brings the old
/// file back, so a later deletion of the file by another program stands.
pub proof fn law_published_file_is_never_taken_back(
    expected_present: bool,
    cleanup_ok: bool,
    rest: Seq<bool>,
)
    ensures
        spec_swap_step(SwapState::PublishingNew, expected_present, true, true) == (
            SwapState::CleaningUpQuietly,
            SwapAction::RemoveSidecarQuietly,
        ),
        spec_swap_step(SwapState::CleaningUpQuietly, expected_present, true, cleanup_ok) == (
            SwapState::Done,
            SwapAction::Finish,
        ),
        spec_swap_run(SwapState::CleaningUpQuietly, expected_present, true, seq![cleanup_ok] + rest)
            == SwapState::Done,
{
    let oks = seq![cleanup_ok] + rest;
    assert(oks.drop_first() =~= rest);
    lemma_swap_done_is_final(expected_present, rest);
}

/// A publication that ended well stays so, whatever follows.
proof fn lemma_swap_done_is_final(expected_present: bool, oks: Seq<bool>)
    ensures
        spec_swap_run(SwapState::Done, expected_present, true, oks) == SwapState::Done,
    decreases oks.len(),
{
    if oks.len() > 0 {
        lemma_swap_done_is_final(expected_present, oks.drop_first());
    }
}

} // verus!
