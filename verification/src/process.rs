//! Codex process detection and restart planning: which running processes count as live Codex
//! app instances, how a command line is split back into a program and its arguments, and which
//! executables may be relaunched. Listing, stopping and starting processes is the caller's part.

use vstd::prelude::*;

use crate::text::{
    chars_eq, chars_of, concat_chars, contains, decimal_chars, is_whitespace, lower_chars,
    replace_char, spec_contains, spec_decimal, spec_is_ws, spec_lower, spec_replace_char,
    spec_trim, spec_trim_matches, string_from_chars, sub_chars, trim, trim_matches,
};
use crate::jwt::{find_from, lemma_find_from, spec_find_from};
use crate::text::{
    char_views, first_word, parse_unsigned, spec_ends_with, spec_first_word, spec_parse_unsigned,
    spec_split, split_chars, trim_chars, ends_with,
};
use crate::types::{clone_string, opt_view, str_views};

verus! {

/// A live Codex app instance found on this machine.
#[derive(Debug, Clone)]
pub struct ActiveCodexProcess {
    pub pid: u32,
    pub command_line: String,
    pub executable_path: Option<String>,
}

impl ActiveCodexProcess {
    pub fn duplicate(&self) -> (r: Self)
        ensures
            r == *self,
    {
        ActiveCodexProcess {
            pid: self.pid,
            command_line: clone_string(&self.command_line),
            executable_path: crate::types::clone_opt_string(&self.executable_path),
        }
    }
}

/// How to start one Codex process again.
#[derive(Debug, Clone)]
pub struct CodexLaunchSpec {
    pub pid: u32,
    pub executable: String,
    pub args: Vec<String>,
}

/// The Codex processes to stop before an account switch and to start again after it.
#[derive(Debug, Clone)]
pub struct CodexRestartPlan {
    pub processes: Vec<CodexLaunchSpec>,
}

/// Information about running Codex processes.
#[derive(Debug, Clone)]
pub struct CodexProcessInfo {
    /// Number of active Codex app instances
    pub count: usize,
    /// Number of ignored background/stale Codex-related processes
    pub background_count: usize,
    /// Whether switching is allowed (no active Codex app instances)
    pub can_switch: bool,
    /// Process IDs of active Codex app instances
    pub pids: Vec<u32>,
}

/// Why a process decision refused to go on.
#[derive(Debug, Clone, PartialEq, Eq)]
pub enum ProcessError {
    /// Neither an executable path nor a command line tells how to start the process again.
    CannotDetermineRestart { pid: u32 },
    /// The program that would be started is not a Codex executable.
    UnexpectedExecutable { pid: u32, executable: String },
    /// Codex app instances are still running.
    SwitchBlocked { active: usize },
    /// Stopping a process failed and it is still running.
    StopFailed { pid: u32, details: String },
    /// Codex processes were still running when the wait ended.
    TimedOut { remaining: Vec<u32> },
}

/// Numbers as `{:?}` prints a list of them: `[1, 2, 3]`.
pub open spec fn spec_debug_list(s: Seq<u32>) -> Seq<char> {
    seq!['['] + spec_joined(s) + seq![']']
}

/// The numbers in decimal, separated by `, `.
pub open spec fn spec_joined(s: Seq<u32>) -> Seq<char>
    decreases s.len(),
{
    if s.len() == 0 {
        Seq::empty()
    } else if s.len() == 1 {
        spec_decimal(s[0] as nat)
    } else {
        spec_joined(s.drop_last()) + ", "@ + spec_decimal(s.last() as nat)
    }
}

/// The text of each error.
pub open spec fn spec_process_error_message(e: ProcessError) -> Seq<char> {
    match e {
        ProcessError::CannotDetermineRestart { pid } => "Could not determine how to restart Codex process "@
            + spec_decimal(pid as nat),
        ProcessError::UnexpectedExecutable { pid, executable } =>
            "Refusing to restart unexpected executable for Codex process "@ + spec_decimal(
            pid as nat,
        ) + ": "@ + executable@,
        ProcessError::SwitchBlocked { active } =>
            "Close all running Codex windows before switching accounts. Active Codex processes: "@
            + spec_decimal(active as nat),
        ProcessError::StopFailed { pid, details } => "Failed to stop Codex process "@ + spec_decimal(
            pid as nat,
        ) + ": "@ + details@,
        ProcessError::TimedOut { remaining } =>
            "Timed out waiting for Codex to close. Remaining processes: "@ + spec_debug_list(
            remaining@,
        ),
    }
}

fn debug_list(s: &[u32]) -> (r: Vec<char>)
    ensures
        r@ == spec_debug_list(s@),
{
    let mut out: Vec<char> = Vec::new();
    let mut i: usize = 0;
    let sep = chars_of(", ");
    assert(s@.take(0) =~= Seq::<u32>::empty());
    while i < s.len()
        invariant
            i <= s.len(),
            sep@ == ", "@,
            out@ == spec_joined(s@.take(i as int)),
        decreases s.len() - i,
    {
        let d = decimal_chars(s[i] as u64);
        assert(s@.take(i + 1).drop_last() =~= s@.take(i as int));
        if i == 0 {
            out = d;
            assert(s@.take(1) =~= seq![s@[0]]);
        } else {
            let head = concat_chars(out.as_slice(), sep.as_slice());
            out = concat_chars(head.as_slice(), d.as_slice());
        }
        i += 1;
    }
    assert(s@.take(s.len() as int) =~= s@);
    let mut open: Vec<char> = Vec::new();
    open.push('[');
    let mut close: Vec<char> = Vec::new();
    close.push(']');
    let head = concat_chars(open.as_slice(), out.as_slice());
    concat_chars(head.as_slice(), close.as_slice())
}

fn text_then_number(text: &str, n: u64) -> (r: Vec<char>)
    ensures
        r@ == text@ + spec_decimal(n as nat),
{
    let t = chars_of(text);
    let d = decimal_chars(n);
    concat_chars(t.as_slice(), d.as_slice())
}

fn then_detail(head: &[char], detail: &str) -> (r: Vec<char>)
    ensures
        r@ == head@ + ": "@ + detail@,
{
    let sep = chars_of(": ");
    let d = chars_of(detail);
    let h = concat_chars(head, sep.as_slice());
    concat_chars(h.as_slice(), d.as_slice())
}

impl ProcessError {
    /// The error's text.
    pub fn message(&self) -> (r: String)
        ensures
            r@ == spec_process_error_message(*self),
    {
        let v = match self {
            ProcessError::CannotDetermineRestart { pid } => text_then_number(
                "Could not determine how to restart Codex process ",
                *pid as u64,
            ),
            ProcessError::UnexpectedExecutable { pid, executable } => {
                let head = text_then_number(
                    "Refusing to restart unexpected executable for Codex process ",
                    *pid as u64,
                );
                then_detail(head.as_slice(), executable.as_str())
            },
            ProcessError::SwitchBlocked { active } => text_then_number(
                "Close all running Codex windows before switching accounts. Active Codex processes: ",
                *active as u64,
            ),
            ProcessError::StopFailed { pid, details } => {
                let head = text_then_number("Failed to stop Codex process ", *pid as u64);
                then_detail(head.as_slice(), details.as_str())
            },
            ProcessError::TimedOut { remaining } => {
                let t = chars_of("Timed out waiting for Codex to close. Remaining processes: ");
                let l = debug_list(remaining.as_slice());
                concat_chars(t.as_slice(), l.as_slice())
            },
        };
        string_from_chars(v.as_slice())
    }
}

/// A command line that belongs to an IDE extension or integration rather than the Codex app.
pub open spec fn spec_is_ide_plugin(command: Seq<char>) -> bool {
    spec_contains(command, ".antigravity"@) || spec_contains(command, "openai.chatgpt"@)
        || spec_contains(command, ".vscode"@)
}

pub fn is_ide_plugin_process(command: &str) -> (r: bool)
    ensures
        r == spec_is_ide_plugin(command@),
{
    let c = chars_of(command);
    let a = chars_of(".antigravity");
    let b = chars_of("openai.chatgpt");
    let v = chars_of(".vscode");
    contains(c.as_slice(), a.as_slice()) || contains(c.as_slice(), b.as_slice()) || contains(
        c.as_slice(),
        v.as_slice(),
    )
}

/// `s` with back slashes turned into forward slashes, in ASCII lower case.
pub open spec fn spec_normalized_path(s: Seq<char>) -> Seq<char> {
    spec_lower(spec_replace_char(s, '\\', '/'))
}

fn normalized_path(s: &[char]) -> (r: Vec<char>)
    ensures
        r@ == spec_normalized_path(s@),
{
    let slashed = replace_char(s, '\\', '/');
    lower_chars(slashed.as_slice())
}

/// The app-server of the OpenAI extension inside an Antigravity or VS Code installation.
pub open spec fn spec_is_antigravity_app_server(command: Seq<char>) -> bool {
    let n = spec_normalized_path(command);
    (spec_contains(n, ".antigravity/extensions/openai.chatgpt"@) || spec_contains(
        n,
        ".vscode/extensions/openai.chatgpt"@,
    )) && spec_contains(n, "app-server"@)
}

pub fn is_antigravity_app_server_command(command: &str) -> (r: bool)
    ensures
        r == spec_is_antigravity_app_server(command@),
{
    let c = chars_of(command);
    let n = normalized_path(c.as_slice());
    let a = chars_of(".antigravity/extensions/openai.chatgpt");
    let v = chars_of(".vscode/extensions/openai.chatgpt");
    let s = chars_of("app-server");
    (contains(n.as_slice(), a.as_slice()) || contains(n.as_slice(), v.as_slice())) && contains(
        n.as_slice(),
        s.as_slice(),
    )
}

/// The words of a command line from position `i` on, given the words found so far, the word
/// being read, whether a quote is open and whether the current word has begun. Quotes group
/// words and are dropped; inside quotes `\"` stands for a quote; white space outside quotes
/// ends a word.
pub open spec fn spec_split_from(
    s: Seq<char>,
    i: int,
    args: Seq<Seq<char>>,
    current: Seq<char>,
    in_quotes: bool,
    saw_arg: bool,
) -> Seq<Seq<char>>
    decreases s.len() - i,
{
    if i >= s.len() {
        if saw_arg {
            args.push(current)
        } else {
            args
        }
    } else if s[i] == '"' {
        spec_split_from(s, i + 1, args, current, !in_quotes, true)
    } else if s[i] == '\\' && in_quotes && i + 1 < s.len() && s[i + 1] == '"' {
        spec_split_from(s, i + 2, args, current.push('"'), in_quotes, true)
    } else if spec_is_ws(s[i]) && !in_quotes {
        if saw_arg {
            spec_split_from(s, i + 1, args.push(current), Seq::empty(), in_quotes, false)
        } else {
            spec_split_from(s, i + 1, args, current, in_quotes, false)
        }
    } else {
        spec_split_from(s, i + 1, args, current.push(s[i]), in_quotes, true)
    }
}

/// The words of a text split at white space, with no empty words, after the word `current`
/// already begun.
pub open spec fn spec_ws_words(s: Seq<char>, current: Seq<char>) -> Seq<Seq<char>>
    decreases s.len(),
{
    if s.len() == 0 {
        if current.len() > 0 {
            seq![current]
        } else {
            Seq::empty()
        }
    } else if spec_is_ws(s[0]) {
        (if current.len() > 0 {
            seq![current]
        } else {
            Seq::empty()
        }) + spec_ws_words(s.drop_first(), Seq::empty())
    } else {
        spec_ws_words(s.drop_first(), current.push(s[0]))
    }
}

proof fn lemma_split_without_quotes(
    s: Seq<char>,
    i: int,
    args: Seq<Seq<char>>,
    current: Seq<char>,
    saw_arg: bool,
)
    requires
        0 <= i <= s.len(),
        forall|k: int| i <= k < s.len() ==> s[k] != '"',
        saw_arg == (current.len() > 0),
    ensures
        spec_split_from(s, i, args, current, false, saw_arg) == args + spec_ws_words(
            s.subrange(i, s.len() as int),
            current,
        ),
    decreases s.len() - i,
{
    let rest = s.subrange(i, s.len() as int);
    if i >= s.len() {
        assert(rest.len() == 0);
        if saw_arg {
            assert(args.push(current) =~= args + seq![current]);
        } else {
            assert(args =~= args + Seq::<Seq<char>>::empty());
        }
    } else {
        assert(rest[0] == s[i]);
        assert(rest.drop_first() =~= s.subrange(i + 1, s.len() as int));
        if spec_is_ws(s[i]) {
            if saw_arg {
                lemma_split_without_quotes(s, i + 1, args.push(current), Seq::empty(), false);
                assert(args.push(current) + spec_ws_words(rest.drop_first(), Seq::empty()) =~= args
                    + (seq![current] + spec_ws_words(rest.drop_first(), Seq::empty())));
            } else {
                lemma_split_without_quotes(s, i + 1, args, current, false);
                assert(current =~= Seq::<char>::empty());
                assert(Seq::<Seq<char>>::empty() + spec_ws_words(rest.drop_first(), Seq::empty())
                    =~= spec_ws_words(rest.drop_first(), Seq::empty()));
            }
        } else {
            lemma_split_without_quotes(s, i + 1, args, current.push(s[i]), true);
        }
    }
}

/// On a command line without quotes, splitting it into program and arguments is splitting it at
/// white space.
pub proof fn law_unquoted_command_line_splits_at_white_space(command: Seq<char>)
    requires
        forall|k: int| 0 <= k < command.len() ==> command[k] != '"',
    ensures
        spec_split_command_line(command) == spec_ws_words(command, Seq::empty()),
{
    lemma_split_without_quotes(command, 0, Seq::empty(), Seq::empty(), false);
    assert(command.subrange(0, command.len() as int) =~= command);
    assert(Seq::<Seq<char>>::empty() + spec_ws_words(command, Seq::empty()) =~= spec_ws_words(
        command,
        Seq::empty(),
    ));
}

/// The program and arguments of a command line.
pub open spec fn spec_split_command_line(command: Seq<char>) -> Seq<Seq<char>> {
    spec_split_from(command, 0, Seq::empty(), Seq::empty(), false, false)
}

/// Split a command line into its program and arguments, honouring double quotes.
pub fn split_command_line(command: &str) -> (r: Vec<String>)
    ensures
        str_views(r@) == spec_split_command_line(command@),
{
    let s = chars_of(command);
    let mut args: Vec<String> = Vec::new();
    let mut current: Vec<char> = Vec::new();
    let mut in_quotes = false;
    let mut saw_arg = false;
    let mut i: usize = 0;
    assert(str_views(args@) =~= Seq::<Seq<char>>::empty());
    while i < s.len()
        invariant
            i <= s.len(),
            s@ == command@,
            spec_split_from(s@, i as int, str_views(args@), current@, in_quotes, saw_arg)
                == spec_split_command_line(command@),
        decreases s.len() - i,
    {
        let ch = s[i];
        if ch == '"' {
            in_quotes = !in_quotes;
            saw_arg = true;
            i += 1;
        } else if ch == '\\' && in_quotes && i + 1 < s.len() && s[i + 1] == '"' {
            current.push('"');
            saw_arg = true;
            i += 2;
        } else if is_whitespace(ch) && !in_quotes {
            if saw_arg {
                let ghost before = str_views(args@);
                let word = string_from_chars(current.as_slice());
                args.push(word);
                assert(str_views(args@) =~= before.push(current@));
                current = Vec::new();
                assert(current@ =~= Seq::<char>::empty());
                saw_arg = false;
            }
            i += 1;
        } else {
            current.push(ch);
            saw_arg = true;
            i += 1;
        }
    }
    if saw_arg {
        let ghost before = str_views(args@);
        let word = string_from_chars(current.as_slice());
        args.push(word);
        assert(str_views(args@) =~= before.push(current@));
    }
    args
}

/// The trimmed text, if any is left.
pub open spec fn spec_non_empty(value: Seq<char>) -> Option<Seq<char>> {
    if spec_trim(value).len() == 0 {
        None
    } else {
        Some(spec_trim(value))
    }
}

pub fn non_empty_string(value: String) -> (r: Option<String>)
    ensures
        opt_view(r) == spec_non_empty(value@),
{
    let trimmed = trim(value.as_str());
    if trimmed.as_str().is_empty() {
        None
    } else {
        Some(trimmed)
    }
}

/// A path separator, on either platform.
pub open spec fn spec_is_sep(c: char) -> bool {
    c == '/' || c == '\\'
}

/// Index of the last separator before `end`, or -1.
pub open spec fn spec_last_sep_before(s: Seq<char>, end: int) -> int
    decreases end,
{
    if end <= 0 {
        -1
    } else if spec_is_sep(s[end - 1]) {
        end - 1
    } else {
        spec_last_sep_before(s, end - 1)
    }
}

pub proof fn lemma_last_sep_before(s: Seq<char>, end: int)
    ensures
        -1 <= spec_last_sep_before(s, end) < if end > 0 {
            end
        } else {
            0
        },
    decreases end,
{
    if end > 0 && !spec_is_sep(s[end - 1]) {
        lemma_last_sep_before(s, end - 1);
    }
}

/// The last component of the path `s[..end]`, with `/` and `\` both separating components and
/// empty and `.` components skipped; none when it is `..` or nothing is left.
pub open spec fn spec_last_component_upto(s: Seq<char>, end: int) -> Option<Seq<char>>
    decreases end,
{
    if end <= 0 {
        None
    } else {
        let k = spec_last_sep_before(s, end);
        let comp = s.subrange(k + 1, end);
        if comp.len() == 0 || comp == "."@ {
            if k < 0 {
                None
            } else {
                proof {
                    lemma_last_sep_before(s, end);
                }
                spec_last_component_upto(s, k)
            }
        } else if comp == ".."@ {
            None
        } else {
            Some(comp)
        }
    }
}

/// The file name of a path, or the whole text when it has none.
pub open spec fn spec_file_name(s: Seq<char>) -> Seq<char> {
    match spec_last_component_upto(s, s.len() as int) {
        Some(c) => c,
        None => s,
    }
}

pub open spec fn opt_chars(r: Option<Vec<char>>) -> Option<Seq<char>> {
    match r {
        Some(v) => Some(v@),
        None => None,
    }
}

/// The last component of a path (see `spec_last_component_upto`).
pub fn last_component(s: &[char]) -> (r: Option<Vec<char>>)
    ensures
        opt_chars(r) == spec_last_component_upto(s@, s@.len() as int),
{
    let dot = chars_of(".");
    let dotdot = chars_of("..");
    let mut end: usize = s.len();
    loop
        invariant
            end <= s.len(),
            dot@ == "."@,
            dotdot@ == ".."@,
            spec_last_component_upto(s@, end as int) == spec_last_component_upto(
                s@,
                s@.len() as int,
            ),
        decreases end,
    {
        if end == 0 {
            return None;
        }
        let mut k: usize = end;
        while k > 0 && !(s[k - 1] == '/' || s[k - 1] == '\\')
            invariant
                k <= end,
                end <= s.len(),
                spec_last_sep_before(s@, k as int) == spec_last_sep_before(s@, end as int),
            decreases k,
        {
            k -= 1;
        }
        assert(spec_last_sep_before(s@, end as int) == k - 1);
        let comp = sub_chars(s, k, end);
        if comp.len() == 0 || chars_eq(comp.as_slice(), dot.as_slice()) {
            if k == 0 {
                return None;
            }
            end = k - 1;
        } else if chars_eq(comp.as_slice(), dotdot.as_slice()) {
            return None;
        } else {
            return Some(comp);
        }
    }
}

fn file_name(s: &[char]) -> (r: Vec<char>)
    ensures
        r@ == spec_file_name(s@),
{
    match last_component(s) {
        Some(c) => c,
        None => {
            assert(s@.subrange(0, s@.len() as int) =~= s@);
            sub_chars(s, 0, s.len())
        },
    }
}

/// An executable that may be started again as Codex: the CLI (`codex`), the desktop app
/// (`Codex.exe`), or the Microsoft Store package's `ChatGPT.exe` host inside its
/// `WindowsApps/OpenAI.Codex_` folder.
pub open spec fn spec_is_codex_executable(executable: Seq<char>) -> bool {
    let normalized = spec_normalized_path(spec_trim_matches(executable, '"'));
    let name = spec_lower(spec_trim_matches(spec_file_name(executable), '"'));
    name == "codex"@ || name == "codex.exe"@ || (name == "chatgpt.exe"@ && spec_contains(
        normalized,
        "/windowsapps/openai.codex_"@,
    ))
}

pub fn is_codex_executable(executable: &str) -> (r: bool)
    ensures
        r == spec_is_codex_executable(executable@),
{
    let exe = chars_of(executable);
    let unquoted = trim_matches(exe.as_slice(), '"');
    let normalized = normalized_path(unquoted.as_slice());
    let raw_name = file_name(exe.as_slice());
    let unquoted_name = trim_matches(raw_name.as_slice(), '"');
    let name = lower_chars(unquoted_name.as_slice());
    let cli = chars_of("codex");
    let desktop = chars_of("codex.exe");
    let store_host = chars_of("chatgpt.exe");
    let store_dir = chars_of("/windowsapps/openai.codex_");
    chars_eq(name.as_slice(), cli.as_slice()) || chars_eq(name.as_slice(), desktop.as_slice()) || (
    chars_eq(name.as_slice(), store_host.as_slice()) && contains(
        normalized.as_slice(),
        store_dir.as_slice(),
    ))
}

/// The program and arguments a process would be started with: its executable path (trimmed,
/// when not blank) with the command line's arguments after the first word, or else the command
/// line's first word and the rest.
pub open spec fn spec_launch_parts(p: ActiveCodexProcess) -> Option<(Seq<char>, Seq<Seq<char>>)> {
    let args = spec_split_command_line(p.command_line@);
    let path = match p.executable_path {
        Some(x) => spec_non_empty(x@),
        None => None,
    };
    match path {
        Some(x) => Some(
            (
                x,
                if args.len() > 0 {
                    args.drop_first()
                } else {
                    args
                },
            ),
        ),
        None => if args.len() > 0 {
            Some((args[0], args.drop_first()))
        } else {
            None
        },
    }
}

/// A process can be started again: its program is known and is a Codex executable.
pub open spec fn spec_launchable(p: ActiveCodexProcess) -> bool {
    match spec_launch_parts(p) {
        Some(parts) => spec_is_codex_executable(parts.0),
        None => false,
    }
}

/// `s` starts `p` again.
pub open spec fn spec_launch_spec_for(p: ActiveCodexProcess, s: CodexLaunchSpec) -> bool {
    match spec_launch_parts(p) {
        Some(parts) => s.pid == p.pid && s.executable@ == parts.0 && str_views(s.args@) == parts.1,
        None => false,
    }
}

/// The error that refuses to start `p` again.
pub open spec fn spec_launch_error_for(p: ActiveCodexProcess, e: ProcessError) -> bool {
    match spec_launch_parts(p) {
        None => e == ProcessError::CannotDetermineRestart { pid: p.pid },
        Some(parts) => e matches ProcessError::UnexpectedExecutable { pid, executable } && pid
            == p.pid && executable@ == parts.0,
    }
}

/// Starting a Codex process again keeps its arguments: the launch spec's arguments are the words
/// of its command line after the first, whether the program comes from the executable path or
/// from the command line; the program is the trimmed executable path when that is not blank, and
/// else the command line's first word.
pub proof fn law_restart_keeps_the_arguments(p: ActiveCodexProcess, s: CodexLaunchSpec)
    requires
        spec_launch_spec_for(p, s),
    ensures
        ({
            let words = spec_split_command_line(p.command_line@);
            &&& s.pid == p.pid
            &&& words.len() > 0 ==> str_views(s.args@) == words.subrange(1, words.len() as int)
            &&& words.len() == 0 ==> s.args@.len() == 0
            &&& (p.executable_path matches Some(x) && spec_trim(x@).len() > 0) ==> s.executable@
                == spec_trim(p.executable_path->Some_0@)
            &&& !(p.executable_path matches Some(x) && spec_trim(x@).len() > 0) ==> words.len() > 0
                && s.executable@ == words[0]
        }),
{
    let words = spec_split_command_line(p.command_line@);
    if words.len() > 0 {
        assert(words.drop_first() =~= words.subrange(1, words.len() as int));
    }
}

/// How to start a running Codex process again, refusing anything that is not Codex.
pub fn build_launch_spec(process: ActiveCodexProcess) -> (r: Result<CodexLaunchSpec, ProcessError>)
    ensures
        r is Ok <==> spec_launchable(process),
        r matches Ok(s) ==> spec_launch_spec_for(process, s),
        r matches Err(e) ==> spec_launch_error_for(process, e),
        r matches Ok(s) ==> {
            let words = spec_split_command_line(process.command_line@);
            &&& words.len() > 0 ==> str_views(s.args@) == words.subrange(1, words.len() as int)
            &&& words.len() == 0 ==> s.args@.len() == 0
        },
{
    let mut args = split_command_line(process.command_line.as_str());
    proof {
        let words = spec_split_command_line(process.command_line@);
        if words.len() > 0 {
            assert(words.drop_first() =~= words.subrange(1, words.len() as int));
        }
    }
    let ghost all = str_views(args@);
    let path = match process.executable_path {
        Some(x) => non_empty_string(x),
        None => None,
    };
    let executable = match path {
        Some(p) => {
            if args.len() > 0 {
                let _ = args.remove(0);
                assert(str_views(args@) =~= all.drop_first());
            }
            p
        },
        None => {
            if args.len() > 0 {
                let first = args.remove(0);
                assert(str_views(args@) =~= all.drop_first());
                first
            } else {
                return Err(ProcessError::CannotDetermineRestart { pid: process.pid });
            }
        },
    };
    if !is_codex_executable(executable.as_str()) {
        return Err(ProcessError::UnexpectedExecutable { pid: process.pid, executable });
    }
    Ok(CodexLaunchSpec { pid: process.pid, executable, args })
}

impl CodexRestartPlan {
    pub fn is_empty(&self) -> (r: bool)
        ensures
            r == (self.processes@.len() == 0),
    {
        self.processes.len() == 0
    }
}

/// Plan to restart every running Codex app instance, refusing the whole plan at the first
/// process that cannot be started again.
pub fn prepare_codex_restart_plan(active_processes: Vec<ActiveCodexProcess>) -> (r: Result<
    CodexRestartPlan,
    ProcessError,
>)
    ensures
        r is Ok <==> forall|i: int|
            0 <= i < active_processes@.len() ==> spec_launchable(#[trigger] active_processes@[i]),
        r matches Ok(plan) ==> {
            &&& plan.processes@.len() == active_processes@.len()
            &&& forall|i: int|
                0 <= i < active_processes@.len() ==> spec_launch_spec_for(
                    #[trigger] active_processes@[i],
                    plan.processes@[i],
                )
        },
        r matches Err(e) ==> exists|i: int|
            {
                &&& 0 <= i < active_processes@.len()
                &&& forall|j: int| 0 <= j < i ==> spec_launchable(#[trigger] active_processes@[j])
                &&& !spec_launchable(active_processes@[i])
                &&& spec_launch_error_for(active_processes@[i], e)
            },
{
    let mut processes: Vec<CodexLaunchSpec> = Vec::new();
    let mut i: usize = 0;
    while i < active_processes.len()
        invariant
            i <= active_processes@.len(),
            processes@.len() == i,
            forall|j: int| 0 <= j < i ==> spec_launchable(#[trigger] active_processes@[j]),
            forall|j: int|
                0 <= j < i ==> spec_launch_spec_for(#[trigger] active_processes@[j], processes@[j]),
        decreases active_processes@.len() - i,
    {
        let p = active_processes[i].duplicate();
        match build_launch_spec(p) {
            Ok(s) => {
                processes.push(s);
            },
            Err(e) => {
                return Err(e);
            },
        }
        i += 1;
    }
    Ok(CodexRestartPlan { processes })
}

/// The plan's processes whose pids are still running, in plan order.
pub open spec fn spec_pids_to_stop(specs: Seq<CodexLaunchSpec>, active: Seq<u32>) -> Seq<u32>
    decreases specs.len(),
{
    if specs.len() == 0 {
        Seq::empty()
    } else {
        let rest = spec_pids_to_stop(specs.drop_last(), active);
        if active.contains(specs.last().pid) {
            rest.push(specs.last().pid)
        } else {
            rest
        }
    }
}

fn contains_pid(pids: &[u32], pid: u32) -> (r: bool)
    ensures
        r == pids@.contains(pid),
{
    let mut i: usize = 0;
    while i < pids.len()
        invariant
            i <= pids.len(),
            forall|j: int| 0 <= j < i ==> pids@[j] != pid,
        decreases pids.len() - i,
    {
        if pids[i] == pid {
            return true;
        }
        i += 1;
    }
    false
}

/// Which processes of a restart plan to stop, given the pids of the live Codex instances.
pub fn stop_codex_for_restart(plan: &CodexRestartPlan, active_pids: &[u32]) -> (r: Vec<u32>)
    ensures
        r@ == spec_pids_to_stop(plan.processes@, active_pids@),
{
    let mut out: Vec<u32> = Vec::new();
    if plan.is_empty() {
        return out;
    }
    let mut i: usize = 0;
    assert(plan.processes@.take(0) =~= Seq::<CodexLaunchSpec>::empty());
    while i < plan.processes.len()
        invariant
            i <= plan.processes@.len(),
            out@ == spec_pids_to_stop(plan.processes@.take(i as int), active_pids@),
        decreases plan.processes@.len() - i,
    {
        assert(plan.processes@.take(i + 1).drop_last() =~= plan.processes@.take(i as int));
        let pid = plan.processes[i].pid;
        if contains_pid(active_pids, pid) {
            out.push(pid);
        }
        i += 1;
    }
    assert(plan.processes@.take(i as int) =~= plan.processes@);
    out
}

/// The processes to start again after the switch, in plan order.
pub fn start_codex_from_restart_plan(plan: &CodexRestartPlan) -> (r: &[CodexLaunchSpec])
    ensures
        r@ == plan.processes@,
{
    plan.processes.as_slice()
}

/// Whether a process is still among the live Codex instances.
pub fn codex_process_is_still_active(pid: u32, active_pids: &[u32]) -> (r: bool)
    ensures
        r == active_pids@.contains(pid),
{
    contains_pid(active_pids, pid)
}

/// Switching accounts is allowed only while no Codex app instance runs.
pub fn ensure_switch_allowed(active_pids: &[u32]) -> (r: Result<(), ProcessError>)
    ensures
        r is Ok <==> active_pids@.len() == 0,
        r is Err ==> r == Err::<(), ProcessError>(
            ProcessError::SwitchBlocked { active: active_pids@.len() as usize },
        ),
{
    if active_pids.len() == 0 {
        Ok(())
    } else {
        Err(ProcessError::SwitchBlocked { active: active_pids.len() })
    }
}

/// The report of a process scan.
pub fn check_codex_processes(pids: Vec<u32>, background_count: usize) -> (r: CodexProcessInfo)
    ensures
        r.count == pids@.len(),
        r.background_count == background_count,
        r.can_switch == (pids@.len() == 0),
        r.pids@ == pids@,
{
    let count = pids.len();
    CodexProcessInfo { count, background_count, can_switch: count == 0, pids }
}

/// After stopping a process: a failed stop is an error only while the process still runs.
pub fn codex_stop_outcome(pid: u32, stop_succeeded: bool, still_active: bool, details: String) -> (r:
    Result<(), ProcessError>)
    ensures
        r is Ok <==> (stop_succeeded || !still_active),
        r is Err ==> r == Err::<(), ProcessError>(ProcessError::StopFailed { pid, details }),
{
    if !stop_succeeded && still_active {
        Err(ProcessError::StopFailed { pid, details })
    } else {
        Ok(())
    }
}

/// What to report of a failed command: its error output, trimmed, when there is any; else its
/// standard output, trimmed; else `process exited with status` and the exit status.
pub fn command_failure_details(stderr: &str, stdout: &str, status: &str) -> (r: String)
    ensures
        r@ == if spec_trim(stderr@).len() > 0 {
            spec_trim(stderr@)
        } else if spec_trim(stdout@).len() > 0 {
            spec_trim(stdout@)
        } else {
            "process exited with status "@ + status@
        },
{
    let e = trim_chars(chars_of(stderr).as_slice());
    if e.len() > 0 {
        return string_from_chars(e.as_slice());
    }
    let o = trim_chars(chars_of(stdout).as_slice());
    if o.len() > 0 {
        return string_from_chars(o.as_slice());
    }
    let head = chars_of("process exited with status ");
    let tail = chars_of(status);
    string_from_chars(concat_chars(head.as_slice(), tail.as_slice()).as_slice())
}

/// One poll while waiting for Codex to close: done when no instance is left, an error once the
/// deadline has passed, else keep waiting (`Ok(false)`).
pub fn switch_guard_poll(active_pids: Vec<u32>, deadline_passed: bool) -> (r: Result<
    bool,
    ProcessError,
>)
    ensures
        active_pids@.len() == 0 ==> r == Ok::<bool, ProcessError>(true),
        active_pids@.len() > 0 && !deadline_passed ==> r == Ok::<bool, ProcessError>(false),
        active_pids@.len() > 0 && deadline_passed ==> (r matches Err(ProcessError::TimedOut {
            remaining,
        }) && remaining@ == active_pids@),
{
    if active_pids.len() == 0 {
        Ok(true)
    } else if deadline_passed {
        Err(ProcessError::TimedOut { remaining: active_pids })
    } else {
        Ok(false)
    }
}


/// One entry of the Windows process list (`Win32_Process` joined with window titles).
#[derive(Debug, Clone)]
pub struct WindowsCodexProcess {
    pub name: String,
    pub process_id: u32,
    pub parent_process_id: u32,
    pub command_line: String,
    pub executable_path: String,
    pub main_window_title: String,
}

/// The top-level host process of a Codex desktop instance: `Codex.exe`, or the Microsoft Store
/// package's renamed `ChatGPT.exe` host, and neither a helper (`--type=`), the bundled CLI
/// (`resources\codex.exe`) nor this switcher.
pub open spec fn spec_is_windows_codex_root(p: WindowsCodexProcess) -> bool {
    let name = spec_lower(p.name@);
    let command = spec_lower(p.command_line@);
    let executable = spec_normalized_path(p.executable_path@);
    let is_host = name == "codex.exe"@ || (name == "chatgpt.exe"@ && spec_contains(
        executable,
        "/windowsapps/openai.codex_"@,
    ));
    is_host && !spec_contains(command, "codex-switcher"@) && !spec_contains(command, "--type="@)
        && !spec_contains(command, "resources\\codex.exe"@)
}

pub fn is_windows_codex_root_process(process: &WindowsCodexProcess) -> (r: bool)
    ensures
        r == spec_is_windows_codex_root(*process),
{
    let name_raw = chars_of(process.name.as_str());
    let name = lower_chars(name_raw.as_slice());
    let command_raw = chars_of(process.command_line.as_str());
    let command = lower_chars(command_raw.as_slice());
    let exe_raw = chars_of(process.executable_path.as_str());
    let executable = normalized_path(exe_raw.as_slice());
    let desktop = chars_of("codex.exe");
    let store_host = chars_of("chatgpt.exe");
    let store_dir = chars_of("/windowsapps/openai.codex_");
    let switcher = chars_of("codex-switcher");
    let helper = chars_of("--type=");
    let bundled = chars_of("resources\\codex.exe");
    let is_host = chars_eq(name.as_slice(), desktop.as_slice()) || (chars_eq(
        name.as_slice(),
        store_host.as_slice(),
    ) && contains(executable.as_slice(), store_dir.as_slice()));
    is_host && !contains(command.as_slice(), switcher.as_slice()) && !contains(
        command.as_slice(),
        helper.as_slice(),
    ) && !contains(command.as_slice(), bundled.as_slice())
}

/// What a descendant of a Codex host is looked for.
#[derive(Debug, Clone, Copy, PartialEq, Eq)]
pub enum DescendantCheck {
    /// An Electron renderer: the app has a window's content loaded.
    Renderer,
    /// The bundled CLI running as the app's server.
    AppServer,
}

pub open spec fn spec_descendant_matches(check: DescendantCheck, p: WindowsCodexProcess) -> bool {
    let command = spec_lower(p.command_line@);
    match check {
        DescendantCheck::Renderer => spec_contains(command, "--type=renderer"@),
        DescendantCheck::AppServer => spec_contains(command, "resources\\codex.exe"@)
            && spec_contains(command, "app-server"@),
    }
}

fn descendant_matches(check: DescendantCheck, p: &WindowsCodexProcess) -> (r: bool)
    ensures
        r == spec_descendant_matches(check, *p),
{
    let raw = chars_of(p.command_line.as_str());
    let command = lower_chars(raw.as_slice());
    match check {
        DescendantCheck::Renderer => {
            let pat = chars_of("--type=renderer");
            contains(command.as_slice(), pat.as_slice())
        },
        DescendantCheck::AppServer => {
            let bundled = chars_of("resources\\codex.exe");
            let server = chars_of("app-server");
            contains(command.as_slice(), bundled.as_slice()) && contains(
                command.as_slice(),
                server.as_slice(),
            )
        },
    }
}

/// `c` lists entries each the child of the one before, the first a child of `root`.
pub open spec fn spec_is_chain(ps: Seq<WindowsCodexProcess>, root: u32, c: Seq<int>) -> bool {
    &&& c.len() > 0
    &&& forall|t: int| 0 <= t < c.len() ==> 0 <= #[trigger] c[t] < ps.len()
    &&& ps[c[0]].parent_process_id == root
    &&& forall|t: int|
        0 <= t < c.len() - 1 ==> ps[#[trigger] c[t + 1]].parent_process_id == ps[c[t]].process_id
}

/// Entry `j` descends from the process `root`.
pub open spec fn spec_descends(ps: Seq<WindowsCodexProcess>, root: u32, j: int) -> bool {
    exists|c: Seq<int>| #[trigger] spec_is_chain(ps, root, c) && c.last() == j
}

/// Some descendant of `root` passes the check.
pub open spec fn spec_has_descendant(
    ps: Seq<WindowsCodexProcess>,
    root: u32,
    check: DescendantCheck,
) -> bool {
    exists|j: int| #[trigger] spec_descends(ps, root, j) && spec_descendant_matches(check, ps[j])
}

/// No two entries share a process id.
pub open spec fn spec_distinct_pids(ps: Seq<WindowsCodexProcess>) -> bool {
    forall|a: int, b: int|
        0 <= a < ps.len() && 0 <= b < ps.len() && a != b ==> ps[a].process_id
            != ps[b].process_id
}

/// A visited pid: some entry with it descends from the root and fails the check.
pub open spec fn spec_visited_ok(
    ps: Seq<WindowsCodexProcess>,
    root: u32,
    check: DescendantCheck,
    pid: u32,
) -> bool {
    exists|c: Seq<int>|
        #[trigger] spec_is_chain(ps, root, c) && ps[c.last()].process_id == pid
            && !spec_descendant_matches(check, ps[c.last()])
}

/// Entries (among the first `n`) whose pid has not been visited.
pub open spec fn spec_unvisited(ps: Seq<WindowsCodexProcess>, visited: Seq<u32>, n: int) -> nat
    decreases n,
{
    if n <= 0 {
        0
    } else {
        spec_unvisited(ps, visited, n - 1) + if visited.contains(ps[n - 1].process_id) {
            0nat
        } else {
            1nat
        }
    }
}

proof fn lemma_unvisited_shrinks(
    ps: Seq<WindowsCodexProcess>,
    v1: Seq<u32>,
    v2: Seq<u32>,
    n: int,
    j: int,
)
    requires
        0 <= n <= ps.len(),
        forall|x: u32| v1.contains(x) ==> v2.contains(x),
    ensures
        spec_unvisited(ps, v2, n) <= spec_unvisited(ps, v1, n),
        0 <= j < n && v2.contains(ps[j].process_id) && !v1.contains(ps[j].process_id)
            ==> spec_unvisited(ps, v2, n) < spec_unvisited(ps, v1, n),
    decreases n,
{
    if n > 0 {
        lemma_unvisited_shrinks(ps, v1, v2, n - 1, j);
    }
}

proof fn lemma_child_descends(
    ps: Seq<WindowsCodexProcess>,
    root: u32,
    check: DescendantCheck,
    parent: u32,
    i: int,
) -> (c: Seq<int>)
    requires
        0 <= i < ps.len(),
        ps[i].parent_process_id == parent,
        parent == root || spec_visited_ok(ps, root, check, parent),
    ensures
        spec_is_chain(ps, root, c),
        c.last() == i,
{
    if parent == root {
        let c = seq![i];
        assert(spec_is_chain(ps, root, c));
        c
    } else {
        let c0 = choose|c: Seq<int>|
            #[trigger] spec_is_chain(ps, root, c) && ps[c.last()].process_id == parent
                && !spec_descendant_matches(check, ps[c.last()]);
        let c = c0.push(i);
        assert forall|t: int| 0 <= t < c.len() - 1 implies ps[#[trigger] c[t + 1]].parent_process_id
            == ps[c[t]].process_id by {
            if t < c0.len() - 1 {
                assert(c[t + 1] == c0[t + 1]);
            }
        }
        assert(spec_is_chain(ps, root, c));
        c
    }
}

proof fn lemma_closed_reaches_all(
    ps: Seq<WindowsCodexProcess>,
    root: u32,
    visited: Seq<u32>,
    c: Seq<int>,
)
    requires
        forall|i: int|
            0 <= i < ps.len() && (ps[i].parent_process_id == root || visited.contains(
                ps[i].parent_process_id,
            )) ==> visited.contains(#[trigger] ps[i].process_id),
        spec_is_chain(ps, root, c),
    ensures
        visited.contains(ps[c.last()].process_id),
    decreases c.len(),
{
    if c.len() > 1 {
        let p = c.drop_last();
        assert(spec_is_chain(ps, root, p)) by {
            assert forall|t: int| 0 <= t < p.len() - 1 implies ps[#[trigger] p[t + 1]].parent_process_id
                == ps[p[t]].process_id by {
                assert(p[t + 1] == c[t + 1]);
            }
        }
        lemma_closed_reaches_all(ps, root, visited, p);
        let t = c.len() - 2;
        assert(ps[c[t + 1]].parent_process_id == ps[c[t]].process_id);
        assert(c[t + 1] == c.last());
        assert(c[t] == p.last());
    }
    assert(0 <= c.last() < ps.len());
}

/// Whether some process below `root_pid` in the parent tree passes the check, walking the tree
/// from the root and visiting each process id once.
pub fn windows_has_descendant_matching(
    root_pid: u32,
    processes: &[WindowsCodexProcess],
    check: DescendantCheck,
) -> (r: bool)
    ensures
        r ==> spec_has_descendant(processes@, root_pid, check),
        spec_distinct_pids(processes@) ==> (r == spec_has_descendant(processes@, root_pid, check)),
{
    let ghost ps = processes@;
    let mut queue: Vec<u32> = Vec::new();
    queue.push(root_pid);
    let mut visited: Vec<u32> = Vec::new();
    assert(queue@[0] == root_pid);
    assert(queue@.contains(root_pid));
    while queue.len() > 0
        invariant
            ps == processes@,
            forall|q: int|
                0 <= q < queue@.len() ==> queue@[q] == root_pid || visited@.contains(
                    #[trigger] queue@[q],
                ),
            forall|v: int|
                0 <= v < visited@.len() ==> #[trigger] spec_visited_ok(
                    ps,
                    root_pid,
                    check,
                    visited@[v],
                ),
            forall|j: int|
                0 <= j < ps.len() && (ps[j].parent_process_id == root_pid || visited@.contains(
                    ps[j].parent_process_id,
                )) && !queue@.contains(ps[j].parent_process_id) ==> visited@.contains(
                    #[trigger] ps[j].process_id,
                ),
        decreases spec_unvisited(ps, visited@, ps.len() as int), queue@.len(),
    {
        let ghost q0 = queue@;
        let ghost v0 = visited@;
        let parent = match queue.pop() {
            Some(p) => p,
            None => {
                return false;
            },
        };
        let ghost qp = queue@;
        assert(q0 == qp.push(parent));
        proof {
            if parent != root_pid {
                assert(q0[q0.len() - 1] == parent);
                let idx = choose|v: int| 0 <= v < v0.len() && v0[v] == parent;
                assert(spec_visited_ok(ps, root_pid, check, v0[idx]));
            }
        }
        let mut i: usize = 0;
        while i < processes.len()
            invariant
                ps == processes@,
                i <= ps.len(),
                parent == root_pid || spec_visited_ok(ps, root_pid, check, parent),
                v0.is_prefix_of(visited@),
                forall|w: int|
                    v0.len() <= w < visited@.len() ==> !v0.contains(#[trigger] visited@[w]),
                queue@ == qp + visited@.skip(v0.len() as int),
                q0 == qp.push(parent),
                forall|q: int|
                    0 <= q < qp.len() ==> qp[q] == root_pid || v0.contains(#[trigger] qp[q]),
                forall|v: int|
                    0 <= v < visited@.len() ==> #[trigger] spec_visited_ok(
                        ps,
                        root_pid,
                        check,
                        visited@[v],
                    ),
                forall|j: int|
                    0 <= j < ps.len() && (ps[j].parent_process_id == root_pid || v0.contains(
                        ps[j].parent_process_id,
                    )) && !q0.contains(ps[j].parent_process_id) ==> v0.contains(
                        #[trigger] ps[j].process_id,
                    ),
                forall|j: int|
                    0 <= j < i && ps[j].parent_process_id == parent ==> visited@.contains(
                        #[trigger] ps[j].process_id,
                    ),
            decreases ps.len() - i,
        {
            if processes[i].parent_process_id == parent {
                let pid = processes[i].process_id;
                if !contains_pid(visited.as_slice(), pid) {
                    let ghost vb = visited@;
                    let ghost qb = queue@;
                    let ghost c = lemma_child_descends(ps, root_pid, check, parent, i as int);
                    if descendant_matches(check, &processes[i]) {
                        assert(spec_descends(ps, root_pid, i as int));
                        return true;
                    }
                    visited.push(pid);
                    queue.push(pid);
                    proof {
                        assert(spec_visited_ok(ps, root_pid, check, pid));
                        assert forall|v: int| 0 <= v < visited@.len() implies #[trigger] spec_visited_ok(
                            ps,
                            root_pid,
                            check,
                            visited@[v],
                        ) by {
                            if v < vb.len() {
                                assert(visited@[v] == vb[v]);
                            }
                        }
                        assert(v0.is_prefix_of(visited@)) by {
                            assert(forall|x: int| 0 <= x < v0.len() ==> visited@[x] == vb[x]);
                        }
                        assert(!v0.contains(pid)) by {
                            if v0.contains(pid) {
                                let w = choose|w: int| 0 <= w < v0.len() && v0[w] == pid;
                                assert(vb[w] == v0[w]);
                            }
                        }
                        assert forall|w: int|
                            v0.len() <= w < visited@.len() implies !v0.contains(
                            #[trigger] visited@[w],
                        ) by {
                            if w < vb.len() {
                                assert(visited@[w] == vb[w]);
                            }
                        }
                        assert(visited@.skip(v0.len() as int) =~= vb.skip(v0.len() as int).push(
                            pid,
                        ));
                        assert(queue@ =~= qp + visited@.skip(v0.len() as int));
                        assert forall|j: int|
                            0 <= j < i + 1 && ps[j].parent_process_id
                                == parent implies visited@.contains(#[trigger] ps[j].process_id) by {
                            if j < i {
                                assert(vb.contains(ps[j].process_id));
                                let w = choose|w: int| 0 <= w < vb.len() && vb[w] == ps[j].process_id;
                                assert(visited@[w] == vb[w]);
                            } else {
                                assert(visited@[visited@.len() - 1] == pid);
                            }
                        }
                    }
                }
            }
            i += 1;
        }
        proof {
            let vn = visited@;
            let qn = queue@;
            assert forall|x: u32| v0.contains(x) implies vn.contains(x) by {
                let w = choose|w: int| 0 <= w < v0.len() && v0[w] == x;
                assert(vn[w] == v0[w]);
            }
            assert forall|q: int|
                0 <= q < qn.len() implies qn[q] == root_pid || vn.contains(#[trigger] qn[q]) by {
                if q < qp.len() {
                    assert(qn[q] == qp[q]);
                    if qp[q] != root_pid {
                        assert(v0.contains(qp[q]));
                    }
                } else {
                    assert(qn[q] == vn.skip(v0.len() as int)[q - qp.len()]);
                    assert(vn.contains(vn[v0.len() + q - qp.len()]));
                }
            }
            assert forall|j: int|
                0 <= j < ps.len() && (ps[j].parent_process_id == root_pid || vn.contains(
                    ps[j].parent_process_id,
                )) && !qn.contains(ps[j].parent_process_id) implies vn.contains(
                #[trigger] ps[j].process_id,
            ) by {
                let pp = ps[j].parent_process_id;
                if pp != parent {
                    if pp != root_pid && !v0.contains(pp) {
                        let w = choose|w: int| 0 <= w < vn.len() && vn[w] == pp;
                        assert(w >= v0.len()) by {
                            if w < v0.len() {
                                assert(v0[w] == vn[w]);
                            }
                        }
                        assert(qn[qp.len() + w - v0.len()] == pp);
                        assert(false);
                    }
                    assert(!q0.contains(pp)) by {
                        if q0.contains(pp) {
                            let w = choose|w: int| 0 <= w < q0.len() && q0[w] == pp;
                            assert(w < qp.len());
                            assert(qn[w] == qp[w]);
                        }
                    }
                    assert(v0.contains(ps[j].process_id));
                }
            }
            if vn.len() > v0.len() {
                let w = v0.len() as int;
                let x = vn[w];
                assert(spec_visited_ok(ps, root_pid, check, x));
                let cc = choose|cc: Seq<int>|
                    #[trigger] spec_is_chain(ps, root_pid, cc) && ps[cc.last()].process_id == x
                        && !spec_descendant_matches(check, ps[cc.last()]);
                assert(0 <= cc.last() < ps.len());
                lemma_unvisited_shrinks(ps, v0, vn, ps.len() as int, cc.last());
            } else {
                assert(vn =~= v0);
                lemma_unvisited_shrinks(ps, v0, vn, ps.len() as int, 0);
                assert(qn.len() == qp.len());
            }
        }
    }
    proof {
        let vn = visited@;
        assert forall|j: int|
            0 <= j < ps.len() && (ps[j].parent_process_id == root_pid || vn.contains(
                ps[j].parent_process_id,
            )) implies vn.contains(#[trigger] ps[j].process_id) by {
            assert(!queue@.contains(ps[j].parent_process_id));
        }
        if spec_distinct_pids(ps) {
            assert forall|j: int| #[trigger] spec_descends(ps, root_pid, j) implies !spec_descendant_matches(check, ps[j]) by {
                let c = choose|c: Seq<int>| #[trigger] spec_is_chain(ps, root_pid, c) && c.last() == j;
                lemma_closed_reaches_all(ps, root_pid, vn, c);
                let w = choose|w: int| 0 <= w < vn.len() && vn[w] == ps[j].process_id;
                assert(spec_visited_ok(ps, root_pid, check, vn[w]));
                let cc = choose|cc: Seq<int>|
                    #[trigger] spec_is_chain(ps, root_pid, cc) && ps[cc.last()].process_id == vn[w]
                        && !spec_descendant_matches(check, ps[cc.last()]);
                assert(0 <= cc.last() < ps.len());
                assert(0 <= c.last() < ps.len());
                assert(cc.last() == j);
            }
        }
    }
    false
}


/// What the selection keeps of an active process: its pid, command line and executable path.
pub open spec fn active_view(a: ActiveCodexProcess) -> (u32, Seq<char>, Option<Seq<char>>) {
    (a.pid, a.command_line@, opt_view(a.executable_path))
}

pub open spec fn active_views(r: Seq<ActiveCodexProcess>) -> Seq<(u32, Seq<char>, Option<Seq<char>>)> {
    r.map_values(|a: ActiveCodexProcess| active_view(a))
}

/// `x` occurs in `s` and is the first entry there with its pid.
pub open spec fn spec_first_of_pid(
    s: Seq<(u32, Seq<char>, Option<Seq<char>>)>,
    x: (u32, Seq<char>, Option<Seq<char>>),
) -> bool {
    exists|i: int|
        0 <= i < s.len() && #[trigger] s[i] == x && forall|k: int| 0 <= k < i ==> s[k].0 != x.0
}

/// Some entry of `r` has the pid.
pub open spec fn spec_pid_listed(r: Seq<(u32, Seq<char>, Option<Seq<char>>)>, pid: u32) -> bool {
    exists|a: int| 0 <= a < r.len() && #[trigger] r[a].0 == pid
}

/// `r` is `s` sorted by pid with later duplicates of a pid dropped (a stable sort, then dedup).
pub open spec fn spec_sorted_dedup(
    r: Seq<(u32, Seq<char>, Option<Seq<char>>)>,
    s: Seq<(u32, Seq<char>, Option<Seq<char>>)>,
) -> bool {
    &&& forall|a: int, b: int| 0 <= a < b < r.len() ==> r[a].0 < r[b].0
    &&& forall|a: int| 0 <= a < r.len() ==> #[trigger] spec_first_of_pid(s, r[a])
    &&& forall|i: int| 0 <= i < s.len() ==> #[trigger] spec_pid_listed(r, s[i].0)
}

fn insert_by_pid(
    r: &mut Vec<ActiveCodexProcess>,
    x: ActiveCodexProcess,
    Ghost(s): Ghost<Seq<(u32, Seq<char>, Option<Seq<char>>)>>,
)
    requires
        spec_sorted_dedup(active_views(old(r)@), s),
    ensures
        spec_sorted_dedup(active_views(final(r)@), s.push(active_view(x))),
{
    let ghost r0 = active_views(r@);
    let ghost s1 = s.push(active_view(x));
    let mut i: usize = 0;
    while i < r.len() && r[i].pid < x.pid
        invariant
            i <= r@.len(),
            r0 == active_views(r@),
            forall|a: int| 0 <= a < i ==> r@[a].pid < x.pid,
        decreases r@.len() - i,
    {
        i += 1;
    }
    assert forall|a: int| 0 <= a < r0.len() implies #[trigger] spec_first_of_pid(s1, r0[a]) by {
        assert(spec_first_of_pid(s, r0[a]));
        let w = choose|w: int|
            0 <= w < s.len() && #[trigger] s[w] == r0[a] && forall|k: int|
                0 <= k < w ==> s[k].0 != r0[a].0;
        assert(s1[w] == s[w]);
        assert forall|k: int| 0 <= k < w implies s1[k].0 != r0[a].0 by {
            assert(s1[k] == s[k]);
        }
    }
    if i < r.len() && r[i].pid == x.pid {
        assert(r0[i as int].0 == x.pid);
        assert forall|j: int| 0 <= j < s1.len() implies #[trigger] spec_pid_listed(r0, s1[j].0) by {
            if j < s.len() {
                assert(s1[j] == s[j]);
                assert(spec_pid_listed(r0, s[j].0));
            } else {
                assert(r0[i as int].0 == s1[j].0);
            }
        }
        return ;
    }
    assert forall|a: int| 0 <= a < r0.len() implies r0[a].0 != x.pid by {
        if a >= i {
            if a > i {
                assert(r0[i as int].0 < r0[a].0);
            }
        }
    }
    r.insert(i, x);
    proof {
        let rn = active_views(r@);
        assert(rn =~= r0.insert(i as int, active_view(x)));
        assert forall|a: int, b: int| 0 <= a < b < rn.len() implies rn[a].0 < rn[b].0 by {
            if a < i && b < i {
            } else if a < i && b == i {
            } else if a < i {
                assert(rn[b] == r0[b - 1]);
            } else if a == i {
                assert(rn[b] == r0[b - 1]);
                if b - 1 > i {
                    assert(r0[i as int].0 < r0[b - 1].0);
                }
            } else {
                assert(rn[a] == r0[a - 1]);
                assert(rn[b] == r0[b - 1]);
            }
        }
        assert forall|a: int| 0 <= a < rn.len() implies #[trigger] spec_first_of_pid(s1, rn[a]) by {
            if a < i {
                assert(rn[a] == r0[a]);
                assert(spec_first_of_pid(s1, r0[a]));
            } else if a == i {
                assert(s1[s.len() as int] == active_view(x));
                assert forall|k: int| 0 <= k < s.len() implies s1[k].0 != x.pid by {
                    assert(s1[k] == s[k]);
                    assert(spec_pid_listed(r0, s[k].0));
                }
            } else {
                assert(rn[a] == r0[a - 1]);
                assert(spec_first_of_pid(s1, r0[a - 1]));
            }
        }
        assert forall|j: int| 0 <= j < s1.len() implies #[trigger] spec_pid_listed(rn, s1[j].0) by {
            if j < s.len() {
                assert(s1[j] == s[j]);
                assert(spec_pid_listed(r0, s[j].0));
                let a = choose|a: int| 0 <= a < r0.len() && #[trigger] r0[a].0 == s[j].0;
                if a < i {
                    assert(rn[a] == r0[a]);
                } else {
                    assert(rn[a + 1] == r0[a]);
                }
            } else {
                assert(rn[i as int].0 == s1[j].0);
            }
        }
    }
}

/// The effect of one entry of the Windows process list: `None` when it is no Codex host, else
/// whether it is ignored (an IDE plugin, or a stale host with no window, renderer or
/// app-server) or kept as an active instance.
pub open spec fn spec_windows_entry(ps: Seq<WindowsCodexProcess>, p: WindowsCodexProcess) -> Option<
    Option<(u32, Seq<char>, Option<Seq<char>>)>,
> {
    if !spec_is_windows_codex_root(p) {
        None
    } else if spec_is_ide_plugin(spec_lower(p.command_line@)) {
        Some(None)
    } else if !crate::text::spec_is_blank(p.main_window_title@) || spec_has_descendant(
        ps,
        p.process_id,
        DescendantCheck::Renderer,
    ) || spec_has_descendant(ps, p.process_id, DescendantCheck::AppServer) {
        Some(Some((p.process_id, p.command_line@, spec_non_empty(p.executable_path@))))
    } else {
        Some(None)
    }
}

/// The active instances (before sorting) and the ignored count over the first `n` entries.
pub open spec fn spec_windows_scan(ps: Seq<WindowsCodexProcess>, n: int) -> (
    Seq<(u32, Seq<char>, Option<Seq<char>>)>,
    nat,
)
    decreases n,
{
    if n <= 0 {
        (Seq::empty(), 0)
    } else {
        let prev = spec_windows_scan(ps, n - 1);
        match spec_windows_entry(ps, ps[n - 1]) {
            None => prev,
            Some(None) => (prev.0, prev.1 + 1),
            Some(Some(v)) => (prev.0.push(v), prev.1),
        }
    }
}

/// How many of the first `n` entries are Codex hosts.
pub open spec fn spec_windows_hosts(ps: Seq<WindowsCodexProcess>, n: int) -> nat
    decreases n,
{
    if n <= 0 {
        0
    } else {
        spec_windows_hosts(ps, n - 1) + if spec_is_windows_codex_root(ps[n - 1]) {
            1nat
        } else {
            0nat
        }
    }
}

/// How many of the first `n` entries are Codex hosts that are not kept (see
/// `spec_windows_entry`).
pub open spec fn spec_windows_not_kept(ps: Seq<WindowsCodexProcess>, n: int) -> nat
    decreases n,
{
    if n <= 0 {
        0
    } else {
        spec_windows_not_kept(ps, n - 1) + if spec_windows_entry(ps, ps[n - 1]) == Some(
            None::<(u32, Seq<char>, Option<Seq<char>>)>,
        ) {
            1nat
        } else {
            0nat
        }
    }
}

/// Some listed entry with these values is a Codex host kept as an active instance.
pub open spec fn spec_kept_entry(
    ps: Seq<WindowsCodexProcess>,
    v: (u32, Seq<char>, Option<Seq<char>>),
) -> bool {
    exists|j: int|
        0 <= j < ps.len() && #[trigger] spec_windows_entry(ps, ps[j]) == Some(Some(v))
}

/// The live Codex desktop instances in a Windows process list, sorted by pid with one entry per
/// pid, and how many Codex hosts were ignored. Every instance reported is a listed Codex host
/// that is kept (see `spec_windows_entry`), and the ignored count lies between the hosts that are
/// not kept and all hosts. With distinct pids the report is exactly the scan; where a pid repeats,
/// the walk below a host visits each pid once, so a later entry with a visited pid is not looked
/// at.
pub fn find_windows_active_codex_processes(processes: &[WindowsCodexProcess]) -> (r: (
    Vec<ActiveCodexProcess>,
    usize,
))
    ensures
        forall|a: int, b: int| 0 <= a < b < r.0@.len() ==> r.0@[a].pid < r.0@[b].pid,
        forall|a: int| 0 <= a < r.0@.len() ==> spec_kept_entry(processes@, active_view(#[trigger] r.0@[a])),
        spec_windows_not_kept(processes@, processes@.len() as int) <= r.1 <= spec_windows_hosts(
            processes@,
            processes@.len() as int,
        ),
        spec_distinct_pids(processes@) ==> {
            let scan = spec_windows_scan(processes@, processes@.len() as int);
            &&& spec_sorted_dedup(active_views(r.0@), scan.0)
            &&& r.1 == scan.1
        },
{
    let ghost ps = processes@;
    let mut active: Vec<ActiveCodexProcess> = Vec::new();
    let mut ignored: usize = 0;
    let ghost mut seen: Seq<(u32, Seq<char>, Option<Seq<char>>)> = Seq::empty();
    let mut i: usize = 0;
    while i < processes.len()
        invariant
            ps == processes@,
            i <= ps.len(),
            ignored <= i,
            spec_windows_not_kept(ps, i as int) <= ignored <= spec_windows_hosts(ps, i as int),
            spec_sorted_dedup(active_views(active@), seen),
            forall|t: int| 0 <= t < seen.len() ==> spec_kept_entry(ps, #[trigger] seen[t]),
            spec_distinct_pids(ps) ==> (seen, ignored as nat) == spec_windows_scan(ps, i as int),
        decreases ps.len() - i,
    {
        let p = &processes[i];
        if is_windows_codex_root_process(p) {
            let raw = chars_of(p.command_line.as_str());
            let command = lower_chars(raw.as_slice());
            let command_text = string_from_chars(command.as_slice());
            if is_ide_plugin_process(command_text.as_str()) {
                ignored += 1;
            } else {
                let has_window = !crate::text::is_blank(p.main_window_title.as_str());
                let has_renderer = windows_has_descendant_matching(
                    p.process_id,
                    processes,
                    DescendantCheck::Renderer,
                );
                let has_app_server = windows_has_descendant_matching(
                    p.process_id,
                    processes,
                    DescendantCheck::AppServer,
                );
                if has_window || has_renderer || has_app_server {
                    let entry = ActiveCodexProcess {
                        pid: p.process_id,
                        command_line: clone_string(&p.command_line),
                        executable_path: non_empty_string(clone_string(&p.executable_path)),
                    };
                    let ghost v = active_view(entry);
                    proof {
                        assert(spec_windows_entry(ps, ps[i as int]) == Some(Some(v)));
                    }
                    insert_by_pid(&mut active, entry, Ghost(seen));
                    proof {
                        seen = seen.push(v);
                    }
                } else {
                    ignored += 1;
                }
            }
        }
        i += 1;
    }
    proof {
        let v = active_views(active@);
        assert forall|a: int, b: int| 0 <= a < b < active@.len() implies active@[a].pid
            < active@[b].pid by {
            assert(v[a].0 == active@[a].pid);
            assert(v[b].0 == active@[b].pid);
        }
        assert forall|a: int| 0 <= a < active@.len() implies spec_kept_entry(
            ps,
            active_view(#[trigger] active@[a]),
        ) by {
            assert(v[a] == active_view(active@[a]));
            assert(spec_first_of_pid(seen, v[a]));
            let t = choose|t: int|
                0 <= t < seen.len() && #[trigger] seen[t] == v[a] && forall|k: int|
                    0 <= k < t ==> seen[k].0 != v[a].0;
            assert(spec_kept_entry(ps, seen[t]));
        }
    }
    (active, ignored)
}


/// The pid text and the command of a `ps -eo pid,command` line: the trimmed line split at its
/// first space.
pub open spec fn spec_ps_fields(line: Seq<char>) -> Option<(Seq<char>, Seq<char>)> {
    let t = spec_trim(line);
    let k = spec_find_from(t, ' ', 0);
    if k >= t.len() {
        None
    } else {
        Some((t.take(k), t.skip(k + 1)))
    }
}

fn ps_fields(line: &[char]) -> (r: Option<(Vec<char>, Vec<char>)>)
    ensures
        match r {
            Some((a, b)) => spec_ps_fields(line@) == Some((a@, b@)),
            None => spec_ps_fields(line@) is None,
        },
{
    let t = trim_chars(line);
    proof {
        lemma_find_from(t@, ' ', 0);
    }
    let k = find_from(t.as_slice(), ' ', 0);
    if k >= t.len() {
        return None;
    }
    let a = sub_chars(t.as_slice(), 0, k);
    let b = sub_chars(t.as_slice(), k + 1, t.len());
    assert(a@ =~= t@.take(k as int));
    assert(b@ =~= t@.skip(k + 1));
    Some((a, b))
}

/// A `ps` line that shows a Codex CLI process (`codex` or a path ending in `/codex`) other than
/// this switcher, with a valid pid: its pid, whether it belongs to an IDE plugin, its command.
pub open spec fn spec_ps_codex_entry(line: Seq<char>) -> Option<(u32, bool, Seq<char>)> {
    match spec_ps_fields(line) {
        None => None,
        Some(fields) => {
            let command = spec_trim(fields.1);
            let exe = spec_first_word(command);
            let is_codex = exe == "codex"@ || spec_ends_with(exe, "/codex"@);
            let is_switcher = spec_contains(command, "codex-switcher"@) || spec_contains(
                command,
                "Codex Switcher"@,
            ) || spec_contains(command, "ChatGPT Codex Switcher"@);
            if is_codex && !is_switcher {
                match spec_parse_unsigned(spec_trim(fields.0), u32::MAX as nat) {
                    Some(v) => Some((v as u32, spec_is_ide_plugin(command), command)),
                    None => None,
                }
            } else {
                None
            }
        },
    }
}

fn ps_codex_entry(line: &[char]) -> (r: Option<(u32, bool, String)>)
    ensures
        match r {
            Some((pid, plugin, command)) => spec_ps_codex_entry(line@) == Some(
                (pid, plugin, command@),
            ),
            None => spec_ps_codex_entry(line@) is None,
        },
{
    let (pid_text, rest) = match ps_fields(line) {
        Some(f) => f,
        None => {
            return None;
        },
    };
    let command = trim_chars(rest.as_slice());
    let exe = first_word(command.as_slice());
    let cli = chars_of("codex");
    let cli_path = chars_of("/codex");
    let is_codex = chars_eq(exe.as_slice(), cli.as_slice()) || ends_with(
        exe.as_slice(),
        cli_path.as_slice(),
    );
    let s1 = chars_of("codex-switcher");
    let s2 = chars_of("Codex Switcher");
    let s3 = chars_of("ChatGPT Codex Switcher");
    let is_switcher = contains(command.as_slice(), s1.as_slice()) || contains(
        command.as_slice(),
        s2.as_slice(),
    ) || contains(command.as_slice(), s3.as_slice());
    if !(is_codex && !is_switcher) {
        return None;
    }
    let pid_trimmed = trim_chars(pid_text.as_slice());
    let pid = match parse_unsigned(pid_trimmed.as_slice(), u32::MAX as u64) {
        Some(v) => v as u32,
        None => {
            return None;
        },
    };
    let command_text = string_from_chars(command.as_slice());
    let plugin = is_ide_plugin_process(command_text.as_str());
    Some((pid, plugin, command_text))
}

/// Some entry has the pid.
pub open spec fn spec_has_pid(s: Seq<(u32, Seq<char>)>, pid: u32) -> bool {
    exists|a: int| 0 <= a < s.len() && #[trigger] s[a].0 == pid
}

/// The Codex CLI processes found in `ps` lines (pid and command, first occurrence of each pid,
/// this process left out) and the count of IDE-plugin processes among them.
pub open spec fn spec_ps_scan(lines: Seq<Seq<char>>, own_pid: u32) -> (Seq<(u32, Seq<char>)>, nat)
    decreases lines.len(),
{
    if lines.len() == 0 {
        (Seq::empty(), 0)
    } else {
        let prev = spec_ps_scan(lines.drop_last(), own_pid);
        match spec_ps_codex_entry(lines.last()) {
            None => prev,
            Some(e) => if e.0 == own_pid || spec_has_pid(prev.0, e.0) {
                prev
            } else if e.1 {
                (prev.0, prev.1 + 1)
            } else {
                (prev.0.push((e.0, e.2)), prev.1)
            },
        }
    }
}

/// The lines of `ps` output after its header.
pub open spec fn spec_ps_lines(output: Seq<char>) -> Seq<Seq<char>> {
    spec_split(output, '\n').skip(1)
}

pub open spec fn ps_views(r: Seq<ActiveCodexProcess>) -> Seq<(u32, Seq<char>)> {
    r.map_values(|a: ActiveCodexProcess| (a.pid, a.command_line@))
}

fn has_pid(r: &Vec<ActiveCodexProcess>, pid: u32) -> (b: bool)
    ensures
        b == spec_has_pid(ps_views(r@), pid),
{
    let mut i: usize = 0;
    while i < r.len()
        invariant
            i <= r@.len(),
            forall|a: int| 0 <= a < i ==> r@[a].pid != pid,
        decreases r@.len() - i,
    {
        if r[i].pid == pid {
            assert(ps_views(r@)[i as int].0 == pid);
            return true;
        }
        i += 1;
    }
    assert forall|a: int| 0 <= a < ps_views(r@).len() implies #[trigger] ps_views(r@)[a].0 != pid by {
        assert(ps_views(r@)[a].0 == r@[a].pid);
    }
    false
}

/// The live Codex CLI processes in the output of `ps -eo pid,command` (one entry per pid, this
/// process `own_pid` left out, IDE-plugin processes only counted).
pub fn find_active_codex_processes(ps_output: &str, own_pid: u32) -> (r: (
    Vec<ActiveCodexProcess>,
    usize,
))
    ensures
        ps_views(r.0@) == spec_ps_scan(spec_ps_lines(ps_output@), own_pid).0,
        r.1 == spec_ps_scan(spec_ps_lines(ps_output@), own_pid).1,
        forall|a: int| 0 <= a < r.0@.len() ==> (#[trigger] r.0@[a]).executable_path is None,
{
    let out = chars_of(ps_output);
    let lines = split_chars(out.as_slice(), '\n');
    let ghost tail = spec_ps_lines(ps_output@);
    assert(char_views(lines@).len() == lines@.len());
    let mut processes: Vec<ActiveCodexProcess> = Vec::new();
    let mut bg_count: usize = 0;
    let mut i: usize = 1;
    assert(tail.take(0) =~= Seq::<Seq<char>>::empty());
    assert(ps_views(processes@) =~= Seq::<(u32, Seq<char>)>::empty());
    while i < lines.len()
        invariant
            1 <= i <= lines@.len(),
            char_views(lines@) == spec_split(ps_output@, '\n'),
            tail == spec_ps_lines(ps_output@),
            tail.len() == lines@.len() - 1,
            bg_count <= i,
            ps_views(processes@) == spec_ps_scan(tail.take(i - 1), own_pid).0,
            bg_count == spec_ps_scan(tail.take(i - 1), own_pid).1,
            forall|a: int| 0 <= a < processes@.len() ==> (#[trigger] processes@[a]).executable_path is None,
        decreases lines@.len() - i,
    {
        assert(tail.take(i as int).drop_last() =~= tail.take(i - 1));
        assert(tail.take(i as int).last() == lines@[i as int]@) by {
            assert(char_views(lines@)[i as int] == lines@[i as int]@);
        }
        let ghost before = ps_views(processes@);
        match ps_codex_entry(lines[i].as_slice()) {
            None => {},
            Some((pid, plugin, command)) => {
                if pid != own_pid && !has_pid(&processes, pid) {
                    if plugin {
                        bg_count += 1;
                    } else {
                        processes.push(
                            ActiveCodexProcess { pid, command_line: command, executable_path: None },
                        );
                        assert(ps_views(processes@) =~= before.push((pid, command@)));
                    }
                }
            },
        }
        i += 1;
    }
    assert(tail.take(i - 1) =~= tail);
    (processes, bg_count)
}

/// The pids of the live Codex CLI processes, and the count of IDE-plugin ones.
pub fn find_codex_processes(ps_output: &str, own_pid: u32) -> (r: (Vec<u32>, usize))
    ensures
        r.0@ == spec_ps_scan(spec_ps_lines(ps_output@), own_pid).0.map_values(
            |e: (u32, Seq<char>)| e.0,
        ),
        r.1 == spec_ps_scan(spec_ps_lines(ps_output@), own_pid).1,
{
    let (processes, background_count) = find_active_codex_processes(ps_output, own_pid);
    let mut pids: Vec<u32> = Vec::new();
    let mut i: usize = 0;
    while i < processes.len()
        invariant
            i <= processes@.len(),
            pids@ == ps_views(processes@).take(i as int).map_values(|e: (u32, Seq<char>)| e.0),
        decreases processes@.len() - i,
    {
        pids.push(processes[i].pid);
        i += 1;
        assert(pids@ =~= ps_views(processes@).take(i as int).map_values(|e: (u32, Seq<char>)| e.0));
    }
    assert(ps_views(processes@).take(i as int) =~= ps_views(processes@));
    (pids, background_count)
}

/// A `ps` line showing an IDE extension's Codex app-server, with its pid.
pub open spec fn spec_ps_antigravity_entry(line: Seq<char>) -> Option<u32> {
    match spec_ps_fields(line) {
        None => None,
        Some(fields) => if spec_is_antigravity_app_server(spec_trim(fields.1)) {
            match spec_parse_unsigned(spec_trim(fields.0), u32::MAX as nat) {
                Some(v) => Some(v as u32),
                None => None,
            }
        } else {
            None
        },
    }
}

pub open spec fn spec_antigravity_scan(lines: Seq<Seq<char>>) -> Seq<u32>
    decreases lines.len(),
{
    if lines.len() == 0 {
        Seq::empty()
    } else {
        let prev = spec_antigravity_scan(lines.drop_last());
        match spec_ps_antigravity_entry(lines.last()) {
            Some(pid) => prev.push(pid),
            None => prev,
        }
    }
}

fn ps_antigravity_entry(line: &[char]) -> (r: Option<u32>)
    ensures
        r == spec_ps_antigravity_entry(line@),
{
    let (pid_text, rest) = match ps_fields(line) {
        Some(f) => f,
        None => {
            return None;
        },
    };
    let command = trim_chars(rest.as_slice());
    let command_text = string_from_chars(command.as_slice());
    if !is_antigravity_app_server_command(command_text.as_str()) {
        return None;
    }
    let pid_trimmed = trim_chars(pid_text.as_slice());
    match parse_unsigned(pid_trimmed.as_slice(), u32::MAX as u64) {
        Some(v) => Some(v as u32),
        None => None,
    }
}

/// The pids of IDE-extension Codex app-servers in the output of `ps -eo pid,command`.
pub fn find_antigravity_processes(ps_output: &str) -> (r: Vec<u32>)
    ensures
        r@ == spec_antigravity_scan(spec_ps_lines(ps_output@)),
{
    let out = chars_of(ps_output);
    let lines = split_chars(out.as_slice(), '\n');
    let ghost tail = spec_ps_lines(ps_output@);
    assert(char_views(lines@).len() == lines@.len());
    let mut pids: Vec<u32> = Vec::new();
    let mut i: usize = 1;
    assert(tail.take(0) =~= Seq::<Seq<char>>::empty());
    while i < lines.len()
        invariant
            1 <= i <= lines@.len(),
            char_views(lines@) == spec_split(ps_output@, '\n'),
            tail == spec_ps_lines(ps_output@),
            tail.len() == lines@.len() - 1,
            pids@ == spec_antigravity_scan(tail.take(i - 1)),
        decreases lines@.len() - i,
    {
        assert(tail.take(i as int).drop_last() =~= tail.take(i - 1));
        assert(tail.take(i as int).last() == lines@[i as int]@) by {
            assert(char_views(lines@)[i as int] == lines@[i as int]@);
        }
        match ps_antigravity_entry(lines[i].as_slice()) {
            Some(pid) => {
                pids.push(pid);
            },
            None => {},
        }
        i += 1;
    }
    assert(tail.take(i - 1) =~= tail);
    pids
}

pub open spec fn spec_windows_antigravity(ps: Seq<WindowsCodexProcess>) -> Seq<u32>
    decreases ps.len(),
{
    if ps.len() == 0 {
        Seq::empty()
    } else {
        let prev = spec_windows_antigravity(ps.drop_last());
        if spec_is_antigravity_app_server(ps.last().command_line@) {
            prev.push(ps.last().process_id)
        } else {
            prev
        }
    }
}

/// The pids of IDE-extension Codex app-servers in a Windows process list, in list order.
pub fn find_windows_antigravity_processes(processes: &[WindowsCodexProcess]) -> (r: Vec<u32>)
    ensures
        r@ == spec_windows_antigravity(processes@),
{
    let mut pids: Vec<u32> = Vec::new();
    let mut i: usize = 0;
    assert(processes@.take(0) =~= Seq::<WindowsCodexProcess>::empty());
    while i < processes.len()
        invariant
            i <= processes@.len(),
            pids@ == spec_windows_antigravity(processes@.take(i as int)),
        decreases processes@.len() - i,
    {
        assert(processes@.take(i + 1).drop_last() =~= processes@.take(i as int));
        if is_antigravity_app_server_command(processes[i].command_line.as_str()) {
            pids.push(processes[i].process_id);
        }
        i += 1;
    }
    assert(processes@.take(i as int) =~= processes@);
    pids
}

} // verus!
