//! The install runner: for each install step of a project, the exact
//! sequence of actions the installer takes (progress reports, process runs,
//! file writes) and how the outcome of a process run is judged. The caller
//! carries out the actions in order and stops at the first failure.
use vstd::prelude::*;
use vstd::string::*;
use crate::config::{
    AppMetaView, InstallStep, InstallStepView, LynxProject, ShortcutLocation, UninstallConfigView,
    default_uninstaller_name, ostr, strs,
};
use crate::error::{ErrorView, LynxError};
use crate::extract::{
    TokenResolver, TokenTable, brace, brace_free, default_tokens, distinct_tokens, lemma_default_tokens_lack_app_version,
    lemma_resolve_last_token, lemma_set_new_token, resolve_spec, set_spec,
};
use crate::host::{HostPaths, Platform, or_default};
use crate::progress::{EventView, ProgressEvent};
use crate::text::{chars_of, concat, concat3, lemma_replace_all_step, matches_at, replace_all, replace_chars, string_of};

verus! {

#[verifier::external_type_specification]
#[verifier::external_body]
pub struct ExPathBuf(std::path::PathBuf);

// ─────────────────────────────────────────────
//  Runner config (runtime, not project config)
// ─────────────────────────────────────────────

/// Runtime configuration passed to the runner at install time: the user's
/// choices made during installation.
#[derive(Debug)]
pub struct RunnerConfig {
    /// The directory the user chose to install into
    pub install_dir: String,
    /// Path to the .lynxpak bundle file to extract
    pub pak_path: Option<std::path::PathBuf>,
    /// Raw pak bytes if embedded directly in the binary
    pub pak_bytes: Option<Vec<u8>>,
}

impl RunnerConfig {
    pub fn new(install_dir: &str) -> (r: Self)
        ensures
            r.install_dir@ == install_dir@,
            r.pak_path is None,
            r.pak_bytes is None,
    {
        RunnerConfig { install_dir: String::from_str(install_dir), pak_path: None, pak_bytes: None }
    }

    pub fn with_pak_path(self, path: std::path::PathBuf) -> (r: Self)
        ensures
            r.install_dir == self.install_dir,
            r.pak_path == Some(path),
            r.pak_bytes == self.pak_bytes,
    {
        let mut s = self;
        s.pak_path = Some(path);
        s
    }

    pub fn with_pak_bytes(self, bytes: Vec<u8>) -> (r: Self)
        ensures
            r.install_dir == self.install_dir,
            r.pak_path == self.pak_path,
            r.pak_bytes == Some(bytes),
    {
        let mut s = self;
        s.pak_bytes = Some(bytes);
        s
    }
}

// ─────────────────────────────────────────────
//  Actions
// ─────────────────────────────────────────────

/// A location on the host: `base` joined with each of `parts` in turn.
#[derive(Debug, Clone)]
pub struct HostPath {
    pub base: String,
    pub parts: Vec<String>,
}

pub struct HostPathView {
    pub base: Seq<char>,
    pub parts: Seq<Seq<char>>,
}

impl View for HostPath {
    type V = HostPathView;

    open spec fn view(&self) -> HostPathView {
        HostPathView { base: self.base@, parts: strs(self.parts@) }
    }
}

/// Where the payload of an extract step comes from.
#[derive(Debug, Clone, Copy, PartialEq, Eq, Structural)]
pub enum PayloadSource {
    /// The bundle file at `RunnerConfig::pak_path`
    File,
    /// The bytes in `RunnerConfig::pak_bytes`
    Bytes,
}

/// How the outcome of a process run is judged (see `process_failure`).
#[derive(Debug, Clone)]
pub enum ProcessCheck {
    /// PowerShell creating a shortcut
    Shortcut,
    /// `reg.exe` writing a registry value
    Registry,
    /// A project command
    Command { label: String, command: String, fail_on_error: bool },
    /// `reg.exe` writing an environment variable
    EnvVar,
    /// A run whose outcome does not matter
    Ignored,
}

pub enum CheckView {
    Shortcut,
    Registry,
    Command { label: Seq<char>, command: Seq<char>, fail_on_error: bool },
    EnvVar,
    Ignored,
}

impl View for ProcessCheck {
    type V = CheckView;

    open spec fn view(&self) -> CheckView {
        match self {
            ProcessCheck::Shortcut => CheckView::Shortcut,
            ProcessCheck::Registry => CheckView::Registry,
            ProcessCheck::Command { label, command, fail_on_error } => CheckView::Command {
                label: label@,
                command: command@,
                fail_on_error: *fail_on_error,
            },
            ProcessCheck::EnvVar => CheckView::EnvVar,
            ProcessCheck::Ignored => CheckView::Ignored,
        }
    }
}

/// What happened when a process was run; the strings are the operating
/// system's own descriptions.
#[derive(Debug, Clone)]
pub enum ProcessOutcome {
    /// The process could not be started
    SpawnFailed(String),
    /// The process was started but waiting for it failed
    WaitFailed(String),
    /// The process ran to its end
    Exited { success: bool, status: String },
    /// The process was started and not waited for
    Detached,
}

/// One thing the installer does. Failures of `Extract` are the extractor's
/// errors; failures of the file actions are `LynxError::Io`; a process run
/// is judged by `process_failure`.
#[derive(Debug)]
pub enum InstallAction {
    /// Report progress
    Emit(ProgressEvent),
    /// Extract the payload (see `crate::extract::Extractor`)
    Extract(PayloadSource),
    /// Run a program with arguments, waiting for it where `wait` holds
    RunProcess { program: String, args: Vec<String>, wait: bool, check: ProcessCheck },
    /// Create a directory and its parents
    CreateDirAll(HostPath),
    /// Write a file
    WriteFile { path: HostPath, contents: String },
    /// Append text to a file, creating the file where it is missing
    AppendToFile { path: HostPath, text: String },
    /// Create a Windows shell link at `link` to `target`, by running
    /// PowerShell with `powershell_args(&shortcut_script(link, target))`
    /// and judging the run with `ProcessCheck::Shortcut`
    CreateShellLink { link: HostPath, target: String },
    /// Stop with this error
    Fail(LynxError),
}

pub enum ActionView {
    Emit(EventView),
    Extract(PayloadSource),
    RunProcess { program: Seq<char>, args: Seq<Seq<char>>, wait: bool, check: CheckView },
    CreateDirAll(HostPathView),
    WriteFile { path: HostPathView, contents: Seq<char> },
    AppendToFile { path: HostPathView, text: Seq<char> },
    CreateShellLink { link: HostPathView, target: Seq<char> },
    Fail(ErrorView),
}

impl View for InstallAction {
    type V = ActionView;

    open spec fn view(&self) -> ActionView {
        match self {
            InstallAction::Emit(e) => ActionView::Emit(e@),
            InstallAction::Extract(s) => ActionView::Extract(*s),
            InstallAction::RunProcess { program, args, wait, check } => ActionView::RunProcess {
                program: program@,
                args: strs(args@),
                wait: *wait,
                check: check@,
            },
            InstallAction::CreateDirAll(p) => ActionView::CreateDirAll(p@),
            InstallAction::WriteFile { path, contents } => ActionView::WriteFile { path: path@, contents: contents@ },
            InstallAction::AppendToFile { path, text } => ActionView::AppendToFile { path: path@, text: text@ },
            InstallAction::CreateShellLink { link, target } => ActionView::CreateShellLink { link: link@, target: target@ },
            InstallAction::Fail(e) => ActionView::Fail(e@),
        }
    }
}

/// The views of a list of actions.
pub open spec fn actions_view(v: Seq<InstallAction>) -> Seq<ActionView> {
    v.map_values(|a: InstallAction| a@)
}

// ─────────────────────────────────────────────
//  Judging process runs
// ─────────────────────────────────────────────

/// The error a process run ends in, if any.
pub open spec fn failure_spec(check: CheckView, outcome: ProcessOutcome) -> Option<ErrorView> {
    match check {
        CheckView::Shortcut => match outcome {
            ProcessOutcome::SpawnFailed(e) => Some(ErrorView::StepFailed { step: "shortcut"@, reason: "PowerShell failed: "@ + e@ }),
            ProcessOutcome::WaitFailed(e) => Some(ErrorView::StepFailed { step: "shortcut"@, reason: "PowerShell failed: "@ + e@ }),
            ProcessOutcome::Exited { success, status } => if success {
                None
            } else {
                Some(ErrorView::StepFailed { step: "shortcut"@, reason: "PowerShell exited with status: "@ + status@ })
            },
            ProcessOutcome::Detached => None,
        },
        CheckView::Registry => match outcome {
            ProcessOutcome::SpawnFailed(e) => Some(ErrorView::StepFailed { step: "registry"@, reason: "reg.exe failed: "@ + e@ }),
            ProcessOutcome::WaitFailed(e) => Some(ErrorView::StepFailed { step: "registry"@, reason: "reg.exe failed: "@ + e@ }),
            ProcessOutcome::Exited { success, status } => if success {
                None
            } else {
                Some(ErrorView::StepFailed { step: "registry"@, reason: "reg.exe exited with: "@ + status@ })
            },
            ProcessOutcome::Detached => None,
        },
        CheckView::Command { label, command, fail_on_error } => match outcome {
            ProcessOutcome::SpawnFailed(e) => Some(ErrorView::StepFailed {
                step: label,
                reason: "Failed to spawn '"@ + command + "': "@ + e@,
            }),
            ProcessOutcome::WaitFailed(e) => Some(ErrorView::StepFailed { step: label, reason: "Command wait failed: "@ + e@ }),
            ProcessOutcome::Exited { success, status } => if fail_on_error && !success {
                Some(ErrorView::StepFailed { step: label, reason: "Command exited with: "@ + status@ })
            } else {
                None
            },
            ProcessOutcome::Detached => None,
        },
        CheckView::EnvVar => match outcome {
            ProcessOutcome::SpawnFailed(e) => Some(ErrorView::StepFailed { step: "env_var"@, reason: "reg.exe failed: "@ + e@ }),
            ProcessOutcome::WaitFailed(e) => Some(ErrorView::StepFailed { step: "env_var"@, reason: "reg.exe failed: "@ + e@ }),
            ProcessOutcome::Exited { success, .. } => if success {
                None
            } else {
                Some(ErrorView::StepFailed { step: "env_var"@, reason: "reg.exe failed to set environment variable"@ })
            },
            ProcessOutcome::Detached => None,
        },
        CheckView::Ignored => None,
    }
}

/// How a process run is judged: a run that ends successfully, a run that
/// is not waited for, and any run whose outcome is ignored never fail the
/// step; a run that cannot be started or waited for fails it; a run that
/// ends unsuccessfully fails it, except a command whose step says not to
/// fail on error. A failure names the step: `shortcut`, `registry`,
/// `env_var`, or the command step's own label.
pub proof fn lemma_process_judgement(check: CheckView, outcome: ProcessOutcome)
    ensures
        failure_spec(check, outcome) is Some <==> (!(check is Ignored) && match outcome {
            ProcessOutcome::SpawnFailed(_) => true,
            ProcessOutcome::WaitFailed(_) => true,
            ProcessOutcome::Exited { success, .. } => !success && !(check matches CheckView::Command {
                fail_on_error,
                ..
            } && !fail_on_error),
            ProcessOutcome::Detached => false,
        }),
        failure_spec(check, outcome) matches Some(e) ==> e matches ErrorView::StepFailed { step, .. } && step == match check {
            CheckView::Shortcut => "shortcut"@,
            CheckView::Registry => "registry"@,
            CheckView::EnvVar => "env_var"@,
            CheckView::Command { label, .. } => label,
            CheckView::Ignored => Seq::<char>::empty(),
        },
{
}

fn step_failed(step: &str, reason: String) -> (r: LynxError)
    ensures
        r@ == (ErrorView::StepFailed { step: step@, reason: reason@ }),
{
    LynxError::StepFailed { step: String::from_str(step), reason }
}

/// Judges the outcome of a process run: the error the step fails with, or
/// `None` where the install goes on.
pub fn process_failure(check: &ProcessCheck, outcome: &ProcessOutcome) -> (r: Option<LynxError>)
    ensures
        match r {
            Some(e) => failure_spec(check@, *outcome) == Some(e@),
            None => failure_spec(check@, *outcome) is None,
        },
{
    match check {
        ProcessCheck::Shortcut => match outcome {
            ProcessOutcome::SpawnFailed(e) => Some(step_failed("shortcut", concat("PowerShell failed: ", e.as_str()))),
            ProcessOutcome::WaitFailed(e) => Some(step_failed("shortcut", concat("PowerShell failed: ", e.as_str()))),
            ProcessOutcome::Exited { success, status } => if *success {
                None
            } else {
                Some(step_failed("shortcut", concat("PowerShell exited with status: ", status.as_str())))
            },
            ProcessOutcome::Detached => None,
        },
        ProcessCheck::Registry => match outcome {
            ProcessOutcome::SpawnFailed(e) => Some(step_failed("registry", concat("reg.exe failed: ", e.as_str()))),
            ProcessOutcome::WaitFailed(e) => Some(step_failed("registry", concat("reg.exe failed: ", e.as_str()))),
            ProcessOutcome::Exited { success, status } => if *success {
                None
            } else {
                Some(step_failed("registry", concat("reg.exe exited with: ", status.as_str())))
            },
            ProcessOutcome::Detached => None,
        },
        ProcessCheck::Command { label, command, fail_on_error } => match outcome {
            ProcessOutcome::SpawnFailed(e) => {
                let mut reason = concat3("Failed to spawn '", command.as_str(), "': ");
                reason.append(e.as_str());
                Some(step_failed(label.as_str(), reason))
            },
            ProcessOutcome::WaitFailed(e) => Some(step_failed(label.as_str(), concat("Command wait failed: ", e.as_str()))),
            ProcessOutcome::Exited { success, status } => if *fail_on_error && !*success {
                Some(step_failed(label.as_str(), concat("Command exited with: ", status.as_str())))
            } else {
                None
            },
            ProcessOutcome::Detached => None,
        },
        ProcessCheck::EnvVar => match outcome {
            ProcessOutcome::SpawnFailed(e) => Some(step_failed("env_var", concat("reg.exe failed: ", e.as_str()))),
            ProcessOutcome::WaitFailed(e) => Some(step_failed("env_var", concat("reg.exe failed: ", e.as_str()))),
            ProcessOutcome::Exited { success, .. } => if *success {
                None
            } else {
                Some(step_failed("env_var", String::from_str("reg.exe failed to set environment variable")))
            },
            ProcessOutcome::Detached => None,
        },
        ProcessCheck::Ignored => None,
    }
}

// ─────────────────────────────────────────────
//  Shortcut scripts
// ─────────────────────────────────────────────

/// `s` with each `'` doubled, as PowerShell quotes it.
pub open spec fn ps_quote(s: Seq<char>) -> Seq<char> {
    replace_all(s, seq!['\''], seq!['\'', '\''])
}

/// PowerShell quoting works character by character: a `'` becomes `''`,
/// every other character stays, and quoting a text is quoting its parts
/// one after the other.
pub proof fn lemma_ps_quote_law(a: Seq<char>, b: Seq<char>, c: char)
    ensures
        ps_quote(Seq::empty()) == Seq::<char>::empty(),
        ps_quote(seq![c]) == if c == '\'' {
            seq!['\'', '\'']
        } else {
            seq![c]
        },
        ps_quote(a + b) == ps_quote(a) + ps_quote(b),
    decreases a.len(),
{
    let q = seq!['\''];
    let qq = seq!['\'', '\''];
    lemma_replace_all_step(Seq::<char>::empty(), q, qq);
    let one = seq![c];
    lemma_replace_all_step(one, q, qq);
    assert(one.skip(1) =~= Seq::<char>::empty());
    assert(one.drop_first() =~= Seq::<char>::empty());
    assert(matches_at(one, 0, q) <==> c == '\'') by {
        assert(one[0int + 0int] == c);
        assert(q[0] == '\'');
        assert(q.len() == 1);
        if c == '\'' {
            assert forall|j: int| 0 <= j < q.len() implies #[trigger] one[0 + j] == q[j] by {
                assert(j == 0);
            }
        }
    }
    assert(qq + Seq::<char>::empty() =~= qq);
    assert(seq![c] + Seq::<char>::empty() =~= seq![c]);
    if a.len() == 0 {
        assert(a + b =~= b);
        assert(Seq::<char>::empty() + ps_quote(b) =~= ps_quote(b));
    } else {
        let ab = a + b;
        lemma_replace_all_step(ab, q, qq);
        lemma_replace_all_step(a, q, qq);
        assert(ab[0] == a[0]);
        assert(matches_at(ab, 0, q) == matches_at(a, 0, q)) by {
            assert(ab[0int + 0int] == a[0int + 0int]);
        }
        assert(ab.skip(1) =~= a.drop_first() + b);
        assert(ab.drop_first() =~= a.drop_first() + b);
        assert(a.skip(1) =~= a.drop_first());
        lemma_ps_quote_law(a.drop_first(), b, c);
        if matches_at(a, 0, q) {
            assert(qq + (ps_quote(a.drop_first()) + ps_quote(b)) =~= qq + ps_quote(a.drop_first()) + ps_quote(b));
        } else {
            assert(seq![a[0]] + (ps_quote(a.drop_first()) + ps_quote(b)) =~= seq![a[0]] + ps_quote(a.drop_first())
                + ps_quote(b));
        }
    }
}

/// The PowerShell script that creates the shell link `lnk` to `target`.
pub open spec fn shortcut_script_spec(lnk: Seq<char>, target: Seq<char>) -> Seq<char> {
    "$ws = New-Object -ComObject WScript.Shell; $s = $ws.CreateShortcut('"@ + ps_quote(lnk)
        + "'); $s.TargetPath = '"@ + ps_quote(target) + "'; $s.Save()"@
}

fn ps_quote_exec(s: &str) -> (r: String)
    ensures
        r@ == ps_quote(s@),
{
    let cs = chars_of(s);
    let mut pat: Vec<char> = Vec::new();
    pat.push('\'');
    let mut rep: Vec<char> = Vec::new();
    rep.push('\'');
    rep.push('\'');
    assert(pat@ =~= seq!['\'']);
    assert(rep@ =~= seq!['\'', '\'']);
    let out = replace_chars(&cs, &pat, &rep);
    string_of(&out)
}

/// The PowerShell script that creates the shell link at path `lnk`,
/// pointing at `target`; both are quoted for PowerShell.
pub fn shortcut_script(lnk: &str, target: &str) -> (r: String)
    ensures
        r@ == shortcut_script_spec(lnk@, target@),
{
    let l = ps_quote_exec(lnk);
    let t = ps_quote_exec(target);
    let mut s = concat3("$ws = New-Object -ComObject WScript.Shell; $s = $ws.CreateShortcut('", l.as_str(), "'); $s.TargetPath = '");
    s.append(t.as_str());
    s.append("'; $s.Save()");
    s
}

/// The arguments PowerShell runs `script` with.
pub fn powershell_args(script: &str) -> (r: Vec<String>)
    ensures
        strs(r@) == seq!["-NoProfile"@, "-NonInteractive"@, "-Command"@, script@],
{
    let mut v: Vec<String> = Vec::new();
    v.push(String::from_str("-NoProfile"));
    v.push(String::from_str("-NonInteractive"));
    v.push(String::from_str("-Command"));
    v.push(String::from_str(script));
    assert(strs(v@) =~= seq!["-NoProfile"@, "-NonInteractive"@, "-Command"@, script@]);
    v
}


// ─────────────────────────────────────────────
//  Step plans
// ─────────────────────────────────────────────

/// What `str::to_lowercase` gives for `s`.
pub uninterp spec fn lowercase(s: Seq<char>) -> Seq<char>;

/// `str::to_lowercase`; its result is named by `lowercase`.
#[verifier::external_body]
fn to_lowercase(s: &str) -> (r: String)
    ensures
        r@ == lowercase(s@),
{
    s.to_lowercase()
}

pub open spec fn act_begin(i: nat, label: Seq<char>) -> ActionView {
    ActionView::Emit(EventView::StepBegin { step_index: i, step_label: label })
}

pub open spec fn act_complete(i: nat, label: Seq<char>) -> ActionView {
    ActionView::Emit(EventView::StepComplete { step_index: i, step_label: label })
}

pub open spec fn act_skipped(i: nat, label: Seq<char>, reason: Seq<char>) -> ActionView {
    ActionView::Emit(EventView::StepSkipped { step_index: i, step_label: label, reason })
}

pub open spec fn act_warning(message: Seq<char>) -> ActionView {
    ActionView::Emit(EventView::Warning { message })
}

pub open spec fn act_step_failed(step: Seq<char>, reason: Seq<char>) -> ActionView {
    ActionView::Fail(ErrorView::StepFailed { step, reason })
}

pub open spec fn host_path(base: Seq<char>, parts: Seq<Seq<char>>) -> HostPathView {
    HostPathView { base, parts }
}

/// Where a Linux shortcut for `loc` goes.
pub open spec fn linux_shortcut_dir(loc: ShortcutLocation, host: HostPaths) -> HostPathView {
    match loc {
        ShortcutLocation::Desktop => match host.desktop {
            Some(d) => host_path(d@, Seq::empty()),
            None => host_path(or_default(host.home, "/tmp"@), seq!["Desktop"@]),
        },
        _ => host_path("/usr/share/applications"@, Seq::empty()),
    }
}

/// The file name of a Linux shortcut named `name`.
pub open spec fn desktop_file_name(name: Seq<char>) -> Seq<char> {
    crate::text::replace_char_spec(lowercase(name), ' ', '-') + ".desktop"@
}

/// The contents of a Linux `.desktop` shortcut.
pub open spec fn desktop_entry(name: Seq<char>, target: Seq<char>) -> Seq<char> {
    "[Desktop Entry]\nType=Application\nName="@ + name + "\nExec="@ + target + "\nTerminal=false\n"@
}

/// Whether creating a shortcut at `loc` fails before anything is done.
pub open spec fn location_fails(platform: Platform, loc: ShortcutLocation, host: HostPaths) -> bool {
    platform == Platform::Windows && match loc {
        ShortcutLocation::Desktop => host.desktop is None,
        ShortcutLocation::StartMenu => host.data is None,
        ShortcutLocation::Taskbar => false,
    }
}

/// The actions that create one shortcut named `name` to `target` at `loc`.
pub open spec fn location_actions(
    platform: Platform,
    loc: ShortcutLocation,
    name: Seq<char>,
    target: Seq<char>,
    host: HostPaths,
) -> Seq<ActionView> {
    match platform {
        Platform::Windows => match loc {
            ShortcutLocation::Desktop => match host.desktop {
                None => seq![act_step_failed("shortcut"@, "Cannot find desktop directory"@)],
                Some(d) => seq![ActionView::CreateShellLink { link: host_path(d@, seq![name + ".lnk"@]), target }],
            },
            ShortcutLocation::StartMenu => match host.data {
                None => seq![act_step_failed("shortcut"@, "Cannot find start menu directory"@)],
                Some(d) => seq![ActionView::CreateShellLink {
                    link: host_path(d@, seq!["Microsoft\\Windows\\Start Menu\\Programs"@, name + ".lnk"@]),
                    target,
                }],
            },
            ShortcutLocation::Taskbar => seq![act_warning("Taskbar pinning not yet supported, skipping"@)],
        },
        Platform::MacOs => seq![act_warning("macOS shortcuts not yet implemented"@)],
        Platform::Linux => {
            let dir = linux_shortcut_dir(loc, host);
            seq![
                ActionView::CreateDirAll(dir),
                ActionView::WriteFile {
                    path: host_path(dir.base, dir.parts.push(desktop_file_name(name))),
                    contents: desktop_entry(name, target),
                },
            ]
        },
        Platform::Other => Seq::empty(),
    }
}

/// The actions of a shortcut step after its opening event: each location
/// in turn; the step completes unless a location fails.
pub open spec fn shortcut_actions(
    platform: Platform,
    locs: Seq<ShortcutLocation>,
    name: Seq<char>,
    target: Seq<char>,
    host: HostPaths,
    i: nat,
    label: Seq<char>,
) -> Seq<ActionView>
    decreases locs.len(),
{
    if locs.len() == 0 {
        seq![act_complete(i, label)]
    } else if location_fails(platform, locs[0], host) {
        location_actions(platform, locs[0], name, target, host)
    } else {
        location_actions(platform, locs[0], name, target, host) + shortcut_actions(
            platform,
            locs.drop_first(),
            name,
            target,
            host,
            i,
            label,
        )
    }
}

/// `reg add KEY /v NAME /t TYPE /d DATA /f`
pub open spec fn reg_add_args(key: Seq<char>, name: Seq<char>, ty: Seq<char>, data: Seq<char>) -> Seq<Seq<char>> {
    seq!["add"@, key, "/v"@, name, "/t"@, ty, "/d"@, data, "/f"@]
}

pub open spec fn reg_add(key: Seq<char>, name: Seq<char>, ty: Seq<char>, data: Seq<char>, check: CheckView) -> ActionView {
    ActionView::RunProcess { program: "reg"@, args: reg_add_args(key, name, ty, data), wait: true, check }
}

/// The registry key that holds environment variables of `scope`.
pub open spec fn env_key(scope: Seq<char>) -> Seq<char> {
    if scope == "system"@ {
        "HKEY_LOCAL_MACHINE\\SYSTEM\\CurrentControlSet\\Control\\Session Manager\\Environment"@
    } else {
        "HKEY_CURRENT_USER\\Environment"@
    }
}

/// The registry key of the app's entry in Add/Remove Programs.
pub open spec fn uninstall_key(id: Seq<char>) -> Seq<char> {
    "HKEY_LOCAL_MACHINE\\SOFTWARE\\Microsoft\\Windows\\CurrentVersion\\Uninstall\\"@ + id
}

/// The file name of the uninstaller: the one the uninstall section names,
/// or `uninstall.exe` where the project has none.
pub open spec fn uninstaller_name(uninstall: Option<UninstallConfigView>) -> Seq<char> {
    match uninstall {
        Some(u) => u.exe_name,
        None => "uninstall.exe"@,
    }
}

/// The values written to the app's Add/Remove Programs entry; their
/// outcome does not matter. The uninstall string is the uninstaller's path
/// in the install directory.
pub open spec fn uninstall_actions(
    app: AppMetaView,
    uninstall: Option<UninstallConfigView>,
    install_dir: Seq<char>,
) -> Seq<ActionView> {
    let key = uninstall_key(app.id);
    let v = |n: Seq<char>, d: Seq<char>| reg_add(key, n, "REG_SZ"@, d, CheckView::Ignored);
    seq![
        v("DisplayName"@, app.name),
        v("DisplayVersion"@, app.version),
        v("Publisher"@, app.publisher),
        v("InstallLocation"@, install_dir),
        v("UninstallString"@, install_dir + "\\"@ + uninstaller_name(uninstall)),
        v("NoModify"@, "1"@),
        v("NoRepair"@, "1"@),
    ]
}

/// The actions of install step number `i`, `step`, in order. Every plan
/// opens with the step's `StepBegin` and ends with its `StepComplete`, its
/// `StepSkipped`, or a failure.
pub open spec fn plan_spec(
    app: AppMetaView,
    uninstall: Option<UninstallConfigView>,
    has_pak_path: bool,
    has_pak_bytes: bool,
    i: nat,
    step: InstallStepView,
    tokens: TokenTable,
    platform: Platform,
    host: HostPaths,
) -> Seq<ActionView> {
    match step {
        InstallStepView::Extract { label } => seq![act_begin(i, label)] + if has_pak_path {
            seq![ActionView::Extract(PayloadSource::File), act_complete(i, label)]
        } else if has_pak_bytes {
            seq![ActionView::Extract(PayloadSource::Bytes), act_complete(i, label)]
        } else {
            seq![act_skipped(i, label, "No payload bundle found \u{2014} skipping extract step"@)]
        },
        InstallStepView::Shortcut { label, target, locations, name } => seq![act_begin(i, label)]
            + shortcut_actions(
            platform,
            locations,
            match name {
                Some(n) => n,
                None => app.name,
            },
            resolve_spec(target, tokens),
            host,
            i,
            label,
        ),
        InstallStepView::Registry { label, hive, key, value_name, value_data, value_type } =>
            seq![act_begin(i, label)] + if platform == Platform::Windows {
            seq![
                reg_add(hive + "\\"@ + key, value_name, value_type, resolve_spec(value_data, tokens), CheckView::Registry),
                act_complete(i, label),
            ]
        } else {
            seq![act_skipped(i, label, "Registry steps are Windows-only"@)]
        },
        InstallStepView::Command { label, command, args, wait, fail_on_error } => seq![
            act_begin(i, label),
            ActionView::RunProcess {
                program: resolve_spec(command, tokens),
                args: args.map_values(|a: Seq<char>| resolve_spec(a, tokens)),
                wait,
                check: CheckView::Command { label, command: resolve_spec(command, tokens), fail_on_error },
            },
            act_complete(i, label),
        ],
        InstallStepView::EnvVar { label, name, value, scope } => seq![
            act_begin(i, label),
            if platform == Platform::Windows {
                reg_add(env_key(scope), name, "REG_EXPAND_SZ"@, resolve_spec(value, tokens), CheckView::EnvVar)
            } else {
                ActionView::AppendToFile {
                    path: host_path(or_default(host.home, "/tmp"@), seq![".profile"@]),
                    text: "\nexport "@ + name + "=\""@ + resolve_spec(value, tokens) + "\"\n"@,
                }
            },
            act_complete(i, label),
        ],
        InstallStepView::RegisterUninstaller { label } => seq![act_begin(i, label)] + if platform
            == Platform::Windows {
            uninstall_actions(app, uninstall, resolve_spec("{install_dir}"@, tokens)) + seq![act_complete(i, label)]
        } else {
            seq![act_skipped(i, label, "Uninstaller registration is Windows-only"@)]
        },
    }
}

// ─────────────────────────────────────────────
//  InstallerRunner
// ─────────────────────────────────────────────

fn push(v: &mut Vec<InstallAction>, a: InstallAction)
    ensures
        actions_view(final(v)@) == actions_view(old(v)@).push(a@),
{
    let ghost av = a@;
    v.push(a);
    assert(actions_view(v@) =~= actions_view(old(v)@).push(av));
}

fn emit_begin(v: &mut Vec<InstallAction>, i: usize, label: &String)
    ensures
        actions_view(final(v)@) == actions_view(old(v)@).push(act_begin(i as nat, label@)),
{
    push(v, InstallAction::Emit(ProgressEvent::StepBegin { step_index: i, step_label: label.clone() }));
}

fn emit_complete(v: &mut Vec<InstallAction>, i: usize, label: &String)
    ensures
        actions_view(final(v)@) == actions_view(old(v)@).push(act_complete(i as nat, label@)),
{
    push(v, InstallAction::Emit(ProgressEvent::StepComplete { step_index: i, step_label: label.clone() }));
}

fn emit_skipped(v: &mut Vec<InstallAction>, i: usize, label: &String, reason: &str)
    ensures
        actions_view(final(v)@) == actions_view(old(v)@).push(act_skipped(i as nat, label@, reason@)),
{
    push(
        v,
        InstallAction::Emit(
            ProgressEvent::StepSkipped { step_index: i, step_label: label.clone(), reason: String::from_str(reason) },
        ),
    );
}

fn strings_of(parts: &[&str]) -> (r: Vec<String>)
    ensures
        r@.len() == parts@.len(),
        forall|k: int| 0 <= k < parts@.len() ==> (#[trigger] r@[k])@ == parts@[k]@,
{
    let mut v: Vec<String> = Vec::new();
    let mut i: usize = 0;
    while i < parts.len()
        invariant
            i <= parts@.len(),
            v@.len() == i,
            forall|k: int| 0 <= k < i ==> (#[trigger] v@[k])@ == parts@[k]@,
        decreases parts@.len() - i,
    {
        v.push(String::from_str(parts[i]));
        i = i + 1;
    }
    v
}

fn reg_add_exec(key: String, name: &str, ty: &str, data: String, check: ProcessCheck) -> (r: InstallAction)
    ensures
        r@ == reg_add(key@, name@, ty@, data@, check@),
{
    let mut args: Vec<String> = Vec::new();
    args.push(String::from_str("add"));
    args.push(key);
    args.push(String::from_str("/v"));
    args.push(String::from_str(name));
    args.push(String::from_str("/t"));
    args.push(String::from_str(ty));
    args.push(String::from_str("/d"));
    args.push(data);
    args.push(String::from_str("/f"));
    let r = InstallAction::RunProcess { program: String::from_str("reg"), args, wait: true, check };
    assert(strs(args@) =~= reg_add_args(key@, name@, ty@, data@));
    r
}

/// Runs a project's install steps, one plan per step.
pub struct InstallerRunner<'a> {
    project: &'a LynxProject,
    config: RunnerConfig,
}

impl<'a> InstallerRunner<'a> {
    /// The project being installed.
    pub closed spec fn project(&self) -> LynxProject {
        *self.project
    }

    /// The runtime configuration.
    pub closed spec fn config(&self) -> RunnerConfig {
        self.config
    }

    pub fn new(project: &'a LynxProject, config: RunnerConfig) -> (r: Self)
        ensures
            r.project() == *project,
            r.config() == config,
    {
        InstallerRunner { project, config }
    }

    /// The runtime configuration.
    pub fn runtime_config(&self) -> (r: &RunnerConfig)
        ensures
            *r == self.config(),
    {
        &self.config
    }

    /// The event that opens the install.
    pub fn started_event(&self) -> (r: ProgressEvent)
        ensures
            r@ == (EventView::Started {
                app_name: self.project().app.name@,
                app_version: self.project().app.version@,
                total_steps: self.project().steps@.len(),
            }),
    {
        ProgressEvent::Started {
            app_name: self.project.app.name.clone(),
            app_version: self.project.app.version.clone(),
            total_steps: self.project.steps.len(),
        }
    }

    /// The event that closes a successful install that took `duration_ms`.
    pub fn complete_event(&self, duration_ms: u64) -> (r: ProgressEvent)
        ensures
            r@ == (EventView::Complete { install_dir: self.config().install_dir@, duration_ms: duration_ms as nat }),
    {
        ProgressEvent::Complete { install_dir: self.config.install_dir.clone(), duration_ms }
    }

    /// The token resolver of the install: the platform defaults for the
    /// chosen install directory, and `{app_version}`, which resolves to the
    /// app's version.
    pub fn resolver(&self, platform: Platform, host: &HostPaths) -> (r: TokenResolver)
        ensures
            r@ == set_spec(
                default_tokens(self.project().app.name@, self.config().install_dir@, platform, *host),
                "app_version"@,
                self.project().app.version@,
            ),
            distinct_tokens(r@),
            resolve_spec("{app_version}"@, r@) == self.project().app.version@,
    {
        let mut r = TokenResolver::with_defaults(
            self.project.app.name.as_str(),
            self.config.install_dir.as_str(),
            platform,
            host,
        );
        r.set("app_version", self.project.app.version.as_str());
        proof {
            let d = default_tokens(self.project().app.name@, self.config().install_dir@, platform, *host);
            lemma_default_tokens_lack_app_version(self.project().app.name@, self.config().install_dir@, platform, *host);
            lemma_set_new_token(d, "app_version"@, self.project().app.version@);
            reveal_strlit("app_version");
            reveal_strlit("{app_version}");
            assert(brace("app_version"@) =~= "{app_version}"@);
            assert(brace_free("app_version"@));
            lemma_resolve_last_token("app_version"@, self.project().app.version@, d);
        }
        r
    }

    /// The actions of install step number `index`.
    pub fn plan_step(&self, index: usize, resolver: &TokenResolver, platform: Platform, host: &HostPaths) -> (r: Vec<InstallAction>)
        requires
            index < self.project().steps@.len(),
        ensures
            actions_view(r@) == plan_spec(
                self.project()@.app,
                self.project()@.uninstall,
                self.config().pak_path is Some,
                self.config().pak_bytes is Some,
                index as nat,
                self.project().steps@[index as int]@,
                resolver@,
                platform,
                *host,
            ),
    {
        let mut v: Vec<InstallAction> = Vec::new();
        assert(actions_view(v@) =~= Seq::<ActionView>::empty());
        let step = &self.project.steps[index];
        match step {
            InstallStep::Extract { label } => {
                emit_begin(&mut v, index, label);
                if self.config.pak_path.is_some() {
                    push(&mut v, InstallAction::Extract(PayloadSource::File));
                    emit_complete(&mut v, index, label);
                } else if self.config.pak_bytes.is_some() {
                    push(&mut v, InstallAction::Extract(PayloadSource::Bytes));
                    emit_complete(&mut v, index, label);
                } else {
                    emit_skipped(&mut v, index, label, "No payload bundle found \u{2014} skipping extract step");
                }
            },
            InstallStep::Shortcut { label, target, locations, name } => {
                emit_begin(&mut v, index, label);
                let resolved_target = resolver.resolve(target.as_str());
                let shortcut_name = match name {
                    Some(n) => n.clone(),
                    None => self.project.app.name.clone(),
                };
                self.plan_shortcuts(&mut v, index, label, locations, &shortcut_name, &resolved_target, platform, host);
            },
            InstallStep::Registry { label, hive, key, value_name, value_data, value_type } => {
                emit_begin(&mut v, index, label);
                if platform == Platform::Windows {
                    let resolved = resolver.resolve(value_data.as_str());
                    let full_key = concat3(hive.as_str(), "\\", key.as_str());
                    push(&mut v, reg_add_exec(full_key, value_name.as_str(), value_type.as_str(), resolved, ProcessCheck::Registry));
                    emit_complete(&mut v, index, label);
                } else {
                    emit_skipped(&mut v, index, label, "Registry steps are Windows-only");
                }
            },
            InstallStep::Command { label, command, args, wait, fail_on_error } => {
                emit_begin(&mut v, index, label);
                let resolved_cmd = resolver.resolve(command.as_str());
                let mut resolved_args: Vec<String> = Vec::new();
                let mut k: usize = 0;
                while k < args.len()
                    invariant
                        k <= args@.len(),
                        strs(resolved_args@) == strs(args@).take(k as int).map_values(|a: Seq<char>| resolve_spec(a, resolver@)),
                    decreases args@.len() - k,
                {
                    let a = resolver.resolve(args[k].as_str());
                    let ghost before = resolved_args@;
                    resolved_args.push(a);
                    assert(strs(resolved_args@) =~= strs(before).push(a@));
                    assert(strs(args@)[k as int] == args@[k as int]@);
                    k = k + 1;
                    assert(strs(resolved_args@) =~= strs(args@).take(k as int).map_values(|a: Seq<char>| resolve_spec(a, resolver@)));
                }
                assert(strs(args@).take(args@.len() as int) =~= strs(args@));
                let check = ProcessCheck::Command { label: label.clone(), command: resolved_cmd.clone(), fail_on_error: *fail_on_error };
                push(&mut v, InstallAction::RunProcess { program: resolved_cmd, args: resolved_args, wait: *wait, check });
                emit_complete(&mut v, index, label);
            },
            InstallStep::EnvVar { label, name, value, scope } => {
                emit_begin(&mut v, index, label);
                let resolved = resolver.resolve(value.as_str());
                if platform == Platform::Windows {
                    let key = if crate::text::str_equal(scope.as_str(), "system") {
                        String::from_str("HKEY_LOCAL_MACHINE\\SYSTEM\\CurrentControlSet\\Control\\Session Manager\\Environment")
                    } else {
                        String::from_str("HKEY_CURRENT_USER\\Environment")
                    };
                    push(&mut v, reg_add_exec(key, name.as_str(), "REG_EXPAND_SZ", resolved, ProcessCheck::EnvVar));
                } else {
                    let home = match &host.home {
                        Some(h) => h.clone(),
                        None => String::from_str("/tmp"),
                    };
                    let parts = strings_of(&[".profile"]);
                    assert(strs(parts@) =~= seq![".profile"@]);
                    let mut text = concat3("\nexport ", name.as_str(), "=\"");
                    text.append(resolved.as_str());
                    text.append("\"\n");
                    push(&mut v, InstallAction::AppendToFile { path: HostPath { base: home, parts }, text });
                }
                emit_complete(&mut v, index, label);
            },
            InstallStep::RegisterUninstaller { label } => {
                emit_begin(&mut v, index, label);
                if platform == Platform::Windows {
                    let install_dir = resolver.resolve("{install_dir}");
                    let app = &self.project.app;
                    let key = concat("HKEY_LOCAL_MACHINE\\SOFTWARE\\Microsoft\\Windows\\CurrentVersion\\Uninstall\\", app.id.as_str());
                    let exe_name = match &self.project.uninstall {
                        Some(u) => u.exe_name.clone(),
                        None => default_uninstaller_name(),
                    };
                    let uninstall_exe = concat3(install_dir.as_str(), "\\", exe_name.as_str());
                    push(&mut v, reg_add_exec(key.clone(), "DisplayName", "REG_SZ", app.name.clone(), ProcessCheck::Ignored));
                    push(&mut v, reg_add_exec(key.clone(), "DisplayVersion", "REG_SZ", app.version.clone(), ProcessCheck::Ignored));
                    push(&mut v, reg_add_exec(key.clone(), "Publisher", "REG_SZ", app.publisher.clone(), ProcessCheck::Ignored));
                    push(&mut v, reg_add_exec(key.clone(), "InstallLocation", "REG_SZ", install_dir, ProcessCheck::Ignored));
                    push(&mut v, reg_add_exec(key.clone(), "UninstallString", "REG_SZ", uninstall_exe, ProcessCheck::Ignored));
                    push(&mut v, reg_add_exec(key.clone(), "NoModify", "REG_SZ", String::from_str("1"), ProcessCheck::Ignored));
                    push(&mut v, reg_add_exec(key, "NoRepair", "REG_SZ", String::from_str("1"), ProcessCheck::Ignored));
                    emit_complete(&mut v, index, label);
                } else {
                    emit_skipped(&mut v, index, label, "Uninstaller registration is Windows-only");
                }
            },
        }
        let ghost pv = plan_spec(
            self.project()@.app,
            self.project()@.uninstall,
            self.config().pak_path is Some,
            self.config().pak_bytes is Some,
            index as nat,
            self.project().steps@[index as int]@,
            resolver@,
            platform,
            *host,
        );
        assert(actions_view(v@) =~= pv);
        v
    }

    fn plan_shortcuts(
        &self,
        v: &mut Vec<InstallAction>,
        index: usize,
        label: &String,
        locations: &Vec<ShortcutLocation>,
        name: &String,
        target: &String,
        platform: Platform,
        host: &HostPaths,
    )
        ensures
            actions_view(final(v)@) == actions_view(old(v)@) + shortcut_actions(
                platform,
                locations@,
                name@,
                target@,
                *host,
                index as nat,
                label@,
            ),
    {
        let n = locations.len();
        let mut k: usize = 0;
        assert(locations@.skip(0) =~= locations@);
        assert(actions_view(v@) + Seq::<ActionView>::empty() =~= actions_view(v@));
        while k < n
            invariant
                n == locations@.len(),
                k <= n,
                actions_view(old(v)@) + shortcut_actions(platform, locations@, name@, target@, *host, index as nat, label@)
                    == actions_view(v@) + shortcut_actions(platform, locations@.skip(k as int), name@, target@, *host, index as nat, label@),
            decreases n - k,
        {
            let ghost before = actions_view(v@);
            let ghost rest = locations@.skip(k as int);
            let loc = locations[k];
            assert(rest[0] == loc);
            assert(rest.drop_first() =~= locations@.skip(k + 1));
            let ghost la = location_actions(platform, loc, name@, target@, *host);
            match platform {
                Platform::Windows => match loc {
                    ShortcutLocation::Desktop => match &host.desktop {
                        None => {
                            push(v, InstallAction::Fail(step_failed("shortcut", String::from_str("Cannot find desktop directory"))));
                            assert(actions_view(v@) =~= before + la);
                            return;
                        },
                        Some(d) => {
                            let lnk = concat(name.as_str(), ".lnk");
                            let parts = strings_of(&[lnk.as_str()]);
                            assert(strs(parts@) =~= seq![name@ + ".lnk"@]);
                            push(v, InstallAction::CreateShellLink { link: HostPath { base: d.clone(), parts }, target: target.clone() });
                        },
                    },
                    ShortcutLocation::StartMenu => match &host.data {
                        None => {
                            push(v, InstallAction::Fail(step_failed("shortcut", String::from_str("Cannot find start menu directory"))));
                            assert(actions_view(v@) =~= before + la);
                            return;
                        },
                        Some(d) => {
                            let lnk = concat(name.as_str(), ".lnk");
                            let parts = strings_of(&["Microsoft\\Windows\\Start Menu\\Programs", lnk.as_str()]);
                            assert(strs(parts@) =~= seq!["Microsoft\\Windows\\Start Menu\\Programs"@, name@ + ".lnk"@]);
                            push(v, InstallAction::CreateShellLink { link: HostPath { base: d.clone(), parts }, target: target.clone() });
                        },
                    },
                    ShortcutLocation::Taskbar => {
                        push(v, InstallAction::Emit(ProgressEvent::Warning { message: String::from_str("Taskbar pinning not yet supported, skipping") }));
                    },
                },
                Platform::MacOs => {
                    push(v, InstallAction::Emit(ProgressEvent::Warning { message: String::from_str("macOS shortcuts not yet implemented") }));
                },
                Platform::Linux => {
                    let dir = match loc {
                        ShortcutLocation::Desktop => match &host.desktop {
                            Some(d) => {
                                let parts: Vec<String> = Vec::new();
                                assert(strs(parts@) =~= Seq::<Seq<char>>::empty());
                                HostPath { base: d.clone(), parts }
                            },
                            None => {
                                let home = match &host.home {
                                    Some(h) => h.clone(),
                                    None => String::from_str("/tmp"),
                                };
                                let parts = strings_of(&["Desktop"]);
                                assert(strs(parts@) =~= seq!["Desktop"@]);
                                HostPath { base: home, parts }
                            },
                        },
                        _ => {
                            let parts: Vec<String> = Vec::new();
                            assert(strs(parts@) =~= Seq::<Seq<char>>::empty());
                            HostPath { base: String::from_str("/usr/share/applications"), parts }
                        },
                    };
                    assert(dir@ == linux_shortcut_dir(loc, *host)) by {
                        assert(dir@.parts =~= linux_shortcut_dir(loc, *host).parts);
                    }
                    let lower = to_lowercase(name.as_str());
                    let file = concat(crate::text::replace_char(lower.as_str(), ' ', '-').as_str(), ".desktop");
                    let mut file_parts: Vec<String> = Vec::new();
                    let mut q: usize = 0;
                    while q < dir.parts.len()
                        invariant
                            q <= dir.parts@.len(),
                            strs(file_parts@) == strs(dir.parts@).take(q as int),
                        decreases dir.parts@.len() - q,
                    {
                        let ghost fb = file_parts@;
                        file_parts.push(dir.parts[q].clone());
                        assert(strs(file_parts@) =~= strs(fb).push(dir.parts@[q as int]@));
                        q = q + 1;
                        assert(strs(file_parts@) =~= strs(dir.parts@).take(q as int));
                    }
                    assert(strs(dir.parts@).take(dir.parts@.len() as int) =~= strs(dir.parts@));
                    let ghost fb = file_parts@;
                    file_parts.push(file);
                    assert(strs(file_parts@) =~= strs(fb).push(file@));
                    let file_path = HostPath { base: dir.base.clone(), parts: file_parts };
                    assert(file_path@.parts =~= dir@.parts.push(desktop_file_name(name@)));
                    let mut contents = concat3("[Desktop Entry]\nType=Application\nName=", name.as_str(), "\nExec=");
                    contents.append(target.as_str());
                    contents.append("\nTerminal=false\n");
                    push(v, InstallAction::CreateDirAll(dir));
                    push(v, InstallAction::WriteFile { path: file_path, contents });
                },
                Platform::Other => {},
            }
            assert(actions_view(v@) =~= before + la);
            assert(before + shortcut_actions(platform, rest, name@, target@, *host, index as nat, label@)
                =~= actions_view(v@) + shortcut_actions(platform, locations@.skip(k + 1), name@, target@, *host, index as nat, label@));
            k = k + 1;
        }
        emit_complete(v, index, label);
        assert(locations@.skip(n as int) =~= Seq::<ShortcutLocation>::empty());
    }
}

// ─────────────────────────────────────────────
//  What every plan looks like
// ─────────────────────────────────────────────

/// The label of a step.
pub open spec fn step_label(s: InstallStepView) -> Seq<char> {
    match s {
        InstallStepView::Extract { label } => label,
        InstallStepView::Shortcut { label, .. } => label,
        InstallStepView::Registry { label, .. } => label,
        InstallStepView::Command { label, .. } => label,
        InstallStepView::EnvVar { label, .. } => label,
        InstallStepView::RegisterUninstaller { label } => label,
    }
}

/// An action that ends a step: its completion, its skipping, or a failure.
pub open spec fn ends_step(a: ActionView) -> bool {
    ||| a is Fail
    ||| a matches ActionView::Emit(EventView::StepComplete { .. })
    ||| a matches ActionView::Emit(EventView::StepSkipped { .. })
}

/// The step ends with its own completion or skipping, or with a failure.
pub open spec fn ends_step_as(a: ActionView, i: nat, label: Seq<char>) -> bool {
    ||| a is Fail
    ||| a == act_complete(i, label)
    ||| a matches ActionView::Emit(EventView::StepSkipped { step_index, step_label, .. }) && step_index == i
        && step_label == label
}

proof fn lemma_shortcut_shape(
    platform: Platform,
    locs: Seq<ShortcutLocation>,
    name: Seq<char>,
    target: Seq<char>,
    host: HostPaths,
    i: nat,
    label: Seq<char>,
)
    ensures
        ({
            let a = shortcut_actions(platform, locs, name, target, host, i, label);
            &&& a.len() >= 1
            &&& ends_step_as(a.last(), i, label)
            &&& forall|k: int| 0 <= k < a.len() - 1 ==> !ends_step(#[trigger] a[k])
        }),
    decreases locs.len(),
{
    if locs.len() > 0 && !location_fails(platform, locs[0], host) {
        lemma_shortcut_shape(platform, locs.drop_first(), name, target, host, i, label);
        let la = location_actions(platform, locs[0], name, target, host);
        let rest = shortcut_actions(platform, locs.drop_first(), name, target, host, i, label);
        let a = la + rest;
        assert forall|k: int| 0 <= k < a.len() - 1 implies !ends_step(#[trigger] a[k]) by {
            if k >= la.len() {
                assert(a[k] == rest[k - la.len()]);
            }
        }
        assert(a.last() == rest.last());
    }
}

/// Every step's plan opens with the step's `StepBegin`, ends with its
/// `StepComplete`, its `StepSkipped` or a failure, and nothing before the
/// end completes, skips or fails the step.
pub proof fn lemma_plan_shape(
    app: AppMetaView,
    uninstall: Option<UninstallConfigView>,
    has_pak_path: bool,
    has_pak_bytes: bool,
    i: nat,
    step: InstallStepView,
    tokens: TokenTable,
    platform: Platform,
    host: HostPaths,
)
    ensures
        ({
            let p = plan_spec(app, uninstall, has_pak_path, has_pak_bytes, i, step, tokens, platform, host);
            &&& p.len() >= 2
            &&& p[0] == act_begin(i, step_label(step))
            &&& ends_step_as(p.last(), i, step_label(step))
            &&& forall|k: int| 0 <= k < p.len() - 1 ==> !ends_step(#[trigger] p[k])
        }),
{
    let p = plan_spec(app, uninstall, has_pak_path, has_pak_bytes, i, step, tokens, platform, host);
    match step {
        InstallStepView::Shortcut { label, target, locations, name } => {
            let nm = match name {
                Some(n) => n,
                None => app.name,
            };
            let t = resolve_spec(target, tokens);
            lemma_shortcut_shape(platform, locations, nm, t, host, i, label);
            let a = shortcut_actions(platform, locations, nm, t, host, i, label);
            assert(p == seq![act_begin(i, label)] + a);
            assert forall|k: int| 0 <= k < p.len() - 1 implies !ends_step(#[trigger] p[k]) by {
                if k > 0 {
                    assert(p[k] == a[k - 1]);
                }
            }
            assert(p.last() == a.last());
        },
        InstallStepView::RegisterUninstaller { label } => {
            if platform == Platform::Windows {
                let u = uninstall_actions(app, uninstall, resolve_spec("{install_dir}"@, tokens));
                assert(p == seq![act_begin(i, label)] + (u + seq![act_complete(i, label)]));
                assert forall|k: int| 0 <= k < p.len() - 1 implies !ends_step(#[trigger] p[k]) by {
                    if k > 0 {
                        assert(p[k] == u[k - 1]);
                    }
                }
            }
        },
        _ => {},
    }
}

/// On other platforms than Windows, registry and uninstaller-registration
/// steps run nothing: they open and are skipped.
pub proof fn lemma_windows_only_steps_skipped(
    app: AppMetaView,
    uninstall: Option<UninstallConfigView>,
    has_pak_path: bool,
    has_pak_bytes: bool,
    i: nat,
    step: InstallStepView,
    tokens: TokenTable,
    platform: Platform,
    host: HostPaths,
)
    requires
        platform != Platform::Windows,
        step is Registry || step is RegisterUninstaller,
    ensures
        ({
            let p = plan_spec(app, uninstall, has_pak_path, has_pak_bytes, i, step, tokens, platform, host);
            &&& p.len() == 2
            &&& p[1] matches ActionView::Emit(EventView::StepSkipped { step_index: si, step_label: sl, .. })
            &&& si == i && sl == step_label(step)
        }),
{
}

/// An environment-variable step opens and completes, and in between, on
/// Windows, runs `reg add` on the current user's environment key — the
/// machine's key only where the scope is exactly `system` — writing the
/// variable as an expandable string holding the value with its tokens
/// resolved; on other platforms it appends an `export` line to `.profile`
/// in the home directory (or `/tmp`).
pub proof fn lemma_env_var_step_plan(
    app: AppMetaView,
    uninstall: Option<UninstallConfigView>,
    has_pak_path: bool,
    has_pak_bytes: bool,
    i: nat,
    label: Seq<char>,
    name: Seq<char>,
    value: Seq<char>,
    scope: Seq<char>,
    tokens: TokenTable,
    platform: Platform,
    host: HostPaths,
)
    ensures
        ({
            let p = plan_spec(
                app,
                uninstall,
                has_pak_path,
                has_pak_bytes,
                i,
                InstallStepView::EnvVar { label, name, value, scope },
                tokens,
                platform,
                host,
            );
            let key = if scope == "system"@ {
                "HKEY_LOCAL_MACHINE\\SYSTEM\\CurrentControlSet\\Control\\Session Manager\\Environment"@
            } else {
                "HKEY_CURRENT_USER\\Environment"@
            };
            &&& p.len() == 3
            &&& p[0] == ActionView::Emit(EventView::StepBegin { step_index: i, step_label: label })
            &&& p[2] == ActionView::Emit(EventView::StepComplete { step_index: i, step_label: label })
            &&& platform == Platform::Windows ==> p[1] == ActionView::RunProcess {
                program: "reg"@,
                args: seq![
                    "add"@,
                    key,
                    "/v"@,
                    name,
                    "/t"@,
                    "REG_EXPAND_SZ"@,
                    "/d"@,
                    resolve_spec(value, tokens),
                    "/f"@,
                ],
                wait: true,
                check: CheckView::EnvVar,
            }
            &&& scope != "system"@ ==> key == "HKEY_CURRENT_USER\\Environment"@
            &&& platform != Platform::Windows ==> p[1] == ActionView::AppendToFile {
                path: HostPathView { base: or_default(host.home, "/tmp"@), parts: seq![".profile"@] },
                text: "\nexport "@ + name + "=\""@ + resolve_spec(value, tokens) + "\"\n"@,
            }
        }),
{
}

/// A registry step on Windows opens, runs `reg add` on the key under its
/// hive (`HIVE\KEY`) writing the named value with its type and its data
/// with the tokens resolved, and completes; elsewhere it opens and is
/// skipped.
pub proof fn lemma_registry_step_plan(
    app: AppMetaView,
    uninstall: Option<UninstallConfigView>,
    has_pak_path: bool,
    has_pak_bytes: bool,
    i: nat,
    label: Seq<char>,
    hive: Seq<char>,
    key: Seq<char>,
    value_name: Seq<char>,
    value_data: Seq<char>,
    value_type: Seq<char>,
    tokens: TokenTable,
    platform: Platform,
    host: HostPaths,
)
    ensures
        ({
            let p = plan_spec(
                app,
                uninstall,
                has_pak_path,
                has_pak_bytes,
                i,
                InstallStepView::Registry { label, hive, key, value_name, value_data, value_type },
                tokens,
                platform,
                host,
            );
            &&& p[0] == ActionView::Emit(EventView::StepBegin { step_index: i, step_label: label })
            &&& platform == Platform::Windows ==> p == seq![
                p[0],
                ActionView::RunProcess {
                    program: "reg"@,
                    args: seq![
                        "add"@,
                        hive + "\\"@ + key,
                        "/v"@,
                        value_name,
                        "/t"@,
                        value_type,
                        "/d"@,
                        resolve_spec(value_data, tokens),
                        "/f"@,
                    ],
                    wait: true,
                    check: CheckView::Registry,
                },
                ActionView::Emit(EventView::StepComplete { step_index: i, step_label: label }),
            ]
            &&& platform != Platform::Windows ==> p == seq![
                p[0],
                ActionView::Emit(
                    EventView::StepSkipped {
                        step_index: i,
                        step_label: label,
                        reason: "Registry steps are Windows-only"@,
                    },
                ),
            ]
        }),
{
    let p = plan_spec(
        app,
        uninstall,
        has_pak_path,
        has_pak_bytes,
        i,
        InstallStepView::Registry { label, hive, key, value_name, value_data, value_type },
        tokens,
        platform,
        host,
    );
    assert(p =~= seq![p[0]] + p.skip(1));
}

/// A command step opens, runs its command with each argument, both with
/// the tokens resolved, waiting for it where the step says so and judging it
/// as the step's command, and completes.
pub proof fn lemma_command_step_plan(
    app: AppMetaView,
    uninstall: Option<UninstallConfigView>,
    has_pak_path: bool,
    has_pak_bytes: bool,
    i: nat,
    label: Seq<char>,
    command: Seq<char>,
    args: Seq<Seq<char>>,
    wait: bool,
    fail_on_error: bool,
    tokens: TokenTable,
    platform: Platform,
    host: HostPaths,
)
    ensures
        ({
            let p = plan_spec(
                app,
                uninstall,
                has_pak_path,
                has_pak_bytes,
                i,
                InstallStepView::Command { label, command, args, wait, fail_on_error },
                tokens,
                platform,
                host,
            );
            &&& p.len() == 3
            &&& p[0] == ActionView::Emit(EventView::StepBegin { step_index: i, step_label: label })
            &&& p[1] matches ActionView::RunProcess { program, args: a, wait: w, check } && program == resolve_spec(
                command,
                tokens,
            ) && a.len() == args.len() && (forall|j: int| 0 <= j < args.len() ==> #[trigger] a[j] == resolve_spec(
                args[j],
                tokens,
            )) && w == wait && check == CheckView::Command {
                label,
                command: resolve_spec(command, tokens),
                fail_on_error,
            }
            &&& p[2] == ActionView::Emit(EventView::StepComplete { step_index: i, step_label: label })
        }),
{
}

/// An extract step opens and extracts the bundle from the file where the
/// runner has one, otherwise from the bytes where it has them, and
/// completes; with neither it opens and is skipped.
pub proof fn lemma_extract_step_plan(
    app: AppMetaView,
    uninstall: Option<UninstallConfigView>,
    has_pak_path: bool,
    has_pak_bytes: bool,
    i: nat,
    label: Seq<char>,
    tokens: TokenTable,
    platform: Platform,
    host: HostPaths,
)
    ensures
        ({
            let p = plan_spec(
                app,
                uninstall,
                has_pak_path,
                has_pak_bytes,
                i,
                InstallStepView::Extract { label },
                tokens,
                platform,
                host,
            );
            let begin = ActionView::Emit(EventView::StepBegin { step_index: i, step_label: label });
            let complete = ActionView::Emit(EventView::StepComplete { step_index: i, step_label: label });
            &&& has_pak_path ==> p == seq![begin, ActionView::Extract(PayloadSource::File), complete]
            &&& !has_pak_path && has_pak_bytes ==> p == seq![begin, ActionView::Extract(PayloadSource::Bytes), complete]
            &&& !has_pak_path && !has_pak_bytes ==> p.len() == 2 && p[0] == begin && p[1] is Emit && p[1]->Emit_0 is StepSkipped
        }),
{
    let p = plan_spec(
        app,
        uninstall,
        has_pak_path,
        has_pak_bytes,
        i,
        InstallStepView::Extract { label },
        tokens,
        platform,
        host,
    );
    assert(p =~= seq![p[0]] + p.skip(1));
}

/// Registering the uninstaller on Windows opens, writes the app's
/// Add/Remove Programs entry under
/// `HKEY_LOCAL_MACHINE\SOFTWARE\Microsoft\Windows\CurrentVersion\Uninstall\<id>`
/// — display name, version, publisher, install location, the uninstaller's
/// path in the install directory (its configured name, else
/// `uninstall.exe`), no-modify and no-repair — and completes.
pub proof fn lemma_register_uninstaller_plan(
    app: AppMetaView,
    uninstall: Option<UninstallConfigView>,
    has_pak_path: bool,
    has_pak_bytes: bool,
    i: nat,
    label: Seq<char>,
    tokens: TokenTable,
    host: HostPaths,
)
    ensures
        ({
            let p = plan_spec(
                app,
                uninstall,
                has_pak_path,
                has_pak_bytes,
                i,
                InstallStepView::RegisterUninstaller { label },
                tokens,
                Platform::Windows,
                host,
            );
            let key = "HKEY_LOCAL_MACHINE\\SOFTWARE\\Microsoft\\Windows\\CurrentVersion\\Uninstall\\"@ + app.id;
            let dir = resolve_spec("{install_dir}"@, tokens);
            let exe = match uninstall {
                Some(u) => u.exe_name,
                None => "uninstall.exe"@,
            };
            let set = |n: Seq<char>, d: Seq<char>|
                ActionView::RunProcess {
                    program: "reg"@,
                    args: seq!["add"@, key, "/v"@, n, "/t"@, "REG_SZ"@, "/d"@, d, "/f"@],
                    wait: true,
                    check: CheckView::Ignored,
                };
            p == seq![
                ActionView::Emit(EventView::StepBegin { step_index: i, step_label: label }),
                set("DisplayName"@, app.name),
                set("DisplayVersion"@, app.version),
                set("Publisher"@, app.publisher),
                set("InstallLocation"@, dir),
                set("UninstallString"@, dir + "\\"@ + exe),
                set("NoModify"@, "1"@),
                set("NoRepair"@, "1"@),
                ActionView::Emit(EventView::StepComplete { step_index: i, step_label: label }),
            ]
        }),
{
    let p = plan_spec(
        app,
        uninstall,
        has_pak_path,
        has_pak_bytes,
        i,
        InstallStepView::RegisterUninstaller { label },
        tokens,
        Platform::Windows,
        host,
    );
    assert(p =~= seq![
        ActionView::Emit(EventView::StepBegin { step_index: i, step_label: label }),
    ] + uninstall_actions(app, uninstall, resolve_spec("{install_dir}"@, tokens)) + seq![
        ActionView::Emit(EventView::StepComplete { step_index: i, step_label: label }),
    ]);
}

/// A shortcut step for one location opens, then: on Windows, links
/// `NAME.lnk` on the desktop or in the Start menu's Programs folder to the
/// target with its tokens resolved, and completes (it fails where that
/// directory is unknown; the taskbar is only warned about); on Linux,
/// creates the desktop or applications directory and writes a `.desktop`
/// entry named after the lowercased name with spaces turned into hyphens,
/// and completes; on macOS it warns and completes. The name is the step's,
/// or the app's where the step names none.
pub proof fn lemma_shortcut_step_one_location(
    app: AppMetaView,
    uninstall: Option<UninstallConfigView>,
    has_pak_path: bool,
    has_pak_bytes: bool,
    i: nat,
    label: Seq<char>,
    target: Seq<char>,
    loc: ShortcutLocation,
    name: Option<Seq<char>>,
    tokens: TokenTable,
    platform: Platform,
    host: HostPaths,
)
    ensures
        ({
            let p = plan_spec(
                app,
                uninstall,
                has_pak_path,
                has_pak_bytes,
                i,
                InstallStepView::Shortcut { label, target, locations: seq![loc], name },
                tokens,
                platform,
                host,
            );
            let nm = match name {
                Some(n) => n,
                None => app.name,
            };
            let t = resolve_spec(target, tokens);
            let begin = ActionView::Emit(EventView::StepBegin { step_index: i, step_label: label });
            let complete = ActionView::Emit(EventView::StepComplete { step_index: i, step_label: label });
            let fail = |reason: Seq<char>| ActionView::Fail(ErrorView::StepFailed { step: "shortcut"@, reason });
            let file = lowercase(nm).map_values(|c: char| if c == ' ' { '-' } else { c }) + ".desktop"@;
            let entry = "[Desktop Entry]\nType=Application\nName="@ + nm + "\nExec="@ + t + "\nTerminal=false\n"@;
            &&& (platform == Platform::Windows && loc == ShortcutLocation::Desktop) ==> p == match host.desktop {
                Some(d) => seq![
                    begin,
                    ActionView::CreateShellLink {
                        link: HostPathView { base: d@, parts: seq![nm + ".lnk"@] },
                        target: t,
                    },
                    complete,
                ],
                None => seq![begin, fail("Cannot find desktop directory"@)],
            }
            &&& (platform == Platform::Windows && loc == ShortcutLocation::StartMenu) ==> p == match host.data {
                Some(d) => seq![
                    begin,
                    ActionView::CreateShellLink {
                        link: HostPathView {
                            base: d@,
                            parts: seq!["Microsoft\\Windows\\Start Menu\\Programs"@, nm + ".lnk"@],
                        },
                        target: t,
                    },
                    complete,
                ],
                None => seq![begin, fail("Cannot find start menu directory"@)],
            }
            &&& (platform == Platform::Windows && loc == ShortcutLocation::Taskbar) ==> p == seq![
                begin,
                ActionView::Emit(EventView::Warning { message: "Taskbar pinning not yet supported, skipping"@ }),
                complete,
            ]
            &&& platform == Platform::MacOs ==> p == seq![
                begin,
                ActionView::Emit(EventView::Warning { message: "macOS shortcuts not yet implemented"@ }),
                complete,
            ]
            &&& platform == Platform::Linux ==> {
                let dir = match loc {
                    ShortcutLocation::Desktop => match host.desktop {
                        Some(d) => HostPathView { base: d@, parts: Seq::empty() },
                        None => HostPathView { base: or_default(host.home, "/tmp"@), parts: seq!["Desktop"@] },
                    },
                    _ => HostPathView { base: "/usr/share/applications"@, parts: Seq::empty() },
                };
                p == seq![
                    begin,
                    ActionView::CreateDirAll(dir),
                    ActionView::WriteFile {
                        path: HostPathView { base: dir.base, parts: dir.parts.push(file) },
                        contents: entry,
                    },
                    complete,
                ]
            }
            &&& platform == Platform::Other ==> p == seq![begin, complete]
        }),
{
    let locs = seq![loc];
    assert(locs.drop_first() =~= Seq::<ShortcutLocation>::empty());
    assert(locs[0] == loc);
    let nm = match name {
        Some(n) => n,
        None => app.name,
    };
    let t = resolve_spec(target, tokens);
    let rest = shortcut_actions(platform, Seq::<ShortcutLocation>::empty(), nm, t, host, i, label);
    assert(rest == seq![act_complete(i, label)]);
    let la = location_actions(platform, loc, nm, t, host);
    if !location_fails(platform, loc, host) {
        assert(shortcut_actions(platform, locs, nm, t, host, i, label) == la + rest);
    } else {
        assert(shortcut_actions(platform, locs, nm, t, host, i, label) == la);
    }
    assert(crate::text::replace_char_spec(lowercase(nm), ' ', '-') =~= lowercase(nm).map_values(
        |c: char| if c == ' ' { '-' } else { c },
    ));
    let p = plan_spec(
        app,
        uninstall,
        has_pak_path,
        has_pak_bytes,
        i,
        InstallStepView::Shortcut { label, target, locations: locs, name },
        tokens,
        platform,
        host,
    );
    let begin = act_begin(i, label);
    assert(p == seq![begin] + shortcut_actions(platform, locs, nm, t, host, i, label));
    let complete = act_complete(i, label);
    if location_fails(platform, loc, host) {
        assert(p =~= seq![begin] + la);
    } else {
        assert(p =~= seq![begin] + la + rest);
        if platform == Platform::Linux {
            let dir = linux_shortcut_dir(loc, host);
            assert(la == seq![
                ActionView::CreateDirAll(dir),
                ActionView::WriteFile {
                    path: host_path(dir.base, dir.parts.push(desktop_file_name(nm))),
                    contents: desktop_entry(nm, t),
                },
            ]);
            assert(p =~= seq![begin, la[0], la[1], complete]);
        } else if platform == Platform::Other {
            assert(p =~= seq![begin, complete]);
        } else {
            assert(la.len() == 1);
            assert(p =~= seq![begin, la[0], complete]);
        }
    }
}

/// Where no location of `first` fails, the shortcut step for `first`
/// followed by `rest` does what the step for `first` does, without its
/// completion, and then what the step for `rest` does after opening.
#[verifier::spinoff_prover]
#[verifier::rlimit(40)]
pub proof fn lemma_shortcut_step_locations_in_order(
    app: AppMetaView,
    uninstall: Option<UninstallConfigView>,
    has_pak_path: bool,
    has_pak_bytes: bool,
    i: nat,
    label: Seq<char>,
    target: Seq<char>,
    first: Seq<ShortcutLocation>,
    rest: Seq<ShortcutLocation>,
    name: Option<Seq<char>>,
    tokens: TokenTable,
    platform: Platform,
    host: HostPaths,
)
    requires
        platform == Platform::Windows ==> forall|j: int| 0 <= j < first.len() ==> {
            &&& (#[trigger] first[j] == ShortcutLocation::Desktop ==> host.desktop is Some)
            &&& (first[j] == ShortcutLocation::StartMenu ==> host.data is Some)
        },
    ensures
        ({
            let plan = |locs: Seq<ShortcutLocation>|
                plan_spec(
                    app,
                    uninstall,
                    has_pak_path,
                    has_pak_bytes,
                    i,
                    InstallStepView::Shortcut { label, target, locations: locs, name },
                    tokens,
                    platform,
                    host,
                );
            let a = plan(first);
            plan(first + rest) == a.take(a.len() - 1) + plan(rest).skip(1)
        }),
{
    let nm = match name {
        Some(n) => n,
        None => app.name,
    };
    let t = resolve_spec(target, tokens);
    lemma_shortcut_actions_concat(platform, first, rest, nm, t, host, i, label);
    let a = shortcut_actions(platform, first, nm, t, host, i, label);
    let b = shortcut_actions(platform, rest, nm, t, host, i, label);
    lemma_shortcut_shape(platform, first, nm, t, host, i, label);
    let begin = act_begin(i, label);
    assert((seq![begin] + a).take((seq![begin] + a).len() - 1) =~= seq![begin] + a.take(a.len() - 1));
    assert((seq![begin] + b).skip(1) =~= b);
    assert(seq![begin] + (a.take(a.len() - 1) + b) =~= seq![begin] + a.take(a.len() - 1) + b);
}

proof fn lemma_shortcut_actions_concat(
    platform: Platform,
    first: Seq<ShortcutLocation>,
    rest: Seq<ShortcutLocation>,
    name: Seq<char>,
    target: Seq<char>,
    host: HostPaths,
    i: nat,
    label: Seq<char>,
)
    requires
        platform == Platform::Windows ==> forall|j: int| 0 <= j < first.len() ==> {
            &&& (#[trigger] first[j] == ShortcutLocation::Desktop ==> host.desktop is Some)
            &&& (first[j] == ShortcutLocation::StartMenu ==> host.data is Some)
        },
    ensures
        ({
            let a = shortcut_actions(platform, first, name, target, host, i, label);
            &&& a.len() >= 1
            &&& a.last() == act_complete(i, label)
            &&& shortcut_actions(platform, first + rest, name, target, host, i, label) == a.take(a.len() - 1)
                + shortcut_actions(platform, rest, name, target, host, i, label)
        }),
    decreases first.len(),
{
    let a = shortcut_actions(platform, first, name, target, host, i, label);
    if first.len() == 0 {
        assert(first + rest =~= rest);
        assert(a.take(0) =~= Seq::<ActionView>::empty());
        assert(Seq::<ActionView>::empty() + shortcut_actions(platform, rest, name, target, host, i, label) =~= shortcut_actions(
            platform,
            rest,
            name,
            target,
            host,
            i,
            label,
        ));
    } else {
        assert(first[0] == first[0]);
        assert(!location_fails(platform, first[0], host));
        let tail = first.drop_first();
        assert forall|j: int| 0 <= j < tail.len() implies {
            &&& (#[trigger] tail[j] == ShortcutLocation::Desktop ==> platform == Platform::Windows ==> host.desktop is Some)
            &&& (tail[j] == ShortcutLocation::StartMenu ==> platform == Platform::Windows ==> host.data is Some)
        } by {
            assert(tail[j] == first[j + 1]);
        }
        lemma_shortcut_actions_concat(platform, tail, rest, name, target, host, i, label);
        assert((first + rest)[0] == first[0]);
        assert((first + rest).drop_first() =~= tail + rest);
        let la = location_actions(platform, first[0], name, target, host);
        let ta = shortcut_actions(platform, tail, name, target, host, i, label);
        assert(a == la + ta);
        assert((la + ta).take((la + ta).len() - 1) =~= la + ta.take(ta.len() - 1));
        assert(la + ta.take(ta.len() - 1) + shortcut_actions(platform, rest, name, target, host, i, label) =~= la + (ta.take(
            ta.len() - 1,
        ) + shortcut_actions(platform, rest, name, target, host, i, label)));
    }
}

} // verus!
