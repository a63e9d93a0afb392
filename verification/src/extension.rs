//! The editor extension's side: preparing the language-server binaries and the
//! command that starts the proxy.
//!
//! Preparing the binaries alternates between decisions and work that only
//! the editor host can do (file checks, downloads, status reports).  `Setup`
//! holds the decisions: `Setup::start` and `Setup::step` say, from what the
//! host last reported, what it should do next.
use vstd::prelude::*;
use crate::paths::{join_path, joined};
use crate::strings::{push_str, string_views, to_owned_string};

verus! {

broadcast use vstd::string::group_string_axioms;

/// The operating system the editor runs on.
#[derive(Debug, Clone, Copy, PartialEq, Eq)]
pub enum Os {
    Mac,
    Linux,
    Windows,
}

/// The processor architecture the editor runs on.
#[derive(Debug, Clone, Copy, PartialEq, Eq)]
pub enum Architecture {
    Aarch64,
    X86,
    X8664,
}

/// The release target triple of the binaries for a platform, if there are any.
pub open spec fn target_of(os: Os, arch: Architecture) -> Option<Seq<char>> {
    match (os, arch) {
        (Os::Mac, Architecture::Aarch64) => Some("aarch64-apple-darwin"@),
        (Os::Mac, Architecture::X8664) => Some("x86_64-apple-darwin"@),
        (Os::Linux, Architecture::X8664) => Some("x86_64-unknown-linux-gnu"@),
        (Os::Linux, Architecture::Aarch64) => Some("aarch64-unknown-linux-gnu"@),
        _ => None,
    }
}

/// The release target triple of the binaries for a platform, if there are any.
pub fn release_target(os: Os, arch: Architecture) -> (r: Option<&'static str>)
    ensures
        match target_of(os, arch) {
            Some(t) => r matches Some(s) && s@ == t,
            None => r is None,
        },
{
    match (os, arch) {
        (Os::Mac, Architecture::Aarch64) => Some("aarch64-apple-darwin"),
        (Os::Mac, Architecture::X8664) => Some("x86_64-apple-darwin"),
        (Os::Linux, Architecture::X8664) => Some("x86_64-unknown-linux-gnu"),
        (Os::Linux, Architecture::Aarch64) => Some("aarch64-unknown-linux-gnu"),
        _ => None,
    }
}

/// How the editor's platform enums print with `{:?}`.
pub open spec fn os_debug(os: Os) -> Seq<char> {
    match os {
        Os::Mac => "Os::Mac"@,
        Os::Linux => "Os::Linux"@,
        Os::Windows => "Os::Windows"@,
    }
}

pub open spec fn arch_debug(arch: Architecture) -> Seq<char> {
    match arch {
        Architecture::Aarch64 => "Architecture::Aarch64"@,
        Architecture::X86 => "Architecture::X86"@,
        Architecture::X8664 => "Architecture::X8664"@,
    }
}

fn os_text(os: Os) -> (r: &'static str)
    ensures
        r@ == os_debug(os),
{
    match os {
        Os::Mac => "Os::Mac",
        Os::Linux => "Os::Linux",
        Os::Windows => "Os::Windows",
    }
}

fn arch_text(arch: Architecture) -> (r: &'static str)
    ensures
        r@ == arch_debug(arch),
{
    match arch {
        Architecture::Aarch64 => "Architecture::Aarch64",
        Architecture::X86 => "Architecture::X86",
        Architecture::X8664 => "Architecture::X8664",
    }
}

/// `Unsupported platform for <server>: <os> <arch>`.
pub open spec fn unsupported_message(server: Seq<char>, os: Os, arch: Architecture) -> Seq<char> {
    "Unsupported platform for "@ + server + ": "@ + os_debug(os) + " "@ + arch_debug(arch)
}

/// The error for a platform without binaries for `server`.
pub fn unsupported_platform(server: &str, os: Os, arch: Architecture) -> (r: String)
    ensures
        r@ == unsupported_message(server@, os, arch),
{
    let mut out = to_owned_string("Unsupported platform for ");
    push_str(&mut out, server);
    push_str(&mut out, ": ");
    push_str(&mut out, os_text(os));
    push_str(&mut out, " ");
    push_str(&mut out, arch_text(arch));
    out
}

/// Where the `harn` release for a target is downloaded from.
pub open spec fn harn_url(target: Seq<char>) -> Seq<char> {
    "https://github.com/burin-labs/harn/releases/latest/download/harn-"@ + target + ".tar.gz"@
}

/// Where the rust-analyzer release for a target is downloaded from.
pub open spec fn rust_analyzer_url(target: Seq<char>) -> Seq<char> {
    "https://github.com/rust-lang/rust-analyzer/releases/latest/download/rust-analyzer-"@ + target
        + ".gz"@
}

/// How a downloaded file is unpacked.
#[derive(Debug, Clone, Copy, PartialEq, Eq)]
pub enum FileKind {
    /// A gzip-compressed tar archive, unpacked into a directory.
    GzipTar,
    /// A gzip-compressed single file.
    Gzip,
}

/// What the host should do next.
#[derive(Debug)]
pub enum SetupAction {
    /// Check whether the path names a regular file; answer with `Checked`.
    CheckFile(String),
    /// Report that a download is under way; answer with `Done`.
    ReportDownloading,
    /// Download `url` into `dest`, unpacking it as `kind`; answer with `Done`
    /// or `Failed`.
    Download { url: String, dest: String, kind: FileKind },
    /// Make the file executable; answer with `Done` or `Failed`.
    MakeExecutable(String),
    /// Report that the servers are installed; answer with `Done`.
    ReportReady,
    /// Start the proxy (see `launch_command`).
    Launch,
    /// Give up with this error.
    Fail(String),
}

/// What the host reports back.
pub enum SetupEvent {
    Checked(bool),
    Done,
    Failed(String),
}

/// How far the preparation has come.
#[derive(Debug, Clone, Copy, PartialEq, Eq)]
pub enum SetupStage {
    HarnCheck,
    HarnReport,
    HarnDownload,
    HarnExecutable,
    AnalyzerCheck,
    AnalyzerReport,
    AnalyzerDownload,
    AnalyzerExecutable,
    Ready,
    Finished,
}

/// The state of the preparation: the platform and how far it has come.
#[derive(Debug, Clone, Copy)]
pub struct Setup {
    pub os: Os,
    pub arch: Architecture,
    pub stage: SetupStage,
}

/// The directory the `harn` archive unpacks into, relative to the extension.
pub open spec fn harn_dir() -> Seq<char> {
    "harn-bin"@
}

/// The `harn` binary, relative to the extension.
pub open spec fn harn_binary() -> Seq<char> {
    "harn-bin/harn"@
}

/// The rust-analyzer binary, relative to the extension.
pub open spec fn analyzer_binary() -> Seq<char> {
    "rust-analyzer"@
}

/// The model of an action.
pub enum ActionModel {
    CheckFile(Seq<char>),
    ReportDownloading,
    Download { url: Seq<char>, dest: Seq<char>, kind: FileKind },
    MakeExecutable(Seq<char>),
    ReportReady,
    Launch,
    Fail(Seq<char>),
}

impl View for SetupAction {
    type V = ActionModel;

    open spec fn view(&self) -> ActionModel {
        match self {
            SetupAction::CheckFile(p) => ActionModel::CheckFile(p@),
            SetupAction::ReportDownloading => ActionModel::ReportDownloading,
            SetupAction::Download { url, dest, kind } => ActionModel::Download {
                url: url@,
                dest: dest@,
                kind: *kind,
            },
            SetupAction::MakeExecutable(p) => ActionModel::MakeExecutable(p@),
            SetupAction::ReportReady => ActionModel::ReportReady,
            SetupAction::Launch => ActionModel::Launch,
            SetupAction::Fail(m) => ActionModel::Fail(m@),
        }
    }
}

/// The action that opens the rust-analyzer phase: check for its binary, or
/// fail when the platform has no release of it.
pub open spec fn analyzer_phase(os: Os, arch: Architecture) -> (SetupStage, ActionModel) {
    match target_of(os, arch) {
        Some(_) => (SetupStage::AnalyzerCheck, ActionModel::CheckFile(analyzer_binary())),
        None => (
            SetupStage::Finished,
            ActionModel::Fail(unsupported_message("rust-analyzer"@, os, arch)),
        ),
    }
}

/// The stage and action after the answer `event` in stage `stage`.
pub open spec fn next_setup(stage: SetupStage, os: Os, arch: Architecture, event: SetupEvent) -> (
    SetupStage,
    ActionModel,
) {
    let target = target_of(os, arch)->0;
    match (stage, event) {
        (SetupStage::HarnCheck, SetupEvent::Checked(true)) => analyzer_phase(os, arch),
        (SetupStage::HarnCheck, _) => (SetupStage::HarnReport, ActionModel::ReportDownloading),
        (SetupStage::HarnReport, _) => (
            SetupStage::HarnDownload,
            ActionModel::Download { url: harn_url(target), dest: harn_dir(), kind: FileKind::GzipTar },
        ),
        (SetupStage::HarnDownload, SetupEvent::Failed(e)) => (
            SetupStage::Finished,
            ActionModel::Fail("Failed to download harn: "@ + e@),
        ),
        (SetupStage::HarnDownload, _) => (
            SetupStage::HarnExecutable,
            ActionModel::MakeExecutable(harn_binary()),
        ),
        (SetupStage::HarnExecutable, SetupEvent::Failed(e)) => (
            SetupStage::Finished,
            ActionModel::Fail("Failed to make harn executable: "@ + e@),
        ),
        (SetupStage::HarnExecutable, _) => analyzer_phase(os, arch),
        (SetupStage::AnalyzerCheck, SetupEvent::Checked(true)) => (
            SetupStage::Ready,
            ActionModel::ReportReady,
        ),
        (SetupStage::AnalyzerCheck, _) => (
            SetupStage::AnalyzerReport,
            ActionModel::ReportDownloading,
        ),
        (SetupStage::AnalyzerReport, _) => (
            SetupStage::AnalyzerDownload,
            ActionModel::Download {
                url: rust_analyzer_url(target),
                dest: analyzer_binary(),
                kind: FileKind::Gzip,
            },
        ),
        (SetupStage::AnalyzerDownload, SetupEvent::Failed(e)) => (
            SetupStage::Finished,
            ActionModel::Fail("Failed to download rust-analyzer: "@ + e@),
        ),
        (SetupStage::AnalyzerDownload, _) => (
            SetupStage::AnalyzerExecutable,
            ActionModel::MakeExecutable(analyzer_binary()),
        ),
        (SetupStage::AnalyzerExecutable, SetupEvent::Failed(e)) => (
            SetupStage::Finished,
            ActionModel::Fail("Failed to make rust-analyzer executable: "@ + e@),
        ),
        (SetupStage::AnalyzerExecutable, _) => (SetupStage::Ready, ActionModel::ReportReady),
        (SetupStage::Ready, _) => (SetupStage::Finished, ActionModel::Launch),
        (SetupStage::Finished, _) => (SetupStage::Finished, ActionModel::Launch),
    }
}

/// Whether `event` is an answer to the action that led to `stage`.
pub open spec fn answers(stage: SetupStage, event: SetupEvent) -> bool {
    match stage {
        SetupStage::HarnCheck | SetupStage::AnalyzerCheck => event is Checked,
        SetupStage::HarnReport | SetupStage::AnalyzerReport | SetupStage::Ready => event is Done,
        SetupStage::HarnDownload | SetupStage::HarnExecutable | SetupStage::AnalyzerDownload
        | SetupStage::AnalyzerExecutable => event is Done || event is Failed,
        SetupStage::Finished => false,
    }
}

/// Enters the rust-analyzer phase.
fn enter_analyzer_phase(os: Os, arch: Architecture) -> (r: (Setup, SetupAction))
    ensures
        r.0.well_formed(),
        r.0.os == os && r.0.arch == arch,
        (r.0.stage, r.1@) == analyzer_phase(os, arch),
{
    match release_target(os, arch) {
        Some(_) => (
            Setup { os, arch, stage: SetupStage::AnalyzerCheck },
            SetupAction::CheckFile(to_owned_string("rust-analyzer")),
        ),
        None => (
            Setup { os, arch, stage: SetupStage::Finished },
            SetupAction::Fail(unsupported_platform("rust-analyzer", os, arch)),
        ),
    }
}

/// `<prefix><detail>`, for the errors of failed host operations.
fn failure(prefix: &str, detail: &str) -> (r: String)
    ensures
        r@ == prefix@ + detail@,
{
    let mut out = to_owned_string(prefix);
    push_str(&mut out, detail);
    out
}

impl Setup {
    /// Every stage before the end belongs to a platform with releases.
    pub open spec fn well_formed(&self) -> bool {
        self.stage != SetupStage::Finished ==> target_of(self.os, self.arch) is Some
    }

    /// Starts preparing the binaries for a platform: check for the `harn`
    /// binary, or fail when the platform has no release of it.
    pub fn start(os: Os, arch: Architecture) -> (r: (Setup, SetupAction))
        ensures
            r.0.well_formed(),
            r.0.os == os && r.0.arch == arch,
            (r.0.stage, r.1@) == (match target_of(os, arch) {
                Some(_) => (SetupStage::HarnCheck, ActionModel::CheckFile(harn_binary())),
                None => (
                    SetupStage::Finished,
                    ActionModel::Fail(unsupported_message("harn-lsp"@, os, arch)),
                ),
            }),
    {
        match release_target(os, arch) {
            Some(_) => (
                Setup { os, arch, stage: SetupStage::HarnCheck },
                SetupAction::CheckFile(to_owned_string("harn-bin/harn")),
            ),
            None => (
                Setup { os, arch, stage: SetupStage::Finished },
                SetupAction::Fail(unsupported_platform("harn-lsp", os, arch)),
            ),
        }
    }

    /// The next state and action after the host's answer `event` to the
    /// last action.
    pub fn step(self, event: SetupEvent) -> (r: (Setup, SetupAction))
        requires
            self.well_formed(),
            answers(self.stage, event),
        ensures
            r.0.well_formed(),
            r.0.os == self.os && r.0.arch == self.arch,
            (r.0.stage, r.1@) == next_setup(self.stage, self.os, self.arch, event),
    {
        let os = self.os;
        let arch = self.arch;
        match (self.stage, event) {
            (SetupStage::HarnCheck, SetupEvent::Checked(true)) => enter_analyzer_phase(os, arch),
            (SetupStage::HarnCheck, _) => (
                Setup { os, arch, stage: SetupStage::HarnReport },
                SetupAction::ReportDownloading,
            ),
            (SetupStage::HarnReport, _) => {
                let target = match release_target(os, arch) {
                    Some(t) => t,
                    None => {
                        assert(false);
                        return (
                            Setup { os, arch, stage: SetupStage::Finished },
                            SetupAction::Fail(unsupported_platform("harn-lsp", os, arch)),
                        );
                    },
                };
                let mut url = to_owned_string(
                    "https://github.com/burin-labs/harn/releases/latest/download/harn-",
                );
                push_str(&mut url, target);
                push_str(&mut url, ".tar.gz");
                (
                    Setup { os, arch, stage: SetupStage::HarnDownload },
                    SetupAction::Download {
                        url,
                        dest: to_owned_string("harn-bin"),
                        kind: FileKind::GzipTar,
                    },
                )
            },
            (SetupStage::HarnDownload, SetupEvent::Failed(e)) => (
                Setup { os, arch, stage: SetupStage::Finished },
                SetupAction::Fail(failure("Failed to download harn: ", e.as_str())),
            ),
            (SetupStage::HarnDownload, _) => (
                Setup { os, arch, stage: SetupStage::HarnExecutable },
                SetupAction::MakeExecutable(to_owned_string("harn-bin/harn")),
            ),
            (SetupStage::HarnExecutable, SetupEvent::Failed(e)) => (
                Setup { os, arch, stage: SetupStage::Finished },
                SetupAction::Fail(failure("Failed to make harn executable: ", e.as_str())),
            ),
            (SetupStage::HarnExecutable, _) => enter_analyzer_phase(os, arch),
            (SetupStage::AnalyzerCheck, SetupEvent::Checked(true)) => (
                Setup { os, arch, stage: SetupStage::Ready },
                SetupAction::ReportReady,
            ),
            (SetupStage::AnalyzerCheck, _) => (
                Setup { os, arch, stage: SetupStage::AnalyzerReport },
                SetupAction::ReportDownloading,
            ),
            (SetupStage::AnalyzerReport, _) => {
                let target = match release_target(os, arch) {
                    Some(t) => t,
                    None => {
                        assert(false);
                        return (
                            Setup { os, arch, stage: SetupStage::Finished },
                            SetupAction::Fail(unsupported_platform("rust-analyzer", os, arch)),
                        );
                    },
                };
                let mut url = to_owned_string(
                    "https://github.com/rust-lang/rust-analyzer/releases/latest/download/rust-analyzer-",
                );
                push_str(&mut url, target);
                push_str(&mut url, ".gz");
                (
                    Setup { os, arch, stage: SetupStage::AnalyzerDownload },
                    SetupAction::Download {
                        url,
                        dest: to_owned_string("rust-analyzer"),
                        kind: FileKind::Gzip,
                    },
                )
            },
            (SetupStage::AnalyzerDownload, SetupEvent::Failed(e)) => (
                Setup { os, arch, stage: SetupStage::Finished },
                SetupAction::Fail(failure("Failed to download rust-analyzer: ", e.as_str())),
            ),
            (SetupStage::AnalyzerDownload, _) => (
                Setup { os, arch, stage: SetupStage::AnalyzerExecutable },
                SetupAction::MakeExecutable(to_owned_string("rust-analyzer")),
            ),
            (SetupStage::AnalyzerExecutable, SetupEvent::Failed(e)) => (
                Setup { os, arch, stage: SetupStage::Finished },
                SetupAction::Fail(failure("Failed to make rust-analyzer executable: ", e.as_str())),
            ),
            (SetupStage::AnalyzerExecutable, _) => (
                Setup { os, arch, stage: SetupStage::Ready },
                SetupAction::ReportReady,
            ),
            (SetupStage::Ready, _) => (
                Setup { os, arch, stage: SetupStage::Finished },
                SetupAction::Launch,
            ),
            (SetupStage::Finished, _) => (
                Setup { os, arch, stage: SetupStage::Finished },
                SetupAction::Launch,
            ),
        }
    }
}

/// How far along a stage is.
pub open spec fn stage_rank(stage: SetupStage) -> nat {
    match stage {
        SetupStage::HarnCheck => 0,
        SetupStage::HarnReport => 1,
        SetupStage::HarnDownload => 2,
        SetupStage::HarnExecutable => 3,
        SetupStage::AnalyzerCheck => 4,
        SetupStage::AnalyzerReport => 5,
        SetupStage::AnalyzerDownload => 6,
        SetupStage::AnalyzerExecutable => 7,
        SetupStage::Ready => 8,
        SetupStage::Finished => 9,
    }
}

/// The preparation always moves forward, so it ends after at most ten
/// actions; it ends exactly when the action is to launch or to give up.
pub proof fn law_setup_moves_forward(os: Os, arch: Architecture, stage: SetupStage, event: SetupEvent)
    requires
        stage != SetupStage::Finished,
        answers(stage, event),
    ensures
        ({
            let (next, action) = next_setup(stage, os, arch, event);
            &&& stage_rank(next) > stage_rank(stage)
            &&& (next == SetupStage::Finished <==> (action is Launch || action is Fail))
        }),
{
}

// ---------------------------------------------------------------------------
// Starting the proxy
/// The command the editor runs to start a language server.
pub struct LaunchCommand {
    pub command: String,
    pub args: Vec<String>,
    pub env: Vec<(String, String)>,
}

pub open spec fn pair_views(v: Seq<(String, String)>) -> Seq<(Seq<char>, Seq<char>)> {
    Seq::new(v.len(), |i: int| (v[i].0@, v[i].1@))
}

/// The proxy's manifest in the worktree at `root`.
pub open spec fn proxy_manifest(root: Seq<char>) -> Seq<char> {
    root + "/crates/harn-lsp-proxy/Cargo.toml"@
}

/// The variables added to the worktree's shell environment: the Harn source
/// directory when one was found, and where the two binaries are.
pub open spec fn added_env(harn_src_dir: Option<Seq<char>>) -> Seq<(Seq<char>, Seq<char>)> {
    let src: Seq<(Seq<char>, Seq<char>)> = match harn_src_dir {
        Some(d) => seq![("HARN_SRC_DIR"@, d)],
        None => Seq::empty(),
    };
    src + seq![("HARN_LSP_PATH"@, "./harn-bin/harn"@), ("RUST_ANALYZER_PATH"@, "./rust-analyzer"@)]
}

/// The command that starts the proxy through cargo from the worktree at
/// `root_path`, with the worktree's shell environment extended by
/// `added_env`.
pub fn launch_command(root_path: &str, shell_env: Vec<(String, String)>, harn_src_dir: Option<
    String,
>) -> (r: LaunchCommand)
    ensures
        r.command@ == "cargo"@,
        string_views(r.args@) == seq![
            "run"@,
            "--quiet"@,
            "--manifest-path"@,
            proxy_manifest(root_path@),
        ],
        pair_views(r.env@) == pair_views(shell_env@) + added_env(
            crate::rpc::opt_string_view(harn_src_dir),
        ),
{
    let ghost shell = pair_views(shell_env@);
    let ghost src = crate::rpc::opt_string_view(harn_src_dir);
    let mut env = shell_env;
    match harn_src_dir {
        Some(d) => {
            env.push((to_owned_string("HARN_SRC_DIR"), d));
        },
        None => {},
    }
    env.push((to_owned_string("HARN_LSP_PATH"), to_owned_string("./harn-bin/harn")));
    env.push((to_owned_string("RUST_ANALYZER_PATH"), to_owned_string("./rust-analyzer")));
    assert(pair_views(env@) =~= shell + added_env(src));
    let mut manifest = to_owned_string(root_path);
    push_str(&mut manifest, "/crates/harn-lsp-proxy/Cargo.toml");
    let mut args: Vec<String> = Vec::new();
    args.push(to_owned_string("run"));
    args.push(to_owned_string("--quiet"));
    args.push(to_owned_string("--manifest-path"));
    args.push(manifest);
    assert(string_views(args@) =~= seq![
        "run"@,
        "--quiet"@,
        "--manifest-path"@,
        proxy_manifest(root_path@),
    ]);
    LaunchCommand { command: to_owned_string("cargo"), args, env }
}

// ---------------------------------------------------------------------------
// Finding the Harn sources
/// `Path::parent`, as text.
pub uninterp spec fn path_parent(p: Seq<char>) -> Option<Seq<char>>;

/// `Path::parent` on a path given as text.  Claimed: the result is
/// `path_parent(p)`, a fixed function of the text; which prefix it is, is not
/// stated.
#[verifier::external_body]
fn parent_of(p: &str) -> (r: Option<String>)
    ensures
        crate::rpc::opt_string_view(r) == path_parent(p@),
{
    match std::path::Path::new(p).parent() {
        Some(q) => Some(q.to_string_lossy().into_owned()),
        None => None,
    }
}

/// The file whose presence marks a directory as a Harn checkout.
pub open spec fn harness_marker(dir: Seq<char>) -> Seq<char> {
    joined(dir, "crates/harn-vm/src/harness.rs"@)
}

/// Where the Harn sources may be, in the order they are tried: the worktree
/// itself, then a `harn` directory beside it.
pub open spec fn src_dir_candidates(root: Seq<char>) -> Seq<Seq<char>> {
    candidates_beside(root, path_parent(root))
}

/// The worktree itself, then a `harn` directory in `parent`, when the
/// worktree has one.
pub open spec fn candidates_beside(root: Seq<char>, parent: Option<Seq<char>>) -> Seq<Seq<char>> {
    match parent {
        Some(p) => seq![root, joined(p, "harn"@)],
        None => seq![root],
    }
}

/// The directories that may hold the Harn sources, for the worktree at
/// `root` whose parent directory is `parent`.
pub fn candidates_from_parent(root: &str, parent: Option<String>) -> (r: Vec<String>)
    ensures
        string_views(r@) == candidates_beside(root@, crate::rpc::opt_string_view(parent)),
{
    let mut r: Vec<String> = Vec::new();
    r.push(to_owned_string(root));
    match parent {
        Some(p) => {
            r.push(join_path(p.as_str(), "harn"));
        },
        None => {},
    }
    assert(string_views(r@) =~= candidates_beside(root@, crate::rpc::opt_string_view(parent)));
    r
}

/// The directories that may hold the Harn sources, for the worktree at `root`.
pub fn harn_src_candidates(root: &str) -> (r: Vec<String>)
    ensures
        string_views(r@) == src_dir_candidates(root@),
{
    let parent = parent_of(root);
    assert(crate::rpc::opt_string_view(parent) == path_parent(root@));
    candidates_from_parent(root, parent)
}

/// The marker file of `dir` (see `harness_marker`).
pub fn harn_marker_path(dir: &str) -> (r: String)
    ensures
        r@ == harness_marker(dir@),
{
    join_path(dir, "crates/harn-vm/src/harness.rs")
}

/// The first candidate whose marker exists.
pub open spec fn first_marked(candidates: Seq<Seq<char>>, marked: Seq<bool>) -> Option<Seq<char>>
    decreases candidates.len(),
{
    if candidates.len() == 0 || marked.len() == 0 {
        None
    } else if marked[0] {
        Some(candidates[0])
    } else {
        first_marked(candidates.drop_first(), marked.drop_first())
    }
}

/// The Harn source directory: `HARN_SRC_DIR` when it is set (`env_dir`),
/// else the first candidate whose marker exists (`marked[i]` says whether
/// that of `candidates[i]` does).
pub fn pick_harn_src_dir(env_dir: Option<String>, candidates: Vec<String>, marked: Vec<bool>) -> (r:
    Option<String>)
    requires
        candidates@.len() == marked@.len(),
    ensures
        match env_dir {
            Some(d) => r matches Some(x) && x@ == d@,
            None => match first_marked(string_views(candidates@), marked@) {
                Some(c) => r matches Some(x) && x@ == c,
                None => r is None,
            },
        },
{
    if let Some(d) = env_dir {
        return Some(d);
    }
    let ghost all = string_views(candidates@);
    let mut i: usize = 0;
    assert(all.subrange(0, all.len() as int) =~= all);
    assert(marked@.subrange(0, marked@.len() as int) =~= marked@);
    while i < candidates.len()
        invariant
            env_dir is None,
            candidates@.len() == marked@.len(),
            all == string_views(candidates@),
            i <= candidates@.len(),
            first_marked(all, marked@) == first_marked(
                all.subrange(i as int, all.len() as int),
                marked@.subrange(i as int, marked@.len() as int),
            ),
        decreases candidates@.len() - i,
    {
        let ghost ca = all.subrange(i as int, all.len() as int);
        let ghost ma = marked@.subrange(i as int, marked@.len() as int);
        assert(ca.drop_first() =~= all.subrange(i + 1, all.len() as int));
        assert(ma.drop_first() =~= marked@.subrange(i + 1, marked@.len() as int));
        if marked[i] {
            return Some(candidates[i].clone());
        }
        i = i + 1;
    }
    None
}

/// The extension registered with the editor.
pub struct HarnLspExtension;

impl HarnLspExtension {
    /// The extension.
    pub fn new() -> Self {
        HarnLspExtension
    }
}

/// The binaries are downloaded for the host's own platform: on each
/// supported operating system and architecture, the Harn release and the
/// rust-analyzer release fetched are the builds for that very target triple.
pub proof fn law_downloads_for_the_host(os: Os, arch: Architecture, event: SetupEvent)
    ensures
        os == Os::Linux && arch == Architecture::X8664 ==> next_setup(SetupStage::HarnReport, os, arch, event).1
            == (ActionModel::Download {
                url: "https://github.com/burin-labs/harn/releases/latest/download/harn-x86_64-unknown-linux-gnu.tar.gz"@,
                dest: "harn-bin"@,
                kind: FileKind::GzipTar,
            }),
        os == Os::Linux && arch == Architecture::X8664 ==> next_setup(SetupStage::AnalyzerReport, os, arch, event).1
            == (ActionModel::Download {
                url: "https://github.com/rust-lang/rust-analyzer/releases/latest/download/rust-analyzer-x86_64-unknown-linux-gnu.gz"@,
                dest: "rust-analyzer"@,
                kind: FileKind::Gzip,
            }),
        os == Os::Linux && arch == Architecture::Aarch64 ==> next_setup(SetupStage::HarnReport, os, arch, event).1
            == (ActionModel::Download {
                url: "https://github.com/burin-labs/harn/releases/latest/download/harn-aarch64-unknown-linux-gnu.tar.gz"@,
                dest: "harn-bin"@,
                kind: FileKind::GzipTar,
            }),
        os == Os::Linux && arch == Architecture::Aarch64 ==> next_setup(SetupStage::AnalyzerReport, os, arch, event).1
            == (ActionModel::Download {
                url: "https://github.com/rust-lang/rust-analyzer/releases/latest/download/rust-analyzer-aarch64-unknown-linux-gnu.gz"@,
                dest: "rust-analyzer"@,
                kind: FileKind::Gzip,
            }),
        os == Os::Mac && arch == Architecture::X8664 ==> next_setup(SetupStage::HarnReport, os, arch, event).1
            == (ActionModel::Download {
                url: "https://github.com/burin-labs/harn/releases/latest/download/harn-x86_64-apple-darwin.tar.gz"@,
                dest: "harn-bin"@,
                kind: FileKind::GzipTar,
            }),
        os == Os::Mac && arch == Architecture::X8664 ==> next_setup(SetupStage::AnalyzerReport, os, arch, event).1
            == (ActionModel::Download {
                url: "https://github.com/rust-lang/rust-analyzer/releases/latest/download/rust-analyzer-x86_64-apple-darwin.gz"@,
                dest: "rust-analyzer"@,
                kind: FileKind::Gzip,
            }),
        os == Os::Mac && arch == Architecture::Aarch64 ==> next_setup(SetupStage::HarnReport, os, arch, event).1
            == (ActionModel::Download {
                url: "https://github.com/burin-labs/harn/releases/latest/download/harn-aarch64-apple-darwin.tar.gz"@,
                dest: "harn-bin"@,
                kind: FileKind::GzipTar,
            }),
        os == Os::Mac && arch == Architecture::Aarch64 ==> next_setup(SetupStage::AnalyzerReport, os, arch, event).1
            == (ActionModel::Download {
                url: "https://github.com/rust-lang/rust-analyzer/releases/latest/download/rust-analyzer-aarch64-apple-darwin.gz"@,
                dest: "rust-analyzer"@,
                kind: FileKind::Gzip,
            }),
{
    reveal_strlit(".gz");
    reveal_strlit(".tar.gz");
    reveal_strlit("aarch64-apple-darwin");
    reveal_strlit("aarch64-unknown-linux-gnu");
    reveal_strlit("harn-bin");
    reveal_strlit("https://github.com/burin-labs/harn/releases/latest/download/harn-");
    reveal_strlit("https://github.com/burin-labs/harn/releases/latest/download/harn-aarch64-apple-darwin.tar.gz");
    reveal_strlit("https://github.com/burin-labs/harn/releases/latest/download/harn-aarch64-unknown-linux-gnu.tar.gz");
    reveal_strlit("https://github.com/burin-labs/harn/releases/latest/download/harn-x86_64-apple-darwin.tar.gz");
    reveal_strlit("https://github.com/burin-labs/harn/releases/latest/download/harn-x86_64-unknown-linux-gnu.tar.gz");
    reveal_strlit("https://github.com/rust-lang/rust-analyzer/releases/latest/download/rust-analyzer-");
    reveal_strlit("https://github.com/rust-lang/rust-analyzer/releases/latest/download/rust-analyzer-aarch64-apple-darwin.gz");
    reveal_strlit("https://github.com/rust-lang/rust-analyzer/releases/latest/download/rust-analyzer-aarch64-unknown-linux-gnu.gz");
    reveal_strlit("https://github.com/rust-lang/rust-analyzer/releases/latest/download/rust-analyzer-x86_64-apple-darwin.gz");
    reveal_strlit("https://github.com/rust-lang/rust-analyzer/releases/latest/download/rust-analyzer-x86_64-unknown-linux-gnu.gz");
    reveal_strlit("rust-analyzer");
    reveal_strlit("x86_64-apple-darwin");
    reveal_strlit("x86_64-unknown-linux-gnu");
    assert("https://github.com/burin-labs/harn/releases/latest/download/harn-x86_64-unknown-linux-gnu.tar.gz"@ =~= "https://github.com/burin-labs/harn/releases/latest/download/harn-"@ + "x86_64-unknown-linux-gnu"@ + ".tar.gz"@);
    assert("https://github.com/rust-lang/rust-analyzer/releases/latest/download/rust-analyzer-x86_64-unknown-linux-gnu.gz"@ =~= "https://github.com/rust-lang/rust-analyzer/releases/latest/download/rust-analyzer-"@ + "x86_64-unknown-linux-gnu"@ + ".gz"@);
    assert("https://github.com/burin-labs/harn/releases/latest/download/harn-aarch64-unknown-linux-gnu.tar.gz"@ =~= "https://github.com/burin-labs/harn/releases/latest/download/harn-"@ + "aarch64-unknown-linux-gnu"@ + ".tar.gz"@);
    assert("https://github.com/rust-lang/rust-analyzer/releases/latest/download/rust-analyzer-aarch64-unknown-linux-gnu.gz"@ =~= "https://github.com/rust-lang/rust-analyzer/releases/latest/download/rust-analyzer-"@ + "aarch64-unknown-linux-gnu"@ + ".gz"@);
    assert("https://github.com/burin-labs/harn/releases/latest/download/harn-x86_64-apple-darwin.tar.gz"@ =~= "https://github.com/burin-labs/harn/releases/latest/download/harn-"@ + "x86_64-apple-darwin"@ + ".tar.gz"@);
    assert("https://github.com/rust-lang/rust-analyzer/releases/latest/download/rust-analyzer-x86_64-apple-darwin.gz"@ =~= "https://github.com/rust-lang/rust-analyzer/releases/latest/download/rust-analyzer-"@ + "x86_64-apple-darwin"@ + ".gz"@);
    assert("https://github.com/burin-labs/harn/releases/latest/download/harn-aarch64-apple-darwin.tar.gz"@ =~= "https://github.com/burin-labs/harn/releases/latest/download/harn-"@ + "aarch64-apple-darwin"@ + ".tar.gz"@);
    assert("https://github.com/rust-lang/rust-analyzer/releases/latest/download/rust-analyzer-aarch64-apple-darwin.gz"@ =~= "https://github.com/rust-lang/rust-analyzer/releases/latest/download/rust-analyzer-"@ + "aarch64-apple-darwin"@ + ".gz"@);
}

} // verus!
