use zed_harnlang::extension::{
    candidates_from_parent, harn_marker_path, harn_src_candidates, launch_command, pick_harn_src_dir, release_target,
    unsupported_platform, Architecture, FileKind, Os, Setup, SetupAction, SetupEvent, SetupStage,
};

#[test]
fn release_targets() {
    assert_eq!(release_target(Os::Mac, Architecture::Aarch64), Some("aarch64-apple-darwin"));
    assert_eq!(release_target(Os::Mac, Architecture::X8664), Some("x86_64-apple-darwin"));
    assert_eq!(release_target(Os::Linux, Architecture::X8664), Some("x86_64-unknown-linux-gnu"));
    assert_eq!(release_target(Os::Linux, Architecture::Aarch64), Some("aarch64-unknown-linux-gnu"));
    assert_eq!(release_target(Os::Windows, Architecture::X8664), None);
    assert_eq!(release_target(Os::Linux, Architecture::X86), None);
}

#[test]
fn unsupported_platform_error() {
    assert_eq!(
        unsupported_platform("harn-lsp", Os::Windows, Architecture::X8664),
        "Unsupported platform for harn-lsp: Os::Windows Architecture::X8664"
    );
    let (state, action) = Setup::start(Os::Linux, Architecture::X86);
    assert_eq!(state.stage, SetupStage::Finished);
    match action {
        SetupAction::Fail(m) => {
            assert_eq!(m, "Unsupported platform for harn-lsp: Os::Linux Architecture::X86")
        }
        other => panic!("unexpected {other:?}"),
    }
}

#[test]
fn setup_downloads_what_is_missing() {
    let (s, a) = Setup::start(Os::Mac, Architecture::Aarch64);
    assert!(matches!(a, SetupAction::CheckFile(ref p) if p == "harn-bin/harn"));
    let (s, a) = s.step(SetupEvent::Checked(false));
    assert!(matches!(a, SetupAction::ReportDownloading));
    let (s, a) = s.step(SetupEvent::Done);
    match a {
        SetupAction::Download { url, dest, kind } => {
            assert_eq!(url, "https://github.com/burin-labs/harn/releases/latest/download/harn-aarch64-apple-darwin.tar.gz");
            assert_eq!(dest, "harn-bin");
            assert_eq!(kind, FileKind::GzipTar);
        }
        other => panic!("unexpected {other:?}"),
    }
    let (s, a) = s.step(SetupEvent::Done);
    assert!(matches!(a, SetupAction::MakeExecutable(ref p) if p == "harn-bin/harn"));
    let (s, a) = s.step(SetupEvent::Done);
    assert!(matches!(a, SetupAction::CheckFile(ref p) if p == "rust-analyzer"));
    let (s, a) = s.step(SetupEvent::Checked(false));
    assert!(matches!(a, SetupAction::ReportDownloading));
    let (s, a) = s.step(SetupEvent::Done);
    match a {
        SetupAction::Download { url, dest, kind } => {
            assert_eq!(url, "https://github.com/rust-lang/rust-analyzer/releases/latest/download/rust-analyzer-aarch64-apple-darwin.gz");
            assert_eq!(dest, "rust-analyzer");
            assert_eq!(kind, FileKind::Gzip);
        }
        other => panic!("unexpected {other:?}"),
    }
    let (s, a) = s.step(SetupEvent::Done);
    assert!(matches!(a, SetupAction::MakeExecutable(ref p) if p == "rust-analyzer"));
    let (s, a) = s.step(SetupEvent::Done);
    assert!(matches!(a, SetupAction::ReportReady));
    let (s, a) = s.step(SetupEvent::Done);
    assert!(matches!(a, SetupAction::Launch));
    assert_eq!(s.stage, SetupStage::Finished);
}

#[test]
fn setup_skips_present_binaries_and_reports_failures() {
    let (s, _) = Setup::start(Os::Linux, Architecture::X8664);
    let (s, a) = s.step(SetupEvent::Checked(true));
    assert!(matches!(a, SetupAction::CheckFile(ref p) if p == "rust-analyzer"));
    let (s, a) = s.step(SetupEvent::Checked(true));
    assert!(matches!(a, SetupAction::ReportReady));
    let (_, a) = s.step(SetupEvent::Done);
    assert!(matches!(a, SetupAction::Launch));

    let (s, _) = Setup::start(Os::Linux, Architecture::X8664);
    let (s, _) = s.step(SetupEvent::Checked(false));
    let (s, _) = s.step(SetupEvent::Done);
    let (s, a) = s.step(SetupEvent::Failed("network down".to_string()));
    assert_eq!(s.stage, SetupStage::Finished);
    assert!(matches!(a, SetupAction::Fail(ref m) if m == "Failed to download harn: network down"));

    let (s, _) = Setup::start(Os::Linux, Architecture::Aarch64);
    let (s, _) = s.step(SetupEvent::Checked(true));
    let (s, _) = s.step(SetupEvent::Checked(false));
    let (s, _) = s.step(SetupEvent::Done);
    let (s, _) = s.step(SetupEvent::Done);
    let (_, a) = s.step(SetupEvent::Failed("denied".to_string()));
    assert!(matches!(a, SetupAction::Fail(ref m) if m == "Failed to make rust-analyzer executable: denied"));
}

#[test]
fn launch_command_runs_the_proxy_through_cargo() {
    let shell = vec![("PATH".to_string(), "/bin".to_string())];
    let cmd = launch_command("/work/zed-harnlang", shell, Some("/work/harn".to_string()));
    assert_eq!(cmd.command, "cargo");
    assert_eq!(
        cmd.args,
        vec!["run", "--quiet", "--manifest-path", "/work/zed-harnlang/crates/harn-lsp-proxy/Cargo.toml"]
    );
    assert_eq!(
        cmd.env,
        vec![
            ("PATH".to_string(), "/bin".to_string()),
            ("HARN_SRC_DIR".to_string(), "/work/harn".to_string()),
            ("HARN_LSP_PATH".to_string(), "./harn-bin/harn".to_string()),
            ("RUST_ANALYZER_PATH".to_string(), "./rust-analyzer".to_string()),
        ]
    );
    let bare = launch_command("/w", Vec::new(), None);
    assert_eq!(bare.env.len(), 2);
}

#[test]
fn harn_sources_are_found_in_priority_order() {
    let candidates = harn_src_candidates("/work/zed-harnlang");
    assert_eq!(candidates, vec!["/work/zed-harnlang".to_string(), "/work/harn".to_string()]);
    assert_eq!(harn_src_candidates("/"), vec!["/".to_string()]);
    assert_eq!(
        harn_marker_path("/work/harn"),
        "/work/harn/crates/harn-vm/src/harness.rs"
    );
    assert_eq!(
        pick_harn_src_dir(Some("/env".to_string()), candidates.clone(), vec![true, true]),
        Some("/env".to_string())
    );
    assert_eq!(
        pick_harn_src_dir(None, candidates.clone(), vec![false, true]),
        Some("/work/harn".to_string())
    );
    assert_eq!(
        pick_harn_src_dir(None, candidates.clone(), vec![true, true]),
        Some("/work/zed-harnlang".to_string())
    );
    assert_eq!(pick_harn_src_dir(None, candidates, vec![false, false]), None);
}

#[test]
fn candidates_beside_the_worktree() {
    assert_eq!(
        candidates_from_parent("/w/proj", Some("/w/".to_string())),
        vec!["/w/proj".to_string(), "/w/harn".to_string()]
    );
    assert_eq!(candidates_from_parent("proj", Some(String::new())), vec!["proj".to_string(), "harn".to_string()]);
    assert_eq!(candidates_from_parent("/", None), vec!["/".to_string()]);
    assert_eq!(harn_src_candidates("proj"), vec!["proj".to_string(), "harn".to_string()]);
}
