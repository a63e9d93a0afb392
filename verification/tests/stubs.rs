use harn_builtin_meta::CapabilityId;
use zed_harnlang::stubs::{
    all_capabilities, checked_harness_stubs, generate_harness_stubs, harness_stubs_text,
    rust_source_file, Capability,
};

/// The nominal handle types of `CapabilityId::ALL`, in order.
const HANDLE_TYPES: [&str; 46] = ["HarnessStdio", "HarnessTerm", "HarnessClock", "HarnessFs", "HarnessEnv", "HarnessRandom", "HarnessNet", "HarnessProcess", "HarnessChannels", "HarnessSystem", "HarnessSecrets", "HarnessLlm", "HarnessAgent", "HarnessTenant", "HarnessAuth", "HarnessObs", "HarnessVerdict", "HarnessTools", "HarnessAst", "HarnessCodeIndex", "HarnessComputer", "HarnessEmbed", "HarnessMemory", "HarnessSqlite", "HarnessPostgres", "HarnessFsWatch", "HarnessHostLease", "HarnessScanner", "HarnessSecretStore", "HarnessTerminalSession", "HarnessRules", "HarnessLint", "HarnessRuntime", "HarnessInteraction", "HarnessProject", "HarnessDashboard", "HarnessWorkspace", "HarnessMergeCaptain", "HarnessSession", "HarnessPermission", "HarnessText", "HarnessLsp", "HarnessCredentials", "HarnessPrMonitor", "HarnessWorkflow", "HarnessTesting"];

fn handle_types() -> Vec<String> {
    HANDLE_TYPES.iter().map(|t| t.to_string()).collect()
}

#[test]
fn capabilities_follow_the_builtin_order() {
    let ours = all_capabilities();
    assert_eq!(ours.len(), CapabilityId::ALL.len());
    for (mine, theirs) in ours.iter().zip(CapabilityId::ALL.iter()) {
        assert_eq!(format!("{mine:?}"), theirs.variant_name());
    }
}

#[test]
fn source_files_of_some_capabilities() {
    assert_eq!(rust_source_file(Capability::Stdio), "crates/harn-vm/src/stdlib/io.rs");
    assert_eq!(rust_source_file(Capability::Llm), "crates/harn-vm/src/llm/");
    assert_eq!(rust_source_file(Capability::Testing), "crates/harn-vm/src/stdlib/testing.rs");
}

#[test]
fn stubs_link_every_handle_to_its_source() {
    let text = checked_harness_stubs("/repo/harn//", &handle_types()).unwrap();
    assert_eq!(text, generate_harness_stubs("/repo/harn//", &handle_types()));
    assert!(text.starts_with(
        "/**\n * Root capability handle threaded into `fn main(harness: Harness)`.\n *\n * Rust source: [crates/harn-vm/src/harness.rs](file:///repo/harn/crates/harn-vm/src/harness.rs)\n */\npub struct Harness {\n"
    ));
    assert!(text.contains(
        "  /** Rust source: [crates/harn-vm/src/stdlib/io.rs](file:///repo/harn/crates/harn-vm/src/stdlib/io.rs) */\n  stdio: HarnessStdio,\n"
    ));
    assert!(text.contains(
        "/**\n * `HarnessStdio` capability handle (`harness.stdio`, `Stdio`).\n *\n * Rust source: [crates/harn-vm/src/stdlib/io.rs](file:///repo/harn/crates/harn-vm/src/stdlib/io.rs)\n */\npub struct HarnessStdio {}\n\n"
    ));
    assert_eq!(text.matches("pub struct ").count(), 47);
    assert_eq!(text.matches("  /** Rust source:").count(), 46);
    assert!(text.ends_with("pub struct HarnessTesting {}\n\n"));
}

#[test]
fn stubs_use_the_given_names() {
    let fields: Vec<String> = (0..46).map(|i| format!("f{i}")).collect();
    let variants: Vec<String> = (0..46).map(|i| format!("V{i}")).collect();
    let types: Vec<String> = (0..46).map(|i| format!("T{i}")).collect();
    let text = harness_stubs_text("/r", &fields, &variants, &types);
    assert!(text.contains(
        "  /** Rust source: [crates/harn-vm/src/stdlib/io.rs](file:///r/crates/harn-vm/src/stdlib/io.rs) */\n  f0: T0,\n"
    ));
    assert!(text.contains(
        "/**\n * `T45` capability handle (`harness.f45`, `V45`).\n *\n * Rust source: [crates/harn-vm/src/stdlib/testing.rs](file:///r/crates/harn-vm/src/stdlib/testing.rs)\n */\npub struct T45 {}\n\n"
    ));
    assert_eq!(checked_harness_stubs("/r", &types), None);
    assert_eq!(checked_harness_stubs("/r", &handle_types()[..45]), None);
    let builtin = checked_harness_stubs("/r", &handle_types()).unwrap();
    assert!(builtin.contains("  stdio: HarnessStdio,\n"));
    assert!(builtin.contains("`HarnessObs` capability handle (`harness.obs`, `Observability`)"));
}

#[test]
fn trailing_slashes_never_change_the_stubs() {
    let plain = generate_harness_stubs("/repo/harn", &handle_types());
    for k in 0..4 {
        let root = format!("/repo/harn{}", "/".repeat(k));
        assert_eq!(generate_harness_stubs(&root, &handle_types()), plain);
    }
    assert!(plain.contains("file:///repo/harn/crates/harn-vm/src/harness.rs"));
}
