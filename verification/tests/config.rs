use zed_harnlang::config::servers;

#[test]
fn servers_are_harn_then_rust_analyzer() {
    let s = servers();
    assert_eq!(s.len(), 2);
    assert_eq!(s[0].cmd, "harn-lsp");
    assert_eq!(s[0].repo, "https://github.com/burin-labs/harn");
    assert_eq!(s[1].cmd, "rust-analyzer");
    assert_eq!(s[1].repo, "https://github.com/rust-lang/rust-analyzer");
}
