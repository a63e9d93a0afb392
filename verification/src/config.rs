//! The language servers that the proxy runs, and where each comes from.
use vstd::prelude::*;

verus! {

/// One language server: the command that starts it and its source repository.
pub struct Config<'a> {
    pub cmd: &'a str,
    pub repo: &'a str,
}

/// The two servers behind the proxy: Harn's own, then rust-analyzer.
pub fn servers() -> (r: [Config<'static>; 2])
    ensures
        r@[0].cmd@ == "harn-lsp"@,
        r@[0].repo@ == "https://github.com/burin-labs/harn"@,
        r@[1].cmd@ == "rust-analyzer"@,
        r@[1].repo@ == "https://github.com/rust-lang/rust-analyzer"@,
{
    [
        Config { cmd: "harn-lsp", repo: "https://github.com/burin-labs/harn" },
        Config { cmd: "rust-analyzer", repo: "https://github.com/rust-lang/rust-analyzer" },
    ]
}

} // verus!
