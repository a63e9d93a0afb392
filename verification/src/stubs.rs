//! The Rust-side stub declarations of Harn's `Harness` capability handles,
//! with links from each handle to the Rust source that implements it.
use vstd::prelude::*;
use crate::strings::{chars_of, push_char, push_str, string_views, to_owned_string};

verus! {

broadcast use vstd::string::group_string_axioms;

/// A capability handle of `Harness`, in the order of
/// `harn_builtin_meta::CapabilityId::ALL`.
#[derive(Debug, Clone, Copy, PartialEq, Eq)]
pub enum Capability {
    Stdio,
    Term,
    Clock,
    Fs,
    Env,
    Random,
    Net,
    Process,
    Channels,
    System,
    Secrets,
    Llm,
    Agent,
    Tenant,
    Auth,
    Observability,
    Verdict,
    Tools,
    Ast,
    CodeIndex,
    Computer,
    Embed,
    Memory,
    Sqlite,
    Postgres,
    FsWatch,
    HostLease,
    Scanner,
    SecretStore,
    TerminalSession,
    Rules,
    Lint,
    Runtime,
    Interaction,
    Project,
    Dashboard,
    Workspace,
    MergeCaptain,
    Session,
    Permission,
    Text,
    Lsp,
    Credentials,
    PrMonitor,
    Workflow,
    Testing,
}

/// Every capability, in the order of `CapabilityId::ALL`.
pub open spec fn capability_list() -> Seq<Capability> {
    seq![
        Capability::Stdio,
        Capability::Term,
        Capability::Clock,
        Capability::Fs,
        Capability::Env,
        Capability::Random,
        Capability::Net,
        Capability::Process,
        Capability::Channels,
        Capability::System,
        Capability::Secrets,
        Capability::Llm,
        Capability::Agent,
        Capability::Tenant,
        Capability::Auth,
        Capability::Observability,
        Capability::Verdict,
        Capability::Tools,
        Capability::Ast,
        Capability::CodeIndex,
        Capability::Computer,
        Capability::Embed,
        Capability::Memory,
        Capability::Sqlite,
        Capability::Postgres,
        Capability::FsWatch,
        Capability::HostLease,
        Capability::Scanner,
        Capability::SecretStore,
        Capability::TerminalSession,
        Capability::Rules,
        Capability::Lint,
        Capability::Runtime,
        Capability::Interaction,
        Capability::Project,
        Capability::Dashboard,
        Capability::Workspace,
        Capability::MergeCaptain,
        Capability::Session,
        Capability::Permission,
        Capability::Text,
        Capability::Lsp,
        Capability::Credentials,
        Capability::PrMonitor,
        Capability::Workflow,
        Capability::Testing,
    ]
}

/// The number of capabilities.
pub open spec fn capability_count() -> nat {
    46
}

/// Every capability, in the order of `CapabilityId::ALL`.
pub fn all_capabilities() -> (r: Vec<Capability>)
    ensures
        r@ == capability_list(),
{
    let mut v: Vec<Capability> = Vec::new();
    v.push(Capability::Stdio);
    v.push(Capability::Term);
    v.push(Capability::Clock);
    v.push(Capability::Fs);
    v.push(Capability::Env);
    v.push(Capability::Random);
    v.push(Capability::Net);
    v.push(Capability::Process);
    v.push(Capability::Channels);
    v.push(Capability::System);
    v.push(Capability::Secrets);
    v.push(Capability::Llm);
    v.push(Capability::Agent);
    v.push(Capability::Tenant);
    v.push(Capability::Auth);
    v.push(Capability::Observability);
    v.push(Capability::Verdict);
    v.push(Capability::Tools);
    v.push(Capability::Ast);
    v.push(Capability::CodeIndex);
    v.push(Capability::Computer);
    v.push(Capability::Embed);
    v.push(Capability::Memory);
    v.push(Capability::Sqlite);
    v.push(Capability::Postgres);
    v.push(Capability::FsWatch);
    v.push(Capability::HostLease);
    v.push(Capability::Scanner);
    v.push(Capability::SecretStore);
    v.push(Capability::TerminalSession);
    v.push(Capability::Rules);
    v.push(Capability::Lint);
    v.push(Capability::Runtime);
    v.push(Capability::Interaction);
    v.push(Capability::Project);
    v.push(Capability::Dashboard);
    v.push(Capability::Workspace);
    v.push(Capability::MergeCaptain);
    v.push(Capability::Session);
    v.push(Capability::Permission);
    v.push(Capability::Text);
    v.push(Capability::Lsp);
    v.push(Capability::Credentials);
    v.push(Capability::PrMonitor);
    v.push(Capability::Workflow);
    v.push(Capability::Testing);
    assert(v@ =~= capability_list());
    v
}

/// The file (or directory) of the Harn repository that implements `cap`.
pub open spec fn rust_source_path(cap: Capability) -> Seq<char> {
    match cap {
        Capability::Stdio => "crates/harn-vm/src/stdlib/io.rs"@,
        Capability::Term => "crates/harn-vm/src/term.rs"@,
        Capability::Clock => "crates/harn-vm/src/stdlib/clock.rs"@,
        Capability::Fs => "crates/harn-vm/src/stdlib/fs.rs"@,
        Capability::Env => "crates/harn-vm/src/stdlib/process.rs"@,
        Capability::Random => "crates/harn-vm/src/stdlib/crypto.rs"@,
        Capability::Net => "crates/harn-vm/src/harness_net.rs"@,
        Capability::Process => "crates/harn-vm/src/stdlib/process.rs"@,
        Capability::Channels => "crates/harn-vm/src/stdlib/channels.rs"@,
        Capability::System => "crates/harn-vm/src/harness_system.rs"@,
        Capability::Secrets => "crates/harn-vm/src/stdlib/secret_scan.rs"@,
        Capability::Llm => "crates/harn-vm/src/llm/"@,
        Capability::Agent => "crates/harn-vm/src/stdlib/agents.rs"@,
        Capability::Tenant => "crates/harn-vm/src/harness_tenant.rs"@,
        Capability::Auth => "crates/harn-vm/src/harness_auth.rs"@,
        Capability::Observability => "crates/harn-vm/src/stdlib/observability.rs"@,
        Capability::Verdict => "crates/harn-vm/src/harness.rs"@,
        Capability::Tools => "crates/harn-vm/src/stdlib/tools.rs"@,
        Capability::Ast => "crates/harn-parser/src/lib.rs"@,
        Capability::CodeIndex => "crates/harn-vm/src/harness.rs"@,
        Capability::Computer => "crates/harn-vm/src/harness.rs"@,
        Capability::Embed => "crates/harn-cli/src/local_embed.rs"@,
        Capability::Memory => "crates/harn-vm/src/stdlib/memory.rs"@,
        Capability::Sqlite => "crates/harn-vm/src/stdlib/sqlite/mod.rs"@,
        Capability::Postgres => "crates/harn-vm/src/stdlib/postgres/mod.rs"@,
        Capability::FsWatch => "crates/harn-vm/src/stdlib/files.rs"@,
        Capability::HostLease => "crates/harn-vm/src/stdlib/host.rs"@,
        Capability::Scanner => "crates/harn-vm/src/stdlib/secret_scan.rs"@,
        Capability::SecretStore => "crates/harn-vm/src/stdlib/secret_scan.rs"@,
        Capability::TerminalSession => "crates/harn-vm/src/term.rs"@,
        Capability::Rules => "crates/harn-rules/src/lib.rs"@,
        Capability::Lint => "crates/harn-lint/src/lib.rs"@,
        Capability::Runtime => "crates/harn-vm/src/harness.rs"@,
        Capability::Interaction => "crates/harn-vm/src/stdlib/hitl.rs"@,
        Capability::Project => "crates/harn-vm/src/stdlib/project_enrich.rs"@,
        Capability::Dashboard => "crates/harn-vm/src/harness.rs"@,
        Capability::Workspace => "crates/harn-vm/src/workspace_anchor.rs"@,
        Capability::MergeCaptain => "crates/harn-vm/src/harness.rs"@,
        Capability::Session => "crates/harn-vm/src/stdlib/agent_sessions.rs"@,
        Capability::Permission => "crates/harn-vm/src/harness.rs"@,
        Capability::Text => "crates/harn-vm/src/text_diff.rs"@,
        Capability::Lsp => "crates/harn-lsp/src/lib.rs"@,
        Capability::Credentials => "crates/harn-vm/src/harness_auth.rs"@,
        Capability::PrMonitor => "crates/harn-vm/src/harness.rs"@,
        Capability::Workflow => "crates/harn-vm/src/orchestration/workflow.rs"@,
        Capability::Testing => "crates/harn-vm/src/stdlib/testing.rs"@,
    }
}

/// The file (or directory) of the Harn repository that implements `cap`.
pub fn rust_source_file(cap: Capability) -> (r: &'static str)
    ensures
        r@ == rust_source_path(cap),
{
    match cap {
        Capability::Stdio => "crates/harn-vm/src/stdlib/io.rs",
        Capability::Term => "crates/harn-vm/src/term.rs",
        Capability::Clock => "crates/harn-vm/src/stdlib/clock.rs",
        Capability::Fs => "crates/harn-vm/src/stdlib/fs.rs",
        Capability::Env => "crates/harn-vm/src/stdlib/process.rs",
        Capability::Random => "crates/harn-vm/src/stdlib/crypto.rs",
        Capability::Net => "crates/harn-vm/src/harness_net.rs",
        Capability::Process => "crates/harn-vm/src/stdlib/process.rs",
        Capability::Channels => "crates/harn-vm/src/stdlib/channels.rs",
        Capability::System => "crates/harn-vm/src/harness_system.rs",
        Capability::Secrets => "crates/harn-vm/src/stdlib/secret_scan.rs",
        Capability::Llm => "crates/harn-vm/src/llm/",
        Capability::Agent => "crates/harn-vm/src/stdlib/agents.rs",
        Capability::Tenant => "crates/harn-vm/src/harness_tenant.rs",
        Capability::Auth => "crates/harn-vm/src/harness_auth.rs",
        Capability::Observability => "crates/harn-vm/src/stdlib/observability.rs",
        Capability::Verdict => "crates/harn-vm/src/harness.rs",
        Capability::Tools => "crates/harn-vm/src/stdlib/tools.rs",
        Capability::Ast => "crates/harn-parser/src/lib.rs",
        Capability::CodeIndex => "crates/harn-vm/src/harness.rs",
        Capability::Computer => "crates/harn-vm/src/harness.rs",
        Capability::Embed => "crates/harn-cli/src/local_embed.rs",
        Capability::Memory => "crates/harn-vm/src/stdlib/memory.rs",
        Capability::Sqlite => "crates/harn-vm/src/stdlib/sqlite/mod.rs",
        Capability::Postgres => "crates/harn-vm/src/stdlib/postgres/mod.rs",
        Capability::FsWatch => "crates/harn-vm/src/stdlib/files.rs",
        Capability::HostLease => "crates/harn-vm/src/stdlib/host.rs",
        Capability::Scanner => "crates/harn-vm/src/stdlib/secret_scan.rs",
        Capability::SecretStore => "crates/harn-vm/src/stdlib/secret_scan.rs",
        Capability::TerminalSession => "crates/harn-vm/src/term.rs",
        Capability::Rules => "crates/harn-rules/src/lib.rs",
        Capability::Lint => "crates/harn-lint/src/lib.rs",
        Capability::Runtime => "crates/harn-vm/src/harness.rs",
        Capability::Interaction => "crates/harn-vm/src/stdlib/hitl.rs",
        Capability::Project => "crates/harn-vm/src/stdlib/project_enrich.rs",
        Capability::Dashboard => "crates/harn-vm/src/harness.rs",
        Capability::Workspace => "crates/harn-vm/src/workspace_anchor.rs",
        Capability::MergeCaptain => "crates/harn-vm/src/harness.rs",
        Capability::Session => "crates/harn-vm/src/stdlib/agent_sessions.rs",
        Capability::Permission => "crates/harn-vm/src/harness.rs",
        Capability::Text => "crates/harn-vm/src/text_diff.rs",
        Capability::Lsp => "crates/harn-lsp/src/lib.rs",
        Capability::Credentials => "crates/harn-vm/src/harness_auth.rs",
        Capability::PrMonitor => "crates/harn-vm/src/harness.rs",
        Capability::Workflow => "crates/harn-vm/src/orchestration/workflow.rs",
        Capability::Testing => "crates/harn-vm/src/stdlib/testing.rs",
    }
}

// ---------------------------------------------------------------------------
// Names from `harn_builtin_meta`
/// `CapabilityId::variant_name` of `CapabilityId::ALL[index]`.
pub uninterp spec fn capability_variant_name(index: usize) -> Seq<char>;

/// `CapabilityId::field_name` of `CapabilityId::ALL[index]`.
pub uninterp spec fn capability_field_name(index: usize) -> Seq<char>;

/// `CapabilityId::variant_name` of the capability at `index` of
/// `CapabilityId::ALL` (a slice of 46 entries in the crate's source).
/// Claimed: the result is `capability_variant_name(index)`, a fixed function
/// of the index; what the names are is not stated.
#[verifier::external_body]
fn variant_name_at(index: usize) -> (r: &'static str)
    requires
        index < 46,
    ensures
        r@ == capability_variant_name(index),
{
    harn_builtin_meta::CapabilityId::ALL[index].variant_name()
}

/// `CapabilityId::field_name` of the capability at `index` of
/// `CapabilityId::ALL`.  Claimed: the result is
/// `capability_field_name(index)`, a fixed function of the index.
#[verifier::external_body]
fn field_name_at(index: usize) -> (r: &'static str)
    requires
        index < 46,
    ensures
        r@ == capability_field_name(index),
{
    harn_builtin_meta::CapabilityId::ALL[index].field_name()
}

/// `CapabilityId::type_name` of `CapabilityId::ALL[index]`: the nominal type
/// of that capability's handle.
pub uninterp spec fn capability_type_name(index: usize) -> Seq<char>;

/// `CapabilityId::from_type_name`, as the index in `CapabilityId::ALL` of the
/// capability found (its declaration order, which `ALL` follows).  Claimed:
/// the index found is one whose handle type is `name`, and none is found
/// when no capability's handle type is `name`; the crate's table gives every
/// capability a different handle type.
#[verifier::external_body]
fn capability_of_handle_type(name: &str) -> (r: Option<usize>)
    ensures
        match r {
            Some(i) => i < 46 && capability_type_name(i) == name@ && forall|k: usize|
                k < 46 && k != i ==> capability_type_name(k) != name@,
            None => forall|i: usize| i < 46 ==> capability_type_name(i) != name@,
        },
{
    match harn_builtin_meta::CapabilityId::from_type_name(name) {
        Some(c) => Some(c as usize),
        None => None,
    }
}

// ---------------------------------------------------------------------------
// The stub file
/// `str::trim_end_matches('/')`.
pub open spec fn trim_trailing_slashes(s: Seq<char>) -> Seq<char>
    decreases s.len(),
{
    if s.len() > 0 && s.last() == '/' {
        trim_trailing_slashes(s.drop_last())
    } else {
        s
    }
}

/// The documentation and opening line of the `Harness` struct.
pub open spec fn harness_header(root: Seq<char>) -> Seq<char> {
    "/**\n"@ + " * Root capability handle threaded into `fn main(harness: Harness)`.\n"@ + " *\n"@
        + " * Rust source: [crates/harn-vm/src/harness.rs](file://"@ + root
        + "/crates/harn-vm/src/harness.rs)\n"@ + " */\n"@ + "pub struct Harness {\n"@
}

/// The field of `Harness` for the capability at `i`, with its source link.
pub open spec fn field_entry(root: Seq<char>, names: StubNames, i: usize) -> Seq<char> {
    let rel = rust_source_path(capability_list()[i as int]);
    "  /** Rust source: ["@ + rel + "](file://"@ + root + "/"@ + rel + ") */\n  "@
        + names.fields[i as int] + ": "@ + names.handle_types[i as int] + ",\n"@
}

/// The fields for the first `n` capabilities.
pub open spec fn field_entries(root: Seq<char>, names: StubNames, n: nat) -> Seq<char>
    decreases n,
{
    if n == 0 {
        Seq::empty()
    } else {
        field_entries(root, names, (n - 1) as nat) + field_entry(root, names, (n - 1) as usize)
    }
}

/// The handle struct for the capability at `i`, with its documentation.
pub open spec fn handle_struct(root: Seq<char>, names: StubNames, i: usize) -> Seq<char> {
    let rel = rust_source_path(capability_list()[i as int]);
    "/**\n"@ + " * `"@ + names.handle_types[i as int] + "` capability handle (`harness."@
        + names.fields[i as int] + "`, `"@ + names.variants[i as int] + "`).\n"@ + " *\n"@
        + " * Rust source: ["@ + rel + "](file://"@ + root + "/"@ + rel + ")\n"@ + " */\n"@
        + "pub struct "@ + names.handle_types[i as int] + " {}\n\n"@
}

/// The handle structs for the first `n` capabilities.
pub open spec fn handle_structs(root: Seq<char>, names: StubNames, n: nat) -> Seq<char>
    decreases n,
{
    if n == 0 {
        Seq::empty()
    } else {
        handle_structs(root, names, (n - 1) as nat) + handle_struct(root, names, (n - 1) as usize)
    }
}

/// The names a stub file uses for each capability, indexed like
/// `CapabilityId::ALL`.
pub struct StubNames {
    /// The `harness.<field>` names.
    pub fields: Seq<Seq<char>>,
    /// The enum variant spellings.
    pub variants: Seq<Seq<char>>,
    /// The nominal handle types.
    pub handle_types: Seq<Seq<char>>,
}

/// The whole stub file for the repository at `repo_root`.
pub open spec fn harness_stubs(repo_root: Seq<char>, names: StubNames) -> Seq<char> {
    let root = trim_trailing_slashes(repo_root);
    harness_header(root) + field_entries(root, names, capability_count()) + "}\n\n"@
        + handle_structs(root, names, capability_count())
}

/// The field and variant names `harn_builtin_meta` gives the capabilities.
pub open spec fn builtin_names(handle_types: Seq<Seq<char>>) -> StubNames {
    StubNames {
        fields: Seq::new(capability_count(), |i: int| capability_field_name(i as usize)),
        variants: Seq::new(capability_count(), |i: int| capability_variant_name(i as usize)),
        handle_types,
    }
}

pub open spec fn stub_names(fields: Seq<String>, variants: Seq<String>, handle_types: Seq<String>) -> StubNames {
    StubNames {
        fields: string_views(fields),
        variants: string_views(variants),
        handle_types: string_views(handle_types),
    }
}

fn trimmed_root(repo_root: &str) -> (r: String)
    ensures
        r@ == trim_trailing_slashes(repo_root@),
{
    let cs = chars_of(repo_root);
    let mut n = cs.len();
    assert(cs@.subrange(0, n as int) =~= cs@);
    while n > 0 && cs[n - 1] == '/'
        invariant
            cs@ == repo_root@,
            n <= cs@.len(),
            trim_trailing_slashes(repo_root@) == trim_trailing_slashes(cs@.subrange(0, n as int)),
        decreases n,
    {
        assert(cs@.subrange(0, n as int).drop_last() =~= cs@.subrange(0, n - 1));
        n = n - 1;
    }
    assert(n > 0 ==> cs@.subrange(0, n as int).last() == cs@[n - 1]);
    let mut out = String::new();
    let mut i: usize = 0;
    while i < n
        invariant
            cs@ == repo_root@,
            i <= n <= cs@.len(),
            out@ == cs@.subrange(0, i as int),
        decreases n - i,
    {
        push_char(&mut out, cs[i]);
        i = i + 1;
        assert(out@ =~= cs@.subrange(0, i as int));
    }
    out
}

fn push_field_entry(
    out: &mut String,
    root: &str,
    fields: &[String],
    handle_types: &[String],
    i: usize,
    cap: Capability,
)
    requires
        i < 46,
        i < fields@.len(),
        i < handle_types@.len(),
        cap == capability_list()[i as int],
    ensures
        forall|variants: Seq<String>|
            final(out)@ == old(out)@ + field_entry(
                root@,
                #[trigger] stub_names(fields@, variants, handle_types@),
                i,
            ),
{
    let ghost start = out@;
    let rel = rust_source_file(cap);
    push_str(out, "  /** Rust source: [");
    push_str(out, rel);
    push_str(out, "](file://");
    push_str(out, root);
    push_str(out, "/");
    push_str(out, rel);
    push_str(out, ") */\n  ");
    push_str(out, fields[i].as_str());
    push_str(out, ": ");
    push_str(out, handle_types[i].as_str());
    push_str(out, ",\n");
    assert forall|variants: Seq<String>|
        out@ == start + field_entry(
            root@,
            #[trigger] stub_names(fields@, variants, handle_types@),
            i,
        ) by {
        assert(out@ =~= start + field_entry(root@, stub_names(fields@, variants, handle_types@), i));
    }
}

fn push_handle_struct(
    out: &mut String,
    root: &str,
    fields: &[String],
    variants: &[String],
    handle_types: &[String],
    i: usize,
    cap: Capability,
)
    requires
        i < 46,
        i < fields@.len(),
        i < variants@.len(),
        i < handle_types@.len(),
        cap == capability_list()[i as int],
    ensures
        final(out)@ == old(out)@ + handle_struct(
            root@,
            stub_names(fields@, variants@, handle_types@),
            i,
        ),
{
    let ghost start = out@;
    let rel = rust_source_file(cap);
    let handle_type = handle_types[i].as_str();
    push_str(out, "/**\n");
    push_str(out, " * `");
    push_str(out, handle_type);
    push_str(out, "` capability handle (`harness.");
    push_str(out, fields[i].as_str());
    push_str(out, "`, `");
    push_str(out, variants[i].as_str());
    push_str(out, "`).\n");
    push_str(out, " *\n");
    push_str(out, " * Rust source: [");
    push_str(out, rel);
    push_str(out, "](file://");
    push_str(out, root);
    push_str(out, "/");
    push_str(out, rel);
    push_str(out, ")\n");
    push_str(out, " */\n");
    push_str(out, "pub struct ");
    push_str(out, handle_type);
    push_str(out, " {}\n\n");
    assert(out@ =~= start + handle_struct(root@, stub_names(fields@, variants@, handle_types@), i));
}

/// The stub declarations of `Harness` and of every capability handle, each
/// linked to its Rust source under `repo_root` (trailing `/` removed), with
/// the given names for the capability at each index.
pub fn harness_stubs_text(
    repo_root: &str,
    fields: &[String],
    variants: &[String],
    handle_types: &[String],
) -> (r: String)
    requires
        fields@.len() == capability_count(),
        variants@.len() == capability_count(),
        handle_types@.len() == capability_count(),
    ensures
        r@ == harness_stubs(repo_root@, stub_names(fields@, variants@, handle_types@)),
{
    let ghost names = stub_names(fields@, variants@, handle_types@);
    let root_string = trimmed_root(repo_root);
    let root = root_string.as_str();
    let caps = all_capabilities();
    let mut out = String::new();
    push_str(&mut out, "/**\n");
    push_str(&mut out, " * Root capability handle threaded into `fn main(harness: Harness)`.\n");
    push_str(&mut out, " *\n");
    push_str(&mut out, " * Rust source: [crates/harn-vm/src/harness.rs](file://");
    push_str(&mut out, root);
    push_str(&mut out, "/crates/harn-vm/src/harness.rs)\n");
    push_str(&mut out, " */\n");
    push_str(&mut out, "pub struct Harness {\n");
    assert(out@ =~= harness_header(root@));
    let ghost head = out@;
    let mut i: usize = 0;
    while i < caps.len()
        invariant
            caps@ == capability_list(),
            root@ == trim_trailing_slashes(repo_root@),
            names == stub_names(fields@, variants@, handle_types@),
            fields@.len() == capability_count(),
            handle_types@.len() == capability_count(),
            i <= caps@.len(),
            out@ == head + field_entries(root@, names, i as nat),
        decreases caps@.len() - i,
    {
        push_field_entry(&mut out, root, fields, handle_types, i, caps[i]);
        assert(out@ == head + field_entries(root@, names, i as nat) + field_entry(root@, names, i));
        i = i + 1;
    }
    push_str(&mut out, "}\n\n");
    let ghost mid = out@;
    let mut j: usize = 0;
    while j < caps.len()
        invariant
            caps@ == capability_list(),
            root@ == trim_trailing_slashes(repo_root@),
            names == stub_names(fields@, variants@, handle_types@),
            fields@.len() == capability_count(),
            variants@.len() == capability_count(),
            handle_types@.len() == capability_count(),
            j <= caps@.len(),
            out@ == mid + handle_structs(root@, names, j as nat),
        decreases caps@.len() - j,
    {
        push_handle_struct(&mut out, root, fields, variants, handle_types, j, caps[j]);
        j = j + 1;
    }
    assert(out@ =~= harness_stubs(repo_root@, names));
    out
}

/// The field and variant names of every capability, from `harn_builtin_meta`.
fn builtin_name_lists() -> (r: (Vec<String>, Vec<String>))
    ensures
        r.0@.len() == capability_count(),
        r.1@.len() == capability_count(),
        string_views(r.0@) == builtin_names(Seq::empty()).fields,
        string_views(r.1@) == builtin_names(Seq::empty()).variants,
{
    let mut fields: Vec<String> = Vec::new();
    let mut variants: Vec<String> = Vec::new();
    let mut i: usize = 0;
    assert(string_views(fields@) =~= Seq::new(0, |k: int| capability_field_name(k as usize)));
    assert(string_views(variants@) =~= Seq::new(0, |k: int| capability_variant_name(k as usize)));
    while i < 46
        invariant
            i <= 46,
            fields@.len() == i,
            variants@.len() == i,
            string_views(fields@) == Seq::new(i as nat, |k: int| capability_field_name(k as usize)),
            string_views(variants@) == Seq::new(
                i as nat,
                |k: int| capability_variant_name(k as usize),
            ),
        decreases 46 - i,
    {
        let ghost fields0 = fields@;
        let ghost variants0 = variants@;
        let field = to_owned_string(field_name_at(i));
        let variant = to_owned_string(variant_name_at(i));
        fields.push(field);
        variants.push(variant);
        assert forall|k: int| 0 <= k < i + 1 implies #[trigger] string_views(fields@)[k]
            == capability_field_name(k as usize) by {
            if k < i {
                assert(fields@[k] == fields0[k]);
                assert(string_views(fields0)[k] == capability_field_name(k as usize));
            }
        }
        assert forall|k: int| 0 <= k < i + 1 implies #[trigger] string_views(variants@)[k]
            == capability_variant_name(k as usize) by {
            if k < i {
                assert(variants@[k] == variants0[k]);
                assert(string_views(variants0)[k] == capability_variant_name(k as usize));
            }
        }
        i = i + 1;
        assert(string_views(fields@) =~= Seq::new(
            i as nat,
            |k: int| capability_field_name(k as usize),
        ));
        assert(string_views(variants@) =~= Seq::new(
            i as nat,
            |k: int| capability_variant_name(k as usize),
        ));
    }
    (fields, variants)
}

/// The handle types that `harn_builtin_meta` gives the capabilities.
pub open spec fn builtin_handle_types() -> Seq<Seq<char>> {
    Seq::new(capability_count(), |i: int| capability_type_name(i as usize))
}

/// The stub file for the repository at `repo_root`, with the names that
/// `harn_builtin_meta` gives the capabilities; `handle_types` holds the
/// handle types of `CapabilityId::ALL`, in order.
pub fn generate_harness_stubs(repo_root: &str, handle_types: &[String]) -> (r: String)
    requires
        string_views(handle_types@) == builtin_handle_types(),
    ensures
        r@ == harness_stubs(repo_root@, builtin_names(builtin_handle_types())),
{
    let (fields, variants) = builtin_name_lists();
    assert(handle_types@.len() == string_views(handle_types@).len());
    let r = harness_stubs_text(repo_root, fields.as_slice(), variants.as_slice(), handle_types);
    assert(stub_names(fields@, variants@, handle_types@) == builtin_names(builtin_handle_types()));
    r
}

/// The stub file, when `handle_types` are the handle types of
/// `CapabilityId::ALL` in order (checked against `harn_builtin_meta`);
/// `None` otherwise.
pub fn checked_harness_stubs(repo_root: &str, handle_types: &[String]) -> (r: Option<String>)
    ensures
        match r {
            Some(t) => string_views(handle_types@) == builtin_handle_types() && t@ == harness_stubs(
                repo_root@,
                builtin_names(builtin_handle_types()),
            ),
            None => string_views(handle_types@) != builtin_handle_types(),
        },
{
    if handle_types.len() != 46 {
        assert(string_views(handle_types@).len() != builtin_handle_types().len());
        return None;
    }
    let mut i: usize = 0;
    while i < 46
        invariant
            handle_types@.len() == 46,
            i <= 46,
            forall|k: int| 0 <= k < i ==> #[trigger] handle_types@[k]@ == capability_type_name(k as usize),
        decreases 46 - i,
    {
        match capability_of_handle_type(handle_types[i].as_str()) {
            Some(j) => {
                if j != i {
                    assert(string_views(handle_types@)[i as int] != builtin_handle_types()[i as int]);
                    return None;
                }
            },
            None => {
                assert(string_views(handle_types@)[i as int] != builtin_handle_types()[i as int]);
                return None;
            },
        }
        i = i + 1;
    }
    assert(string_views(handle_types@) =~= builtin_handle_types());
    Some(generate_harness_stubs(repo_root, handle_types))
}

proof fn lemma_trim_appended_slashes(s: Seq<char>, k: nat)
    ensures
        trim_trailing_slashes(s + Seq::new(k, |i: int| '/')) == trim_trailing_slashes(s),
    decreases k,
{
    let t = s + Seq::new(k, |i: int| '/');
    if k == 0 {
        assert(t =~= s);
    } else {
        let k1 = (k - 1) as nat;
        assert(t.len() > 0 && t.last() == '/');
        assert(t.drop_last() =~= s + Seq::new(k1, |i: int| '/'));
        lemma_trim_appended_slashes(s, k1);
    }
}

proof fn lemma_trim_twice(s: Seq<char>)
    ensures
        trim_trailing_slashes(trim_trailing_slashes(s)) == trim_trailing_slashes(s),
    decreases s.len(),
{
    if s.len() > 0 && s.last() == '/' {
        lemma_trim_twice(s.drop_last());
    }
}

/// Trailing `/` characters on the repository root never change the stub
/// text: the root with any number of them appended, and the root with all of
/// them removed, give the same text as the root itself.
pub proof fn law_trailing_slashes_ignored(repo_root: Seq<char>, k: nat, names: StubNames)
    ensures
        harness_stubs(repo_root + Seq::new(k, |i: int| '/'), names) == harness_stubs(repo_root, names),
        harness_stubs(trim_trailing_slashes(repo_root), names) == harness_stubs(repo_root, names),
{
    lemma_trim_appended_slashes(repo_root, k);
    lemma_trim_twice(repo_root);
}

/// Where each capability is implemented in the Harn repository: the link
/// that its stub carries, capability by capability.
pub proof fn law_capability_sources()
    ensures
        rust_source_path(Capability::Stdio) == "crates/harn-vm/src/stdlib/io.rs"@,
        rust_source_path(Capability::Term) == "crates/harn-vm/src/term.rs"@,
        rust_source_path(Capability::Clock) == "crates/harn-vm/src/stdlib/clock.rs"@,
        rust_source_path(Capability::Fs) == "crates/harn-vm/src/stdlib/fs.rs"@,
        rust_source_path(Capability::Env) == "crates/harn-vm/src/stdlib/process.rs"@,
        rust_source_path(Capability::Random) == "crates/harn-vm/src/stdlib/crypto.rs"@,
        rust_source_path(Capability::Net) == "crates/harn-vm/src/harness_net.rs"@,
        rust_source_path(Capability::Process) == "crates/harn-vm/src/stdlib/process.rs"@,
        rust_source_path(Capability::Channels) == "crates/harn-vm/src/stdlib/channels.rs"@,
        rust_source_path(Capability::System) == "crates/harn-vm/src/harness_system.rs"@,
        rust_source_path(Capability::Secrets) == "crates/harn-vm/src/stdlib/secret_scan.rs"@,
        rust_source_path(Capability::Llm) == "crates/harn-vm/src/llm/"@,
        rust_source_path(Capability::Agent) == "crates/harn-vm/src/stdlib/agents.rs"@,
        rust_source_path(Capability::Tenant) == "crates/harn-vm/src/harness_tenant.rs"@,
        rust_source_path(Capability::Auth) == "crates/harn-vm/src/harness_auth.rs"@,
        rust_source_path(Capability::Observability) == "crates/harn-vm/src/stdlib/observability.rs"@,
        rust_source_path(Capability::Verdict) == "crates/harn-vm/src/harness.rs"@,
        rust_source_path(Capability::Tools) == "crates/harn-vm/src/stdlib/tools.rs"@,
        rust_source_path(Capability::Ast) == "crates/harn-parser/src/lib.rs"@,
        rust_source_path(Capability::CodeIndex) == "crates/harn-vm/src/harness.rs"@,
        rust_source_path(Capability::Computer) == "crates/harn-vm/src/harness.rs"@,
        rust_source_path(Capability::Embed) == "crates/harn-cli/src/local_embed.rs"@,
        rust_source_path(Capability::Memory) == "crates/harn-vm/src/stdlib/memory.rs"@,
        rust_source_path(Capability::Sqlite) == "crates/harn-vm/src/stdlib/sqlite/mod.rs"@,
        rust_source_path(Capability::Postgres) == "crates/harn-vm/src/stdlib/postgres/mod.rs"@,
        rust_source_path(Capability::FsWatch) == "crates/harn-vm/src/stdlib/files.rs"@,
        rust_source_path(Capability::HostLease) == "crates/harn-vm/src/stdlib/host.rs"@,
        rust_source_path(Capability::Scanner) == "crates/harn-vm/src/stdlib/secret_scan.rs"@,
        rust_source_path(Capability::SecretStore) == "crates/harn-vm/src/stdlib/secret_scan.rs"@,
        rust_source_path(Capability::TerminalSession) == "crates/harn-vm/src/term.rs"@,
        rust_source_path(Capability::Rules) == "crates/harn-rules/src/lib.rs"@,
        rust_source_path(Capability::Lint) == "crates/harn-lint/src/lib.rs"@,
        rust_source_path(Capability::Runtime) == "crates/harn-vm/src/harness.rs"@,
        rust_source_path(Capability::Interaction) == "crates/harn-vm/src/stdlib/hitl.rs"@,
        rust_source_path(Capability::Project) == "crates/harn-vm/src/stdlib/project_enrich.rs"@,
        rust_source_path(Capability::Dashboard) == "crates/harn-vm/src/harness.rs"@,
        rust_source_path(Capability::Workspace) == "crates/harn-vm/src/workspace_anchor.rs"@,
        rust_source_path(Capability::MergeCaptain) == "crates/harn-vm/src/harness.rs"@,
        rust_source_path(Capability::Session) == "crates/harn-vm/src/stdlib/agent_sessions.rs"@,
        rust_source_path(Capability::Permission) == "crates/harn-vm/src/harness.rs"@,
        rust_source_path(Capability::Text) == "crates/harn-vm/src/text_diff.rs"@,
        rust_source_path(Capability::Lsp) == "crates/harn-lsp/src/lib.rs"@,
        rust_source_path(Capability::Credentials) == "crates/harn-vm/src/harness_auth.rs"@,
        rust_source_path(Capability::PrMonitor) == "crates/harn-vm/src/harness.rs"@,
        rust_source_path(Capability::Workflow) == "crates/harn-vm/src/orchestration/workflow.rs"@,
        rust_source_path(Capability::Testing) == "crates/harn-vm/src/stdlib/testing.rs"@,
{
}

} // verus!
