//! Building a program for Solana: options, available tools and the choices made
//! while building. Running the tools is left to the caller.

use vstd::prelude::*;
use crate::base58::{base58, base58_encode};
use crate::ir::opt_str_v;
use crate::text::{concat, push_str};

verus! {

/// Why a build failed.
#[derive(Debug)]
pub enum BpfError {
    CodegenError(String),
    BuildError(String),
    /// A file could not be read or written: the system's message.
    IoError(String),
    ToolNotFound(String),
}

/// The text an error is shown with.
pub open spec fn bpf_error_text(e: BpfError) -> Seq<char> {
    match e {
        BpfError::CodegenError(m) => "Codegen error: "@ + m@,
        BpfError::BuildError(m) => "Build error: "@ + m@,
        BpfError::IoError(m) => "IO error: "@ + m@,
        BpfError::ToolNotFound(m) => "Tool not found: "@ + m@,
    }
}

impl BpfError {
    /// The text the error is shown with.
    pub fn message(&self) -> (s: String)
        ensures
            s@ == bpf_error_text(*self),
    {
        match self {
            BpfError::CodegenError(m) => concat("Codegen error: ", m.as_str()),
            BpfError::BuildError(m) => concat("Build error: ", m.as_str()),
            BpfError::IoError(m) => concat("IO error: ", m.as_str()),
            BpfError::ToolNotFound(m) => concat("Tool not found: ", m.as_str()),
        }
    }
}

/// How to build.
#[derive(Debug)]
pub struct CompileOptions {
    /// Optimization level, 0 to 3
    pub opt_level: u8,
    pub debug_info: bool,
    pub output_dir: String,
    /// Build with `cargo build-sbf` from generated Anchor code
    pub use_cargo_sbf: bool,
    pub keep_intermediate: bool,
}

impl Default for CompileOptions {
    fn default() -> (o: CompileOptions)
        ensures
            o.opt_level == 2,
            !o.debug_info,
            o.output_dir@ == "target/deploy"@,
            o.use_cargo_sbf,
            !o.keep_intermediate,
    {
        CompileOptions {
            opt_level: 2,
            debug_info: false,
            output_dir: "target/deploy".to_owned(),
            use_cargo_sbf: true,
            keep_intermediate: false,
        }
    }
}

/// The release optimization level handed to cargo for an optimization level: none at
/// level 0, and at most 3.
pub fn release_opt_level(level: u8) -> (r: Option<String>)
    ensures
        match r {
            None => level == 0,
            Some(s) => level > 0 && s@ == (if level == 1 {
                "1"@
            } else if level == 2 {
                "2"@
            } else {
                "3"@
            }),
        },
{
    if level == 0 {
        None
    } else if level == 1 {
        Some("1".to_owned())
    } else if level == 2 {
        Some("2".to_owned())
    } else {
        Some("3".to_owned())
    }
}

/// The message given when neither cargo build command is installed.
pub open spec fn no_build_tool_message() -> Seq<char> {
    "cargo build-sbf (or cargo build-bpf) not found. Install with: cargo install solana-cli"@
}

/// The cargo subcommand to build with: `build-sbf` where it is installed, else
/// `build-bpf`, else an error.
pub fn build_command(sbf_available: bool, bpf_available: bool) -> (r: Result<String, BpfError>)
    ensures
        match r {
            Ok(c) => if sbf_available {
                c@ == "build-sbf"@
            } else {
                bpf_available && c@ == "build-bpf"@
            },
            Err(e) => !sbf_available && !bpf_available && (e matches BpfError::ToolNotFound(m)
                && m@ == no_build_tool_message()),
        },
{
    if sbf_available {
        Ok("build-sbf".to_owned())
    } else if bpf_available {
        Ok("build-bpf".to_owned())
    } else {
        Err(BpfError::ToolNotFound(
            "cargo build-sbf (or cargo build-bpf) not found. Install with: cargo install solana-cli".to_owned(),
        ))
    }
}

/// How a program is built.
#[derive(Debug, Clone, Copy, PartialEq, Eq, Structural)]
pub enum BuildMode {
    /// Through a generated Anchor project and `cargo build-sbf`.
    Anchor,
    /// Directly through the LLVM backend.
    DirectLlvm,
}

/// The build mode that the options ask for: through Anchor when `use_cargo_sbf` is set,
/// else directly through LLVM, which needs that backend to be part of the build.
pub fn choose_build_mode(use_cargo_sbf: bool, llvm_backend: bool) -> (r: Result<BuildMode, BpfError>)
    ensures
        use_cargo_sbf ==> r == Ok::<BuildMode, BpfError>(BuildMode::Anchor),
        !use_cargo_sbf && llvm_backend ==> r == Ok::<BuildMode, BpfError>(BuildMode::DirectLlvm),
        !use_cargo_sbf && !llvm_backend ==> (r matches Err(BpfError::BuildError(m))
            && m@ == "Direct LLVM compilation requires the 'llvm' feature"@),
{
    if use_cargo_sbf {
        Ok(BuildMode::Anchor)
    } else if llvm_backend {
        Ok(BuildMode::DirectLlvm)
    } else {
        Err(BpfError::BuildError("Direct LLVM compilation requires the 'llvm' feature".to_owned()))
    }
}

/// What `serde_json::from_str::<Vec<u8>>` reads from a text: the bytes of the JSON
/// array of numbers it holds, or `None` when the text is not such an array.
pub uninterp spec fn json_bytes(text: Seq<char>) -> Option<Seq<u8>>;

/// A byte vector, if any, by its contents.
pub open spec fn opt_bytes(o: Option<Vec<u8>>) -> Option<Seq<u8>> {
    match o {
        Some(v) => Some(v@),
        None => None,
    }
}

/// Calls `serde_json::from_str::<Vec<u8>>` on the text; an error becomes `None`. What
/// comes back is named by `json_bytes`: which texts serde_json reads as a byte array is
/// left to its source.
#[verifier::external_body]
fn parse_json_bytes(text: &str) -> (r: Option<Vec<u8>>)
    ensures
        opt_bytes(r) == json_bytes(text@),
{
    serde_json::from_str::<Vec<u8>>(text).ok()
}

/// The program id that a keypair stands for: a keypair is 64 bytes, the secret key
/// then the public key, and the program id is the public key written in base58.
pub open spec fn program_id_of(keypair: Seq<u8>) -> Option<Seq<char>> {
    if keypair.len() == 64 {
        Some(base58(keypair.subrange(32, 64)))
    } else {
        None
    }
}

/// The program id of a keypair given as its 64 bytes; `None` for any other length.
pub fn program_id_from_keypair(keypair: &[u8]) -> (r: Option<String>)
    ensures
        opt_str_v(r) == program_id_of(keypair@),
{
    if keypair.len() != 64 {
        return None;
    }
    let mut public: Vec<u8> = Vec::new();
    let mut i: usize = 32;
    while i < 64
        invariant
            32 <= i <= 64,
            keypair@.len() == 64,
            public@ == keypair@.subrange(32, i as int),
        decreases 64 - i,
    {
        public.push(keypair[i]);
        assert(public@ =~= keypair@.subrange(32, i + 1));
        i = i + 1;
    }
    Some(base58_encode(public.as_slice()))
}

/// The program id recorded next to a built program, given the text of its keypair
/// file (`target/deploy/solscript_program-keypair.json`) or `None` when there is no
/// such file: the file holds the keypair as a JSON array of bytes.
pub fn read_program_id(keypair_file: Option<&str>) -> (r: Option<String>)
    ensures
        opt_str_v(r) == match keypair_file {
            None => None,
            Some(t) => match json_bytes(t@) {
                Some(b) => program_id_of(b),
                None => None,
            },
        },
{
    match keypair_file {
        None => None,
        Some(t) => match parse_json_bytes(t) {
            Some(b) => program_id_from_keypair(b.as_slice()),
            None => None,
        },
    }
}

/// Which build tools are installed, with their versions.
#[derive(Debug)]
pub struct ToolStatus {
    pub cargo_build_sbf: Option<String>,
    pub cargo_build_bpf: Option<String>,
    pub solana_cli: Option<String>,
    pub anchor: Option<String>,
    pub llvm_available: bool,
}

/// One line of the tool summary: found with its version, or not found.
pub open spec fn tool_line(found: Option<String>, label: Seq<char>) -> Seq<char> {
    match found {
        Some(v) => "✓ "@ + label + ": "@ + v@,
        None => "✗ "@ + label + ": not found"@,
    }
}

/// The summary of the tools: the build command, `solana`, `anchor`, and the LLVM
/// target when it is there, one per line.
pub open spec fn summary_text(t: ToolStatus) -> Seq<char> {
    let build = match t.cargo_build_sbf {
        Some(v) => tool_line(Some(v), "cargo build-sbf"@),
        None => match t.cargo_build_bpf {
            Some(v) => tool_line(Some(v), "cargo build-bpf"@),
            None => tool_line(None, "cargo build-sbf"@),
        },
    };
    build + "\n"@ + tool_line(t.solana_cli, "solana"@) + "\n"@ + tool_line(t.anchor, "anchor"@)
        + if t.llvm_available {
        "\n"@ + "✓ LLVM BPF target: available"@
    } else {
        Seq::<char>::empty()
    }
}

fn tool_line_of(found: &Option<String>, label: &str) -> (s: String)
    ensures
        s@ == tool_line(*found, label@),
{
    match found {
        Some(v) => {
            let mut s = concat("✓ ", label);
            push_str(&mut s, ": ");
            push_str(&mut s, v.as_str());
            s
        },
        None => {
            let mut s = concat("✗ ", label);
            push_str(&mut s, ": not found");
            s
        },
    }
}

impl ToolStatus {
    /// Whether some way to build is installed.
    pub fn can_build(&self) -> (b: bool)
        ensures
            b == (self.cargo_build_sbf is Some || self.cargo_build_bpf is Some || self.llvm_available),
    {
        self.cargo_build_sbf.is_some() || self.cargo_build_bpf.is_some() || self.llvm_available
    }

    /// What is installed, one tool per line.
    pub fn summary(&self) -> (s: String)
        ensures
            s@ == summary_text(*self),
    {
        let mut s = if self.cargo_build_sbf.is_some() {
            tool_line_of(&self.cargo_build_sbf, "cargo build-sbf")
        } else if self.cargo_build_bpf.is_some() {
            tool_line_of(&self.cargo_build_bpf, "cargo build-bpf")
        } else {
            tool_line_of(&None, "cargo build-sbf")
        };
        push_str(&mut s, "\n");
        let solana = tool_line_of(&self.solana_cli, "solana");
        push_str(&mut s, solana.as_str());
        push_str(&mut s, "\n");
        let anchor = tool_line_of(&self.anchor, "anchor");
        push_str(&mut s, anchor.as_str());
        if self.llvm_available {
            push_str(&mut s, "\n");
            push_str(&mut s, "✓ LLVM BPF target: available");
        }
        s
    }
}

} // verus!
