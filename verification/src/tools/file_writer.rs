//! The one write tool, `write_file`: it writes text files inside a
//! dedicated scratch jail directory (by default `.axonerai/scratch`).
//! Relative paths are jailed; absolute paths, `..` components and paths
//! that resolve outside the jail are rejected before anything is written.
use vstd::prelude::*;

use crate::text::{dec, to_owned, u64_to_string};
use crate::tool::{ToolMeta, ToolSource};
use crate::tools::file_reader::PathRejection;

verus! {

/// The tool's description.
pub const WRITE_FILE_DESCRIPTION: &'static str = "Writes text to a file under the agent scratch directory (.axonerai/scratch). Paths are relative to that directory; absolute paths and '..' are rejected. Usage: {\"path\": \"example.txt\", \"content\": \"Hello world\"}";

/// Refusal of an absolute path.
pub const REJECT_ABSOLUTE: &'static str = "Error: For security, absolute paths are not allowed; paths are relative to the agent scratch directory (.axonerai/scratch).";

/// Refusal of a `..` component.
pub const REJECT_PARENT_DIR: &'static str = "Error: For security, parent directory traversal (..) is not allowed; paths are relative to the agent scratch directory (.axonerai/scratch).";

/// Refusal of a path that resolves outside the jail.
pub const REJECT_ESCAPE: &'static str = "Error: path escapes the agent scratch directory; write rejected.";

/// The write tool's message for a lexical refusal.
pub fn write_rejection_message(r: PathRejection) -> (m: &'static str)
    ensures
        m@ == match r {
            PathRejection::Absolute => REJECT_ABSOLUTE@,
            PathRejection::ParentDir => REJECT_PARENT_DIR@,
        },
{
    match r {
        PathRejection::Absolute => REJECT_ABSOLUTE,
        PathRejection::ParentDir => REJECT_PARENT_DIR,
    }
}

/// The answer after a write: `Successfully wrote <n> bytes to '<path>'`.
pub fn success_message(bytes: u64, path: &str) -> (r: String)
    ensures
        r@ == "Successfully wrote "@ + dec(bytes as nat) + " bytes to '"@ + path@ + "'"@,
{
    let mut s = to_owned("Successfully wrote ");
    s.append(u64_to_string(bytes).as_str());
    s.append(" bytes to '");
    s.append(path);
    s.append("'");
    s
}

/// Writes text files inside a scratch jail directory.
#[derive(Debug, Clone)]
pub struct WriteFile {
    pub scratch_root: String,
}

impl WriteFile {
    /// A writer jailed to `scratch_root`.
    pub fn new(scratch_root: &str) -> (r: WriteFile)
        ensures
            r.scratch_root@ == scratch_root@,
    {
        WriteFile { scratch_root: to_owned(scratch_root) }
    }

    /// The tool's name.
    pub fn name(&self) -> (r: &'static str)
        ensures
            r@ == "write_file"@,
    {
        "write_file"
    }

    /// The tool's description.
    pub fn description(&self) -> (r: &'static str)
        ensures
            r@ == WRITE_FILE_DESCRIPTION@,
    {
        WRITE_FILE_DESCRIPTION
    }

    /// The one tool that writes.
    pub fn is_read_only(&self) -> (r: bool)
        ensures
            !r,
    {
        false
    }

    /// What the registry knows of the tool.
    pub fn meta(&self) -> (r: ToolMeta)
        ensures
            r.name@ == "write_file"@,
            r.source == ToolSource::Builtin,
            r.mcp_server is None,
            !r.read_only,
    {
        ToolMeta { name: to_owned("write_file"), source: ToolSource::Builtin, mcp_server: None, read_only: false }
    }
}

impl Default for WriteFile {
    /// A writer jailed to `.axonerai/scratch` under the current directory.
    fn default() -> (r: WriteFile)
        ensures
            r.scratch_root@ == ".axonerai/scratch"@,
    {
        WriteFile::new(".axonerai/scratch")
    }
}


/// The jail's answer for a path, before touching the disk: the refusal
/// message for an absolute path or a `..` component (the write tool's
/// wording when `writing`, the read tools' otherwise), `None` when the
/// path may be resolved.
pub open spec fn lexical_refusal_spec(path: Seq<char>, writing: bool) -> Option<Seq<char>> {
    if crate::tools::file_reader::is_absolute_spec(path) {
        Some(if writing { REJECT_ABSOLUTE@ } else { crate::tools::file_reader::REJECT_ABSOLUTE@ })
    } else if crate::tools::file_reader::has_parent_dir(path) {
        Some(if writing { REJECT_PARENT_DIR@ } else { crate::tools::file_reader::REJECT_PARENT_DIR@ })
    } else {
        None
    }
}

/// The lexical refusal of a path, for the write tool or the read tools.
pub fn lexical_refusal(path: &str, writing: bool) -> (r: Option<&'static str>)
    ensures
        match lexical_refusal_spec(path@, writing) {
            None => r is None,
            Some(m) => r matches Some(x) && x@ == m,
        },
{
    match crate::tools::file_reader::lexical_rejection(path) {
        None => None,
        Some(rej) => Some(
            if writing {
                write_rejection_message(rej)
            } else {
                crate::tools::file_reader::read_rejection_message(rej)
            },
        ),
    }
}

/// The jail's answer once the target and the root are canonical: `None`
/// when the target lies within the root (component-wise), else the escape
/// message of the write tool or of the read tools.
pub fn escape_refusal(canonical_target: &str, canonical_root: &str, writing: bool) -> (r: Option<&'static str>)
    ensures
        r is None <==> crate::tools::file_reader::path_starts_with_spec(canonical_target@, canonical_root@),
        r is Some ==> r.unwrap()@ == if writing {
            REJECT_ESCAPE@
        } else {
            crate::tools::file_reader::REJECT_ESCAPE@
        },
{
    if crate::tools::file_reader::path_starts_with(canonical_target, canonical_root) {
        None
    } else if writing {
        Some(REJECT_ESCAPE)
    } else {
        Some(crate::tools::file_reader::REJECT_ESCAPE)
    }
}

/// The message when no ancestor of the target can be resolved.
pub fn unresolvable_message(writing: bool, error: &str) -> (r: String)
    ensures
        r@ == "Error: cannot resolve path inside "@ + (if writing {
            "the agent scratch directory"@
        } else {
            "the repo root"@
        }) + ": "@ + error@,
{
    let mut m = to_owned("Error: cannot resolve path inside ");
    if writing {
        m.append("the agent scratch directory");
    } else {
        m.append("the repo root");
    }
    m.append(": ");
    m.append(error);
    m
}

} // verus!
