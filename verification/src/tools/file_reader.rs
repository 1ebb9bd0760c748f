//! Read-only repo-inspection tools, `ReadFile` and `ListDir`, and the path
//! rules of every file tool. Both tools are jailed to the repo root: they
//! reject absolute paths and `..` components up front, and a resolved path
//! must lie inside the resolved root, component by component. `ReadFile` is
//! text-only (a NUL byte in the first 8KB is binary) and caps reads at
//! 200KB with a truncation marker; `ListDir` is a flat listing of one
//! directory, one `<name>\t<type>\t<size>` line per entry, sorted.
use vstd::prelude::*;

use crate::order::{sort_by_name, sorted_by_name};
use crate::text::{
    dec, join_spec, join_strings, lossy_string, split_chars, split_spec, str_chars, to_owned, u64_to_string,
    utf8_lossy, views,
};
use crate::tool::{ToolMeta, ToolSource};
use crate::null_delimited_file_session_manager::has_byte;

verus! {

broadcast use vstd::seq_lib::group_to_multiset_ensures;

// ------------------------------------------------------------ path rules

/// `Path::is_absolute` on Unix: the path starts at the root.
pub open spec fn is_absolute_spec(p: Seq<char>) -> bool {
    p.len() > 0 && p[0] == '/'
}

/// The path has a `..` component.
pub open spec fn has_parent_dir(p: Seq<char>) -> bool {
    split_spec(p, '/').contains(".."@)
}

/// Why a path is refused before it touches the filesystem.
#[derive(Debug, Clone, Copy, PartialEq, Eq, Structural)]
pub enum PathRejection {
    /// The path is absolute.
    Absolute,
    /// The path has a `..` component.
    ParentDir,
}

/// The lexical jail rules: no absolute path, no `..` component.
pub fn lexical_rejection(path: &str) -> (r: Option<PathRejection>)
    ensures
        r == if is_absolute_spec(path@) {
            Some(PathRejection::Absolute)
        } else if has_parent_dir(path@) {
            Some(PathRejection::ParentDir)
        } else {
            None::<PathRejection>
        },
{
    let v = str_chars(path);
    if v.len() > 0 && v[0] == '/' {
        return Some(PathRejection::Absolute);
    }
    let pieces = split_chars(&v, '/');
    let mut i: usize = 0;
    while i < pieces.len()
        invariant
            v@ == path@,
            !is_absolute_spec(v@),
            pieces@.len() == split_spec(v@, '/').len(),
            forall|k: int| 0 <= k < pieces@.len() ==> #[trigger] pieces@[k]@ == split_spec(v@, '/')[k],
            0 <= i <= pieces@.len(),
            forall|k: int| 0 <= k < i ==> split_spec(v@, '/')[k] != ".."@,
        decreases pieces.len() - i,
    {
        let p = &pieces[i];
        if p.len() == 2 && p[0] == '.' && p[1] == '.' {
            proof {
                reveal_strlit("..");
                assert(pieces@[i as int]@ =~= ".."@);
                assert(split_spec(v@, '/')[i as int] == ".."@);
            }
            return Some(PathRejection::ParentDir);
        }
        proof {
            reveal_strlit("..");
            assert(pieces@[i as int]@ != ".."@);
        }
        i += 1;
    }
    None
}

/// The components of a path (`Path::components`): the root as `/`, a
/// leading `.` of a relative path as `.`, then every piece between slashes
/// except empty ones and `.`.
pub open spec fn components_spec(p: Seq<char>) -> Seq<Seq<char>> {
    let pieces = split_spec(p, '/');
    let lead: Seq<Seq<char>> = if is_absolute_spec(p) {
        seq!["/"@]
    } else if pieces[0] == "."@ {
        seq!["."@]
    } else {
        Seq::empty()
    };
    lead + named_pieces(pieces)
}

/// The pieces that are neither empty nor `.`, in order.
pub open spec fn named_pieces(pieces: Seq<Seq<char>>) -> Seq<Seq<char>>
    decreases pieces.len(),
{
    if pieces.len() == 0 {
        Seq::empty()
    } else {
        let rest = named_pieces(pieces.drop_last());
        let x = pieces.last();
        if x.len() == 0 || x == "."@ {
            rest
        } else {
            rest.push(x)
        }
    }
}

/// `target.starts_with(base)` for paths: the components of `base` are the
/// first components of `target`.
pub open spec fn path_starts_with_spec(target: Seq<char>, base: Seq<char>) -> bool {
    components_spec(base).is_prefix_of(components_spec(target))
}

fn is_dot(v: &Vec<char>) -> (r: bool)
    ensures
        r == (v@ == "."@),
{
    proof {
        reveal_strlit(".");
    }
    if v.len() == 1 && v[0] == '.' {
        assert(v@ =~= "."@);
        true
    } else {
        false
    }
}

fn components(p: &str) -> (r: Vec<Vec<char>>)
    ensures
        views_chars(r@) == components_spec(p@),
{
    let v = str_chars(p);
    let pieces = split_chars(&v, '/');
    proof {
        crate::text::lemma_split_len(v@, '/');
        reveal_strlit("/");
        reveal_strlit(".");
    }
    let ghost ps = split_spec(v@, '/');
    let mut out: Vec<Vec<char>> = Vec::new();
    let ghost mut lead: Seq<Seq<char>> = Seq::empty();
    if v.len() > 0 && v[0] == '/' {
        let mut root: Vec<char> = Vec::new();
        root.push('/');
        assert(root@ =~= "/"@);
        out.push(root);
        proof {
            lead = seq!["/"@];
        }
    } else if is_dot(&pieces[0]) {
        let mut dot: Vec<char> = Vec::new();
        dot.push('.');
        assert(dot@ =~= "."@);
        out.push(dot);
        proof {
            lead = seq!["."@];
        }
    }
    proof {
        assert(views_chars(out@) =~= lead);
        assert(named_pieces(ps.take(0)) =~= Seq::<Seq<char>>::empty());
        assert(lead + named_pieces(ps.take(0)) =~= lead);
    }
    let mut i: usize = 0;
    while i < pieces.len()
        invariant
            v@ == p@,
            ps == split_spec(v@, '/'),
            pieces@.len() == ps.len(),
            forall|k: int| 0 <= k < pieces@.len() ==> #[trigger] pieces@[k]@ == ps[k],
            0 <= i <= ps.len(),
            views_chars(out@) == lead + named_pieces(ps.take(i as int)),
        decreases pieces.len() - i,
    {
        proof {
            assert(ps.take(i + 1).drop_last() =~= ps.take(i as int));
            assert(ps.take(i + 1).last() == ps[i as int]);
        }
        let x = &pieces[i];
        if x.len() != 0 && !is_dot(x) {
            let ghost before = out@;
            let c = x.clone();
            out.push(c);
            proof {
                assert(views_chars(out@) =~= views_chars(before).push(c@));
                assert((lead + named_pieces(ps.take(i as int))).push(ps[i as int]) =~= lead + named_pieces(
                    ps.take(i as int),
                ).push(ps[i as int]));
            }
        }
        i += 1;
    }
    proof {
        assert(ps.take(ps.len() as int) =~= ps);
    }
    out
}

/// The character views of a list of character vectors.
pub open spec fn views_chars(v: Seq<Vec<char>>) -> Seq<Seq<char>> {
    Seq::new(v.len(), |i: int| v[i]@)
}

fn vec_chars_eq(a: &Vec<char>, b: &Vec<char>) -> (r: bool)
    ensures
        r == (a@ == b@),
{
    if a.len() != b.len() {
        return false;
    }
    let mut i: usize = 0;
    while i < a.len()
        invariant
            a@.len() == b@.len(),
            0 <= i <= a@.len(),
            forall|k: int| 0 <= k < i ==> a@[k] == b@[k],
        decreases a.len() - i,
    {
        if a[i] != b[i] {
            return false;
        }
        i += 1;
    }
    assert(a@ =~= b@);
    true
}

/// Whether `target` lies inside `base`, component by component
/// (`Path::starts_with`).
pub fn path_starts_with(target: &str, base: &str) -> (r: bool)
    ensures
        r == path_starts_with_spec(target@, base@),
{
    let t = components(target);
    let b = components(base);
    let ghost tc = components_spec(target@);
    let ghost bc = components_spec(base@);
    proof {
        assert(t@.len() == tc.len() && b@.len() == bc.len()) by {
            assert(views_chars(t@).len() == t@.len());
            assert(views_chars(b@).len() == b@.len());
        }
    }
    if b.len() > t.len() {
        return false;
    }
    let mut i: usize = 0;
    while i < b.len()
        invariant
            tc == components_spec(target@),
            bc == components_spec(base@),
            views_chars(t@) == tc,
            views_chars(b@) == bc,
            b@.len() <= t@.len(),
            b@.len() == bc.len(),
            t@.len() == tc.len(),
            0 <= i <= b@.len(),
            forall|k: int| 0 <= k < i ==> bc[k] == tc[k],
        decreases b.len() - i,
    {
        proof {
            assert(views_chars(b@)[i as int] == b@[i as int]@);
            assert(views_chars(t@)[i as int] == t@[i as int]@);
        }
        if !vec_chars_eq(&b[i], &t[i]) {
            return false;
        }
        i += 1;
    }
    proof {
        assert(bc =~= tc.take(bc.len() as int));
    }
    true
}

// ------------------------------------------------------------ ReadFile

/// Hard read cap: 200KB.
pub const MAX_READ_BYTES: u64 = 204800;

/// How many leading bytes are sniffed for binary content.
pub const BINARY_SNIFF_BYTES: usize = 8192;

/// Refusal of an absolute path.
pub const REJECT_ABSOLUTE: &'static str = "Error: For security, absolute paths are not allowed; paths are jailed to the repo root (the server's working directory).";

/// Refusal of a `..` component.
pub const REJECT_PARENT_DIR: &'static str = "Error: For security, parent directory traversal (..) is not allowed; paths are jailed to the repo root (the server's working directory).";

/// Refusal of a path that resolves outside the root.
pub const REJECT_ESCAPE: &'static str = "Error: path escapes the repo root; read rejected.";

/// The read tools' message for a lexical refusal.
pub fn read_rejection_message(r: PathRejection) -> (m: &'static str)
    ensures
        m@ == match r {
            PathRejection::Absolute => REJECT_ABSOLUTE@,
            PathRejection::ParentDir => REJECT_PARENT_DIR@,
        },
{
    match r {
        PathRejection::Absolute => REJECT_ABSOLUTE,
        PathRejection::ParentDir => REJECT_PARENT_DIR,
    }
}

/// Content looks binary: a NUL byte among its first 8KB.
pub open spec fn looks_binary_spec(bytes: Seq<u8>) -> bool {
    has_byte(
        bytes.take(
            if bytes.len() < BINARY_SNIFF_BYTES {
                bytes.len() as int
            } else {
                BINARY_SNIFF_BYTES as int
            },
        ),
        0,
    )
}

/// True when the content looks binary: a NUL byte anywhere in the first
/// 8KB.
pub fn looks_binary(bytes: &[u8]) -> (r: bool)
    ensures
        r == looks_binary_spec(bytes@),
{
    let n = if bytes.len() < BINARY_SNIFF_BYTES {
        bytes.len()
    } else {
        BINARY_SNIFF_BYTES
    };
    let mut i: usize = 0;
    while i < n
        invariant
            n <= bytes@.len(),
            n == (if bytes@.len() < BINARY_SNIFF_BYTES {
                bytes@.len() as int
            } else {
                BINARY_SNIFF_BYTES as int
            }),
            0 <= i <= n,
            forall|k: int| 0 <= k < i ==> bytes@[k] != 0,
        decreases n - i,
    {
        if bytes[i] == 0 {
            proof {
                assert(bytes@.take(n as int)[i as int] == 0);
            }
            return true;
        }
        i += 1;
    }
    proof {
        if has_byte(bytes@.take(n as int), 0) {
            let k = choose|k: int| 0 <= k < bytes@.take(n as int).len() && bytes@.take(n as int)[k] == 0;
            assert(bytes@[k] == 0);
        }
    }
    false
}

/// `prefix` + `path` + `suffix`.
fn quoted(prefix: &str, path: &str, suffix: &str) -> (r: String)
    ensures
        r@ == prefix@ + path@ + suffix@,
{
    let mut s = to_owned(prefix);
    s.append(path);
    s.append(suffix);
    s
}

/// `Error: path not found: <path>`.
pub fn not_found_message(path: &str) -> (r: String)
    ensures
        r@ == "Error: path not found: "@ + path@,
{
    let mut s = to_owned("Error: path not found: ");
    s.append(path);
    s
}

/// The message for a directory given to ReadFile.
pub fn is_directory_message(path: &str) -> (r: String)
    ensures
        r@ == "Error: '"@ + path@ + "' is a directory, not a file; use ListDir to list it"@,
{
    quoted("Error: '", path, "' is a directory, not a file; use ListDir to list it")
}

/// The message for a file given to ListDir.
pub fn not_a_directory_message(path: &str) -> (r: String)
    ensures
        r@ == "Error: '"@ + path@ + "' is not a directory; use ReadFile to read it"@,
{
    quoted("Error: '", path, "' is not a directory; use ReadFile to read it")
}

/// The message for binary content.
pub fn binary_message(path: &str) -> (r: String)
    ensures
        r@ == "Error: '"@ + path@ + "' looks binary (NUL byte in the first 8192 bytes); only text files can be read"@,
{
    quoted("Error: '", path, "' looks binary (NUL byte in the first 8192 bytes); only text files can be read")
}

/// What ReadFile returns for the bytes of a file: the binary refusal, the
/// first 200KB as text with a truncation marker naming the total, or the
/// whole text (invalid UTF-8 replaced).
pub open spec fn read_output_spec(bytes: Seq<u8>, path: Seq<char>) -> Seq<char> {
    if looks_binary_spec(bytes) {
        "Error: '"@ + path + "' looks binary (NUL byte in the first 8192 bytes); only text files can be read"@
    } else if bytes.len() > MAX_READ_BYTES {
        utf8_lossy(bytes.take(MAX_READ_BYTES as int)) + "\n\n[TRUNCATED: showing the first 204800 of "@ + dec(
            bytes.len(),
        ) + " bytes of '"@ + path + "']"@
    } else {
        utf8_lossy(bytes)
    }
}

/// ReadFile's answer for the bytes of a file.
pub fn read_output(bytes: &[u8], path: &str) -> (r: String)
    requires
        bytes@.len() <= u64::MAX,
    ensures
        r@ == read_output_spec(bytes@, path@),
{
    if looks_binary(bytes) {
        return binary_message(path);
    }
    let total = bytes.len() as u64;
    if total > MAX_READ_BYTES {
        let head = crate::text::bytes_prefix(bytes, MAX_READ_BYTES as usize);
        let mut s = lossy_string(head.as_slice());
        s.append("\n\n[TRUNCATED: showing the first 204800 of ");
        s.append(u64_to_string(total).as_str());
        s.append(" bytes of '");
        s.append(path);
        s.append("']");
        return s;
    }
    lossy_string(bytes)
}

/// ReadFile's description.
pub const READ_FILE_DESCRIPTION: &'static str = "Reads a TEXT file from the repository (read-only, cannot write; paths are jailed to the repo root — absolute paths and '..' are rejected). Files larger than 200KB are truncated with a marker; binary files are rejected. Usage: {\"path\": \"src/foo.rs\"}";

/// ListDir's description.
pub const LIST_DIR_DESCRIPTION: &'static str = "Lists ONE directory (read-only, cannot write; paths are jailed to the repo root — absolute paths and '..' are rejected). Flat, non-recursive: one line per entry as '<name>\\t<type>\\t<size>' where type is file|dir|symlink and size is bytes (0 for dirs). Usage: {\"path\": \"src\"} (default \".\")";

/// Read-only text file reader jailed to the repo root.
#[derive(Debug, Clone)]
pub struct ReadFile {
    pub root: String,
}

impl ReadFile {
    /// A reader jailed to `root`.
    pub fn new(root: &str) -> (r: ReadFile)
        ensures
            r.root@ == root@,
    {
        ReadFile { root: to_owned(root) }
    }

    /// The tool's name.
    pub fn name(&self) -> (r: &'static str)
        ensures
            r@ == "ReadFile"@,
    {
        "ReadFile"
    }

    /// The tool's description.
    pub fn description(&self) -> (r: &'static str)
        ensures
            r@ == READ_FILE_DESCRIPTION@,
    {
        READ_FILE_DESCRIPTION
    }

    /// The tool only reads.
    pub fn is_read_only(&self) -> (r: bool)
        ensures
            r,
    {
        true
    }

    /// What the registry knows of the tool.
    pub fn meta(&self) -> (r: ToolMeta)
        ensures
            r.name@ == "ReadFile"@,
            r.source == ToolSource::Builtin,
            r.mcp_server is None,
            r.read_only,
    {
        ToolMeta { name: to_owned("ReadFile"), source: ToolSource::Builtin, mcp_server: None, read_only: true }
    }
}

impl Default for ReadFile {
    /// A reader jailed to the current directory.
    fn default() -> (r: ReadFile)
        ensures
            r.root@ == "."@,
    {
        ReadFile::new(".")
    }
}

// ------------------------------------------------------------ ListDir

/// The kind of a directory entry.
#[derive(Debug, Clone, Copy, PartialEq, Eq, Structural)]
pub enum EntryKind {
    File,
    Dir,
    Symlink,
}

/// The label of an entry kind.
pub open spec fn kind_label(kind: EntryKind) -> Seq<char> {
    match kind {
        EntryKind::File => "file"@,
        EntryKind::Dir => "dir"@,
        EntryKind::Symlink => "symlink"@,
    }
}

impl EntryKind {
    /// The kind's label.
    pub fn as_str(self) -> (r: &'static str)
        ensures
            r@ == kind_label(self),
    {
        match self {
            EntryKind::File => "file",
            EntryKind::Dir => "dir",
            EntryKind::Symlink => "symlink",
        }
    }
}

/// One listing line: `<name>\t<kind>\t<size>` (directories are size 0).
pub fn entry_line(name: &str, kind: EntryKind, size: u64) -> (r: String)
    ensures
        r@ == name@ + "\t"@ + kind_label(kind) + "\t"@ + dec(
            if kind == EntryKind::Dir {
                0
            } else {
                size as nat
            },
        ),
{
    let mut s = to_owned(name);
    s.append("\t");
    s.append(kind.as_str());
    s.append("\t");
    let shown = if kind == EntryKind::Dir {
        0
    } else {
        size
    };
    s.append(u64_to_string(shown).as_str());
    s
}

/// The listing: the lines sorted, joined by newlines.
pub fn format_listing(lines: Vec<String>) -> (r: String)
    ensures
        exists|sorted: Seq<String>|
            sorted_by_name(sorted) && sorted.to_multiset() == lines@.to_multiset() && r@ == join_spec(
                views(sorted),
                "\n"@,
            ),
{
    let sorted = sort_by_name(lines);
    let r = join_strings(&sorted, "\n");
    assert(sorted_by_name(sorted@) && sorted@.to_multiset() == lines@.to_multiset() && r@ == join_spec(
        views(sorted@),
        "\n"@,
    ));
    r
}

/// ListDir's answer when the directory could not be read.
pub fn cannot_read_message(path: &str, error: &str) -> (r: String)
    ensures
        r@ == "Error: cannot read '"@ + path@ + "': "@ + error@,
{
    let mut s = quoted("Error: cannot read '", path, "': ");
    s.append(error);
    s
}

/// Read-only flat directory listing jailed to the repo root.
#[derive(Debug, Clone)]
pub struct ListDir {
    pub root: String,
}

impl ListDir {
    /// A lister jailed to `root`.
    pub fn new(root: &str) -> (r: ListDir)
        ensures
            r.root@ == root@,
    {
        ListDir { root: to_owned(root) }
    }

    /// The tool's name.
    pub fn name(&self) -> (r: &'static str)
        ensures
            r@ == "ListDir"@,
    {
        "ListDir"
    }

    /// The tool's description.
    pub fn description(&self) -> (r: &'static str)
        ensures
            r@ == LIST_DIR_DESCRIPTION@,
    {
        LIST_DIR_DESCRIPTION
    }

    /// The tool only reads.
    pub fn is_read_only(&self) -> (r: bool)
        ensures
            r,
    {
        true
    }

    /// What the registry knows of the tool.
    pub fn meta(&self) -> (r: ToolMeta)
        ensures
            r.name@ == "ListDir"@,
            r.source == ToolSource::Builtin,
            r.mcp_server is None,
            r.read_only,
    {
        ToolMeta { name: to_owned("ListDir"), source: ToolSource::Builtin, mcp_server: None, read_only: true }
    }
}

impl Default for ListDir {
    /// A lister jailed to the current directory.
    fn default() -> (r: ListDir)
        ensures
            r.root@ == "."@,
    {
        ListDir::new(".")
    }
}

} // verus!
