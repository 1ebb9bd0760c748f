//! The tool registry: which tools exist (by name, with their source, MCP
//! server and read-only flag) and which are suppressed. A suppressed tool is
//! hidden from the model and refused on execution; the registry state is
//! plain data that every holder of the registry shares.
use vstd::prelude::*;

use crate::order::{Named, sort_by_name, sorted_by_name};
use crate::text::{lemma_seq_lt_total, lemma_seq_lt_transitive, seq_le, seq_lt, str_eq, to_owned};

verus! {

broadcast use vstd::seq_lib::group_to_multiset_ensures;

/// Where a tool comes from: a built-in tool or a (real or facade) MCP
/// server's tool.
#[derive(Debug, Clone, Copy, PartialEq, Eq, Structural)]
pub enum ToolSource {
    Builtin,
    Mcp,
}

impl ToolSource {
    /// The lowercase label of the source.
    pub fn as_str(self) -> (r: &'static str)
        ensures
            r@ == match self {
                ToolSource::Builtin => "builtin"@,
                ToolSource::Mcp => "mcp"@,
            },
    {
        match self {
            ToolSource::Builtin => "builtin",
            ToolSource::Mcp => "mcp",
        }
    }
}

/// Registry snapshot of one tool: name, whether it is enabled (not
/// suppressed), and where it comes from.
#[derive(Debug, Clone)]
pub struct ToolInfo {
    pub name: String,
    pub enabled: bool,
    pub source: ToolSource,
}

impl Named for ToolInfo {
    open spec fn name_view(&self) -> Seq<char> {
        self.name@
    }

    fn name_str(&self) -> (r: &str) {
        self.name.as_str()
    }
}

/// What the registry knows of one tool.
#[derive(Debug)]
pub struct ToolMeta {
    pub name: String,
    pub source: ToolSource,
    /// The MCP server the tool belongs to, for MCP tools.
    pub mcp_server: Option<String>,
    /// The tool only reads state.
    pub read_only: bool,
}

/// Registry of available tools plus per-tool suppression state.
pub struct ToolRegistry {
    tools: Vec<ToolMeta>,
    suppressed: Vec<String>,
}

/// Whether `name` is among `names`.
pub open spec fn in_names(names: Seq<String>, name: Seq<char>) -> bool {
    exists|i: int| 0 <= i < names.len() && #[trigger] names[i]@ == name
}

/// The tool belongs to MCP server `server`.
pub open spec fn of_server(t: ToolMeta, server: Seq<char>) -> bool {
    t.source == ToolSource::Mcp && t.mcp_server is Some && t.mcp_server.unwrap()@ == server
}

/// No two tools share a name.
pub open spec fn unique_names(s: Seq<ToolMeta>) -> bool {
    forall|i: int, j: int|
        #![trigger s[i], s[j]]
        0 <= i < s.len() && 0 <= j < s.len() && i != j ==> s[i].name@ != s[j].name@
}

/// No string occurs twice.
pub open spec fn unique_strings(s: Seq<String>) -> bool {
    forall|i: int, j: int|
        #![trigger s[i], s[j]]
        0 <= i < s.len() && 0 <= j < s.len() && i != j ==> s[i]@ != s[j]@
}

/// The last tool of `s` named `n`.
pub open spec fn find_tool(s: Seq<ToolMeta>, n: Seq<char>) -> Option<ToolMeta>
    decreases s.len(),
{
    if s.len() == 0 {
        None
    } else if s.last().name@ == n {
        Some(s.last())
    } else {
        find_tool(s.drop_last(), n)
    }
}

/// The read-only tools of `s`, in order.
pub open spec fn read_only_tools(s: Seq<ToolMeta>) -> Seq<ToolMeta>
    decreases s.len(),
{
    if s.len() == 0 {
        Seq::empty()
    } else if s.last().read_only {
        read_only_tools(s.drop_last()).push(s.last())
    } else {
        read_only_tools(s.drop_last())
    }
}

/// Some tool among the first `i` is named `n`.
pub open spec fn named_upto(tools: Seq<ToolMeta>, i: int, n: Seq<char>) -> bool {
    exists|k: int| 0 <= k < i && #[trigger] tools[k].name@ == n
}

/// Some tool among the first `i` belongs to MCP server `s`.
pub open spec fn served_upto(tools: Seq<ToolMeta>, i: int, s: Seq<char>) -> bool {
    exists|k: int| 0 <= k < i && of_server(#[trigger] tools[k], s)
}

/// Some tool among the first `i` is named `n` and belongs to MCP server `s`.
pub open spec fn named_served_upto(tools: Seq<ToolMeta>, i: int, s: Seq<char>, n: Seq<char>) -> bool {
    exists|k: int| 0 <= k < i && #[trigger] tools[k].name@ == n && of_server(tools[k], s)
}

/// Appending `x` to a list of names adds exactly `x`'s name.
pub proof fn lemma_in_names_push(s: Seq<String>, x: String, n: Seq<char>)
    ensures
        in_names(s.push(x), n) == (in_names(s, n) || x@ == n),
{
    let t = s.push(x);
    if in_names(t, n) {
        let m = choose|m: int| 0 <= m < t.len() && #[trigger] t[m]@ == n;
        if m < s.len() {
            assert(t[m] == s[m]);
        }
    }
    if in_names(s, n) {
        let m = choose|m: int| 0 <= m < s.len() && #[trigger] s[m]@ == n;
        assert(t[m] == s[m]);
    }
    if x@ == n {
        assert(t[s.len() as int] == x);
    }
}

/// Two lists with the same elements name the same set.
pub proof fn lemma_in_names_multiset(a: Seq<String>, b: Seq<String>, n: Seq<char>)
    requires
        a.to_multiset() == b.to_multiset(),
    ensures
        in_names(a, n) == in_names(b, n),
{
    if in_names(a, n) {
        let m = choose|m: int| 0 <= m < a.len() && #[trigger] a[m]@ == n;
        assert(a.to_multiset().count(a[m]) > 0);
        assert(b.contains(a[m]));
        let k = choose|k: int| 0 <= k < b.len() && b[k] == a[m];
        assert(b[k]@ == n);
    }
    if in_names(b, n) {
        let m = choose|m: int| 0 <= m < b.len() && #[trigger] b[m]@ == n;
        assert(b.to_multiset().count(b[m]) > 0);
        assert(a.contains(b[m]));
        let k = choose|k: int| 0 <= k < a.len() && a[k] == b[m];
        assert(a[k]@ == n);
    }
}

proof fn lemma_unique_drop_last(s: Seq<ToolMeta>)
    requires
        unique_names(s),
        s.len() > 0,
    ensures
        unique_names(s.drop_last()),
{
    let t = s.drop_last();
    assert forall|i: int, j: int|
        #![trigger t[i], t[j]]
        0 <= i < t.len() && 0 <= j < t.len() && i != j implies t[i].name@ != t[j].name@ by {
        assert(t[i] == s[i] && t[j] == s[j]);
    }
}

proof fn lemma_unique_push(s: Seq<ToolMeta>, x: ToolMeta)
    requires
        unique_names(s),
        forall|k: int| 0 <= k < s.len() ==> #[trigger] s[k].name@ != x.name@,
    ensures
        unique_names(s.push(x)),
{
    let t = s.push(x);
    assert forall|i: int, j: int|
        #![trigger t[i], t[j]]
        0 <= i < t.len() && 0 <= j < t.len() && i != j implies t[i].name@ != t[j].name@ by {
        if i < s.len() && j < s.len() {
            assert(t[i] == s[i] && t[j] == s[j]);
        } else if i < s.len() {
            assert(t[i] == s[i]);
        } else {
            assert(t[j] == s[j]);
        }
    }
}

/// With unique names, the tool found under the name of `s[k]` is `s[k]`.
pub proof fn lemma_find_at(s: Seq<ToolMeta>, k: int)
    requires
        unique_names(s),
        0 <= k < s.len(),
    ensures
        find_tool(s, s[k].name@) == Some(s[k]),
    decreases s.len(),
{
    let l = s.len() - 1;
    if k != l {
        assert(s[l].name@ != s[k].name@);
        let t = s.drop_last();
        assert(t[k] == s[k]);
        lemma_unique_drop_last(s);
        lemma_find_at(t, k);
    }
}

/// A name that no tool of `s` has finds nothing.
pub proof fn lemma_find_absent(s: Seq<ToolMeta>, n: Seq<char>)
    requires
        forall|k: int| 0 <= k < s.len() ==> #[trigger] s[k].name@ != n,
    ensures
        find_tool(s, n) is None,
    decreases s.len(),
{
    if s.len() > 0 {
        let t = s.drop_last();
        assert(s[s.len() - 1].name@ != n);
        assert forall|k: int| 0 <= k < t.len() implies #[trigger] t[k].name@ != n by {
            assert(t[k] == s[k]);
        }
        lemma_find_absent(t, n);
    }
}

/// What `find_tool` finds is a tool of `s` with that name.
pub proof fn lemma_find_some(s: Seq<ToolMeta>, n: Seq<char>) -> (k: int)
    requires
        find_tool(s, n) is Some,
    ensures
        0 <= k < s.len(),
        s[k].name@ == n,
        find_tool(s, n) == Some(s[k]),
    decreases s.len(),
{
    let l = s.len() - 1;
    if s[l].name@ == n {
        l
    } else {
        let t = s.drop_last();
        let k = lemma_find_some(t, n);
        assert(t[k] == s[k]);
        k
    }
}

proof fn lemma_find_push(s: Seq<ToolMeta>, x: ToolMeta, n: Seq<char>)
    ensures
        find_tool(s.push(x), n) == if x.name@ == n {
            Some(x)
        } else {
            find_tool(s, n)
        },
{
    assert(s.push(x).drop_last() =~= s);
}

/// A name that some tool of `s` has finds a tool.
proof fn lemma_find_present(s: Seq<ToolMeta>, n: Seq<char>, k: int)
    requires
        0 <= k < s.len(),
        s[k].name@ == n,
    ensures
        find_tool(s, n) is Some,
    decreases s.len(),
{
    let l = s.len() - 1;
    if s[l].name@ != n {
        let t = s.drop_last();
        assert(t[k] == s[k]);
        lemma_find_present(t, n, k);
    }
}

/// `find_tool` succeeds exactly on the names of `s`.
proof fn lemma_find_iff(s: Seq<ToolMeta>, n: Seq<char>)
    ensures
        (find_tool(s, n) is Some) == named_upto(s, s.len() as int, n),
{
    if find_tool(s, n) is Some {
        let k = lemma_find_some(s, n);
        assert(s[k].name@ == n);
    }
    if named_upto(s, s.len() as int, n) {
        let k = choose|k: int| 0 <= k < s.len() && #[trigger] s[k].name@ == n;
        lemma_find_present(s, n, k);
    }
}

/// Dropping the tools that are not read-only: the survivor under a name is
/// the tool found there before, when it is read-only.
proof fn lemma_find_read_only(s: Seq<ToolMeta>, n: Seq<char>)
    requires
        unique_names(s),
    ensures
        find_tool(read_only_tools(s), n) == match find_tool(s, n) {
            Some(t) => if t.read_only {
                Some(t)
            } else {
                None
            },
            None => None,
        },
    decreases s.len(),
{
    if s.len() > 0 {
        let t = s.drop_last();
        let l = s.last();
        lemma_unique_drop_last(s);
        lemma_find_read_only(t, n);
        if l.read_only {
            lemma_find_push(read_only_tools(t), l, n);
        } else if l.name@ == n {
            assert forall|k: int| 0 <= k < t.len() implies #[trigger] t[k].name@ != n by {
                assert(t[k] == s[k]);
                assert(s[k].name@ != s[s.len() - 1].name@);
            }
            lemma_find_absent(t, n);
        }
    }
}

proof fn lemma_unique_read_only(s: Seq<ToolMeta>)
    requires
        unique_names(s),
    ensures
        unique_names(read_only_tools(s)),
    decreases s.len(),
{
    if s.len() > 0 {
        let t = s.drop_last();
        let l = s.last();
        lemma_unique_drop_last(s);
        lemma_unique_read_only(t);
        if l.read_only {
            let r = read_only_tools(t);
            assert forall|k: int| 0 <= k < r.len() implies #[trigger] r[k].name@ != l.name@ by {
                if r[k].name@ == l.name@ {
                    lemma_find_at(r, k);
                    lemma_find_read_only(t, l.name@);
                    let j = lemma_find_some(t, l.name@);
                    assert(s[j] == t[j]);
                    assert(s[j].name@ != s[s.len() - 1].name@);
                }
            }
            lemma_unique_push(r, l);
        }
    }
}

proof fn lemma_named_upto_step(tools: Seq<ToolMeta>, i: int, n: Seq<char>)
    requires
        0 <= i < tools.len(),
    ensures
        named_upto(tools, i + 1, n) == (named_upto(tools, i, n) || tools[i].name@ == n),
{
    if named_upto(tools, i + 1, n) {
        let k = choose|k: int| 0 <= k < i + 1 && #[trigger] tools[k].name@ == n;
        if k < i {
            assert(named_upto(tools, i, n));
        }
    }
    if named_upto(tools, i, n) {
        let k = choose|k: int| 0 <= k < i && #[trigger] tools[k].name@ == n;
        assert(named_upto(tools, i + 1, n));
    }
    if tools[i].name@ == n {
        assert(named_upto(tools, i + 1, n));
    }
}

proof fn lemma_served_upto_step(tools: Seq<ToolMeta>, i: int, s: Seq<char>)
    requires
        0 <= i < tools.len(),
    ensures
        served_upto(tools, i + 1, s) == (served_upto(tools, i, s) || of_server(tools[i], s)),
{
    if served_upto(tools, i + 1, s) {
        let k = choose|k: int| 0 <= k < i + 1 && of_server(#[trigger] tools[k], s);
        if k < i {
            assert(served_upto(tools, i, s));
        }
    }
    if served_upto(tools, i, s) {
        let k = choose|k: int| 0 <= k < i && of_server(#[trigger] tools[k], s);
        assert(served_upto(tools, i + 1, s));
    }
    if of_server(tools[i], s) {
        assert(served_upto(tools, i + 1, s));
    }
}

proof fn lemma_named_served_step(tools: Seq<ToolMeta>, i: int, s: Seq<char>, n: Seq<char>)
    requires
        0 <= i < tools.len(),
    ensures
        named_served_upto(tools, i + 1, s, n) == (named_served_upto(tools, i, s, n) || (
        tools[i].name@ == n && of_server(tools[i], s))),
{
    if named_served_upto(tools, i + 1, s, n) {
        let k = choose|k: int| 0 <= k < i + 1 && #[trigger] tools[k].name@ == n && of_server(tools[k], s);
        if k < i {
            assert(named_served_upto(tools, i, s, n));
        }
    }
    if named_served_upto(tools, i, s, n) {
        let k = choose|k: int| 0 <= k < i && #[trigger] tools[k].name@ == n && of_server(tools[k], s);
        assert(named_served_upto(tools, i + 1, s, n));
    }
    if tools[i].name@ == n && of_server(tools[i], s) {
        assert(named_served_upto(tools, i + 1, s, n));
    }
}

impl ToolRegistry {
    /// Tool names are unique and the suppression list has no duplicates.
    pub closed spec fn wf(&self) -> bool {
        &&& unique_names(self.tools@)
        &&& unique_strings(self.suppressed@)
    }

    /// The registered tools, in registration order.
    pub closed spec fn tools_view(&self) -> Seq<ToolMeta> {
        self.tools@
    }

    /// Whether a tool of that name is suppressed.
    pub closed spec fn suppressed_spec(&self, name: Seq<char>) -> bool {
        in_names(self.suppressed@, name)
    }

    /// The tool registered under `name`.
    pub open spec fn tool_spec(&self, name: Seq<char>) -> Option<ToolMeta> {
        find_tool(self.tools_view(), name)
    }

    /// Some registered tool belongs to MCP server `server`.
    pub open spec fn serves(&self, server: Seq<char>) -> bool {
        served_upto(self.tools_view(), self.tools_view().len() as int, server)
    }

    /// Some registered tool named `name` belongs to MCP server `server`.
    pub open spec fn server_has_tool(&self, server: Seq<char>, name: Seq<char>) -> bool {
        named_served_upto(self.tools_view(), self.tools_view().len() as int, server, name)
    }

    /// The snapshot entry of a registered tool.
    pub open spec fn info_of(&self, t: ToolMeta) -> ToolInfo {
        ToolInfo { name: t.name, enabled: !self.suppressed_spec(t.name@), source: t.source }
    }

    /// An empty registry.
    pub fn new() -> (r: Self)
        ensures
            r.wf(),
            r.tools_view().len() == 0,
            forall|n: Seq<char>| !r.suppressed_spec(n),
    {
        ToolRegistry { tools: Vec::new(), suppressed: Vec::new() }
    }

    fn position(&self, name: &str) -> (r: Option<usize>)
        ensures
            match r {
                Some(i) => i < self.tools@.len() && self.tools@[i as int].name@ == name@,
                None => forall|k: int| 0 <= k < self.tools@.len() ==> #[trigger] self.tools@[k].name@ != name@,
            },
    {
        let mut i: usize = 0;
        while i < self.tools.len()
            invariant
                0 <= i <= self.tools@.len(),
                forall|k: int| 0 <= k < i ==> #[trigger] self.tools@[k].name@ != name@,
            decreases self.tools.len() - i,
        {
            if str_eq(self.tools[i].name.as_str(), name) {
                return Some(i);
            }
            i += 1;
        }
        None
    }

    /// The names of all registered tools, in registration order.
    pub fn list_tools(&self) -> (r: Vec<String>)
        ensures
            r@.len() == self.tools_view().len(),
            forall|i: int| 0 <= i < r@.len() ==> #[trigger] r@[i]@ == self.tools_view()[i].name@,
    {
        let mut out: Vec<String> = Vec::new();
        let mut i: usize = 0;
        while i < self.tools.len()
            invariant
                0 <= i <= self.tools@.len(),
                out@.len() == i,
                forall|k: int| 0 <= k < i ==> #[trigger] out@[k]@ == self.tools@[k].name@,
            decreases self.tools.len() - i,
        {
            out.push(self.tools[i].name.clone());
            i += 1;
        }
        out
    }

    /// Enable (`enabled == true`) or disable a tool by name. Suppression of
    /// every other name is unchanged.
    pub fn set_suppressed(&mut self, name: &str, enabled: bool)
        requires
            old(self).wf(),
        ensures
            final(self).wf(),
            final(self).suppressed_spec(name@) == !enabled,
            forall|n: Seq<char>|
                n != name@ ==> #[trigger] final(self).suppressed_spec(n) == old(self).suppressed_spec(n),
            final(self).tools_view() == old(self).tools_view(),
    {
        let mut found: Option<usize> = None;
        let mut i: usize = 0;
        while i < self.suppressed.len()
            invariant
                0 <= i <= self.suppressed@.len(),
                match found {
                    Some(k) => k < self.suppressed@.len() && self.suppressed@[k as int]@ == name@,
                    None => forall|k: int| 0 <= k < i ==> #[trigger] self.suppressed@[k]@ != name@,
                },
            decreases self.suppressed.len() - i,
        {
            if found.is_none() && str_eq(self.suppressed[i].as_str(), name) {
                found = Some(i);
            }
            i += 1;
        }
        let ghost s0 = self.suppressed@;
        if enabled {
            if let Some(k) = found {
                self.suppressed.remove(k);
                proof {
                    let s1 = self.suppressed@;
                    assert(s1 == s0.remove(k as int));
                    assert forall|a: int| 0 <= a < s1.len() implies #[trigger] s1[a]@ != name@ by {
                        let a0 = if a < k { a } else { a + 1 };
                        assert(s1[a] == s0[a0]);
                        assert(a0 != k);
                    }
                    assert forall|n: Seq<char>| n != name@ implies #[trigger] in_names(s1, n) == in_names(s0, n) by {
                        if in_names(s0, n) {
                            let a = choose|a: int| 0 <= a < s0.len() && #[trigger] s0[a]@ == n;
                            assert(a != k);
                            let a1 = if a < k { a } else { a - 1 };
                            assert(s1[a1] == s0[a]);
                        }
                        if in_names(s1, n) {
                            let a = choose|a: int| 0 <= a < s1.len() && #[trigger] s1[a]@ == n;
                            let a0 = if a < k { a } else { a + 1 };
                            assert(s1[a] == s0[a0]);
                        }
                    }
                }
            }
        } else {
            if found.is_none() {
                self.suppressed.push(crate::text::to_owned(name));
                proof {
                    let s1 = self.suppressed@;
                    assert(s1[s0.len() as int]@ == name@);
                    assert forall|n: Seq<char>| n != name@ implies #[trigger] in_names(s1, n) == in_names(s0, n) by {
                        if in_names(s1, n) {
                            let a = choose|a: int| 0 <= a < s1.len() && #[trigger] s1[a]@ == n;
                            assert(a < s0.len());
                            assert(s1[a] == s0[a]);
                        }
                        if in_names(s0, n) {
                            let a = choose|a: int| 0 <= a < s0.len() && #[trigger] s0[a]@ == n;
                            assert(s1[a] == s0[a]);
                        }
                    }
                }
            }
        }
    }

    /// Whether the tool is currently suppressed (disabled).
    pub fn is_suppressed(&self, name: &str) -> (r: bool)
        ensures
            r == self.suppressed_spec(name@),
    {
        let mut i: usize = 0;
        while i < self.suppressed.len()
            invariant
                0 <= i <= self.suppressed@.len(),
                forall|k: int| 0 <= k < i ==> #[trigger] self.suppressed@[k]@ != name@,
            decreases self.suppressed.len() - i,
        {
            if str_eq(self.suppressed[i].as_str(), name) {
                return true;
            }
            i += 1;
        }
        false
    }

    fn is_of_server(&self, i: usize, server: &str) -> (r: bool)
        requires
            i < self.tools@.len(),
        ensures
            r == of_server(self.tools@[i as int], server@),
    {
        let t = &self.tools[i];
        if t.source != ToolSource::Mcp {
            return false;
        }
        match &t.mcp_server {
            Some(s) => str_eq(s.as_str(), server),
            None => false,
        }
    }

    /// Whether every tool of the MCP server is enabled (not suppressed). A
    /// server with no registered tools reports `true`.
    pub fn mcp_server_enabled(&self, server: &str) -> (r: bool)
        ensures
            r == forall|k: int|
                0 <= k < self.tools_view().len() && of_server(#[trigger] self.tools_view()[k], server@)
                    ==> !self.suppressed_spec(self.tools_view()[k].name@),
    {
        let mut i: usize = 0;
        while i < self.tools.len()
            invariant
                0 <= i <= self.tools@.len(),
                forall|k: int|
                    0 <= k < i && of_server(#[trigger] self.tools@[k], server@)
                        ==> !self.suppressed_spec(self.tools@[k].name@),
            decreases self.tools.len() - i,
        {
            if self.is_of_server(i, server) && self.is_suppressed(self.tools[i].name.as_str()) {
                return false;
            }
            i += 1;
        }
        true
    }

    /// Register a tool; a tool already registered under the same name is
    /// replaced. Suppression state is unchanged.
    pub fn register(&mut self, meta: ToolMeta)
        requires
            old(self).wf(),
        ensures
            final(self).wf(),
            final(self).tool_spec(meta.name@) == Some(meta),
            forall|n: Seq<char>|
                n != meta.name@ ==> #[trigger] final(self).tool_spec(n) == old(self).tool_spec(n),
            forall|n: Seq<char>| #[trigger] final(self).suppressed_spec(n) == old(self).suppressed_spec(n),
            final(self).tools_view().len() == old(self).tools_view().len() + if old(self).tool_spec(
                meta.name@,
            ) is Some {
                0int
            } else {
                1int
            },
    {
        let ghost name = meta.name@;
        let ghost s0 = self.tools@;
        match self.position(meta.name.as_str()) {
            Some(i) => {
                self.tools.set(i, meta);
                proof {
                    let s1 = self.tools@;
                    assert(forall|a: int| 0 <= a < s1.len() ==> #[trigger] s1[a].name@ == s0[a].name@);
                    assert forall|a: int, b: int|
                        #![trigger s1[a], s1[b]]
                        0 <= a < s1.len() && 0 <= b < s1.len() && a != b implies s1[a].name@ != s1[b].name@ by {
                        assert(s0[a].name@ != s0[b].name@);
                    }
                    lemma_find_at(s1, i as int);
                    lemma_find_at(s0, i as int);
                    assert forall|n: Seq<char>| n != name implies #[trigger] find_tool(s1, n) == find_tool(s0, n) by {
                        if named_upto(s1, s1.len() as int, n) {
                            let k = choose|k: int| 0 <= k < s1.len() && #[trigger] s1[k].name@ == n;
                            assert(k != i);
                            assert(s1[k] == s0[k]);
                            lemma_find_at(s1, k);
                            lemma_find_at(s0, k);
                        } else {
                            assert forall|k: int| 0 <= k < s1.len() implies #[trigger] s1[k].name@ != n by {
                                if s1[k].name@ == n {
                                    assert(named_upto(s1, s1.len() as int, n));
                                }
                            }
                            lemma_find_absent(s1, n);
                            assert forall|k: int| 0 <= k < s0.len() implies #[trigger] s0[k].name@ != n by {
                                assert(s1[k].name@ == s0[k].name@);
                            }
                            lemma_find_absent(s0, n);
                        }
                    }
                }
            },
            None => {
                self.tools.push(meta);
                proof {
                    let s1 = self.tools@;
                    assert(s1 == s0.push(meta));
                    lemma_unique_push(s0, meta);
                    lemma_find_absent(s0, name);
                    assert forall|n: Seq<char>| #[trigger] find_tool(s1, n) == (if name == n {
                        Some(meta)
                    } else {
                        find_tool(s0, n)
                    }) by {
                        lemma_find_push(s0, meta, n);
                    }
                }
            },
        }
    }

    /// Keep only the read-only tools; suppression state is carried over.
    pub fn into_read_only(self) -> (r: Self)
        requires
            self.wf(),
        ensures
            r.wf(),
            r.tools_view() == read_only_tools(self.tools_view()),
            forall|n: Seq<char>| #[trigger] r.tool_spec(n) == match self.tool_spec(n) {
                Some(t) => if t.read_only {
                    Some(t)
                } else {
                    None
                },
                None => None,
            },
            forall|n: Seq<char>| #[trigger] r.suppressed_spec(n) == self.suppressed_spec(n),
    {
        let ToolRegistry { tools, suppressed } = self;
        let ghost t0 = tools@;
        let mut rest = tools;
        let mut kept: Vec<ToolMeta> = Vec::new();
        let ghost mut j: int = 0;
        while rest.len() > 0
            invariant
                0 <= j <= t0.len(),
                rest@ == t0.skip(j),
                kept@ == read_only_tools(t0.take(j)),
            decreases rest.len(),
        {
            let t = rest.remove(0);
            proof {
                assert(t == t0[j]);
                assert(t0.take(j + 1).drop_last() =~= t0.take(j));
                assert(t0.take(j + 1).last() == t0[j]);
            }
            if t.read_only {
                kept.push(t);
            }
            proof {
                j = j + 1;
                assert(rest@ =~= t0.skip(j));
            }
        }
        proof {
            assert(t0.take(j) =~= t0);
            lemma_unique_read_only(t0);
            assert forall|n: Seq<char>| #[trigger] find_tool(kept@, n) == match find_tool(t0, n) {
                Some(t) => if t.read_only {
                    Some(t)
                } else {
                    None
                },
                None => None,
            } by {
                lemma_find_read_only(t0, n);
            }
        }
        ToolRegistry { tools: kept, suppressed }
    }

    /// The tool registered under `name`.
    pub fn get(&self, name: &str) -> (r: Option<&ToolMeta>)
        requires
            self.wf(),
        ensures
            match self.tool_spec(name@) {
                Some(t) => r == Some(&t),
                None => r is None,
            },
    {
        match self.position(name) {
            Some(i) => {
                proof {
                    lemma_find_at(self.tools@, i as int);
                }
                Some(&self.tools[i])
            },
            None => {
                proof {
                    lemma_find_absent(self.tools@, name@);
                }
                None
            },
        }
    }

    /// The names of the tools the model may see: every registered tool that
    /// is not suppressed, in registration order.
    pub fn visible_tool_names(&self) -> (r: Vec<String>)
        ensures
            forall|n: Seq<char>|
                #[trigger] in_names(r@, n) == (self.tool_spec(n) is Some && !self.suppressed_spec(n)),
    {
        let mut out: Vec<String> = Vec::new();
        let mut i: usize = 0;
        while i < self.tools.len()
            invariant
                0 <= i <= self.tools@.len(),
                forall|n: Seq<char>|
                    #[trigger] in_names(out@, n) == (named_upto(self.tools@, i as int, n)
                        && !self.suppressed_spec(n)),
            decreases self.tools.len() - i,
        {
            let ghost before = out@;
            let ghost x = self.tools@[i as int].name;
            let hidden = self.is_suppressed(self.tools[i].name.as_str());
            if !hidden {
                out.push(self.tools[i].name.clone());
            }
            proof {
                assert forall|n: Seq<char>|
                    #[trigger] in_names(out@, n) == (named_upto(self.tools@, i + 1, n)
                        && !self.suppressed_spec(n)) by {
                    lemma_named_upto_step(self.tools@, i as int, n);
                    assert(in_names(before, n) == (named_upto(self.tools@, i as int, n)
                        && !self.suppressed_spec(n)));
                    if !hidden {
                        lemma_in_names_push(before, x, n);
                    }
                }
            }
            i += 1;
        }
        proof {
            assert forall|n: Seq<char>|
                #[trigger] in_names(out@, n) == (self.tool_spec(n) is Some && !self.suppressed_spec(n)) by {
                lemma_find_iff(self.tools@, n);
            }
        }
        out
    }

    /// All MCP server names that have at least one MCP tool: sorted, each
    /// once.
    pub fn mcp_servers(&self) -> (r: Vec<String>)
        ensures
            forall|i: int, j: int| 0 <= i < j < r@.len() ==> seq_lt(#[trigger] r@[i]@, #[trigger] r@[j]@),
            forall|s: Seq<char>| #[trigger] in_names(r@, s) == self.serves(s),
    {
        let mut servers: Vec<String> = Vec::new();
        let mut i: usize = 0;
        while i < self.tools.len()
            invariant
                0 <= i <= self.tools@.len(),
                forall|s: Seq<char>| #[trigger] in_names(servers@, s) == served_upto(self.tools@, i as int, s),
            decreases self.tools.len() - i,
        {
            let ghost before = servers@;
            let mut pushed = false;
            if self.tools[i].source == ToolSource::Mcp {
                if let Some(s) = &self.tools[i].mcp_server {
                    servers.push(s.clone());
                    pushed = true;
                }
            }
            proof {
                assert forall|s: Seq<char>|
                    #[trigger] in_names(servers@, s) == served_upto(self.tools@, i + 1, s) by {
                    lemma_served_upto_step(self.tools@, i as int, s);
                    assert(in_names(before, s) == served_upto(self.tools@, i as int, s));
                    if pushed {
                        lemma_in_names_push(before, self.tools@[i as int].mcp_server.unwrap(), s);
                    }
                }
            }
            i += 1;
        }
        let ghost all = servers@;
        let sorted = sort_by_name(servers);
        proof {
            assert forall|s: Seq<char>| #[trigger] in_names(sorted@, s) == in_names(all, s) by {
                lemma_in_names_multiset(sorted@, all, s);
            }
        }
        let r = dedup_sorted(sorted);
        proof {
            assert forall|s: Seq<char>| #[trigger] in_names(r@, s) == self.serves(s) by {
                assert(in_names(r@, s) == in_names(sorted@, s));
                assert(in_names(all, s) == served_upto(self.tools@, self.tools@.len() as int, s));
            }
        }
        r
    }

    /// Enable or disable ALL tools of one MCP server. Unknown servers have no
    /// tools and are a no-op.
    pub fn set_mcp_suppressed(&mut self, server: &str, enabled: bool)
        requires
            old(self).wf(),
        ensures
            final(self).wf(),
            final(self).tools_view() == old(self).tools_view(),
            forall|n: Seq<char>|
                #[trigger] final(self).suppressed_spec(n) == if old(self).server_has_tool(server@, n) {
                    !enabled
                } else {
                    old(self).suppressed_spec(n)
                },
    {
        let names = self.server_tool_names(server);
        let ghost t0 = self.tools@;
        let mut i: usize = 0;
        while i < names.len()
            invariant
                self.wf(),
                self.tools@ == t0,
                0 <= i <= names@.len(),
                forall|n: Seq<char>|
                    #[trigger] self.suppressed_spec(n) == if in_names(names@.take(i as int), n) {
                        !enabled
                    } else {
                        old(self).suppressed_spec(n)
                    },
            decreases names.len() - i,
        {
            self.set_suppressed(names[i].as_str(), enabled);
            proof {
                assert(names@.take(i + 1) =~= names@.take(i as int).push(names@[i as int]));
                assert forall|n: Seq<char>|
                    #[trigger] self.suppressed_spec(n) == if in_names(names@.take(i + 1), n) {
                        !enabled
                    } else {
                        old(self).suppressed_spec(n)
                    } by {
                    lemma_in_names_push(names@.take(i as int), names@[i as int], n);
                }
            }
            i += 1;
        }
        proof {
            assert(names@.take(i as int) =~= names@);
        }
    }

    fn server_tool_names(&self, server: &str) -> (r: Vec<String>)
        ensures
            forall|n: Seq<char>| #[trigger] in_names(r@, n) == self.server_has_tool(server@, n),
    {
        let mut out: Vec<String> = Vec::new();
        let mut i: usize = 0;
        while i < self.tools.len()
            invariant
                0 <= i <= self.tools@.len(),
                forall|n: Seq<char>| #[trigger] in_names(out@, n) == named_served_upto(self.tools@, i as int, server@, n),
            decreases self.tools.len() - i,
        {
            let ghost before = out@;
            let hit = self.is_of_server(i, server);
            if hit {
                out.push(self.tools[i].name.clone());
            }
            proof {
                assert forall|n: Seq<char>|
                    #[trigger] in_names(out@, n) == named_served_upto(self.tools@, i + 1, server@, n) by {
                    lemma_named_served_step(self.tools@, i as int, server@, n);
                    assert(in_names(before, n) == named_served_upto(self.tools@, i as int, server@, n));
                    if hit {
                        lemma_in_names_push(before, self.tools@[i as int].name, n);
                    }
                }
            }
            i += 1;
        }
        out
    }

    /// All currently suppressed tool names, sorted (for persistence).
    pub fn suppressed_names(&self) -> (r: Vec<String>)
        ensures
            sorted_by_name(r@),
            forall|n: Seq<char>| #[trigger] in_names(r@, n) == self.suppressed_spec(n),
    {
        let mut copy: Vec<String> = Vec::new();
        let mut i: usize = 0;
        while i < self.suppressed.len()
            invariant
                0 <= i <= self.suppressed@.len(),
                copy@ == self.suppressed@.take(i as int),
            decreases self.suppressed.len() - i,
        {
            copy.push(self.suppressed[i].clone());
            proof {
                assert(self.suppressed@.take(i + 1) =~= self.suppressed@.take(i as int).push(self.suppressed@[i as int]));
            }
            i += 1;
        }
        proof {
            assert(copy@ =~= self.suppressed@);
        }
        let ghost c = copy@;
        let r = sort_by_name(copy);
        proof {
            assert forall|n: Seq<char>| #[trigger] in_names(r@, n) == self.suppressed_spec(n) by {
                lemma_in_names_multiset(r@, c, n);
            }
        }
        r
    }

    /// The snapshot entries of all registered tools, in registration order.
    pub open spec fn infos_spec(&self) -> Seq<ToolInfo> {
        Seq::new(self.tools_view().len(), |k: int| self.info_of(self.tools_view()[k]))
    }

    /// Snapshot of every registered tool: name, enabled flag and source,
    /// sorted by name.
    pub fn list_tools_info(&self) -> (r: Vec<ToolInfo>)
        ensures
            sorted_by_name(r@),
            r@.to_multiset() == self.infos_spec().to_multiset(),
    {
        let mut infos: Vec<ToolInfo> = Vec::new();
        let mut i: usize = 0;
        while i < self.tools.len()
            invariant
                0 <= i <= self.tools@.len(),
                infos@.len() == i,
                forall|k: int| 0 <= k < i ==> #[trigger] infos@[k] == self.info_of(self.tools@[k]),
            decreases self.tools.len() - i,
        {
            let name = self.tools[i].name.clone();
            let enabled = !self.is_suppressed(name.as_str());
            infos.push(ToolInfo { name, enabled, source: self.tools[i].source });
            i += 1;
        }
        proof {
            assert(infos@ =~= self.infos_spec());
        }
        sort_by_name(infos)
    }
}

impl Default for ToolRegistry {
    fn default() -> (r: Self)
        ensures
            r.wf(),
            r.tools_view().len() == 0,
            forall|n: Seq<char>| !r.suppressed_spec(n),
    {
        Self::new()
    }
}

/// Drop repeated names from a sorted list: the result is strictly increasing
/// and names the same set.
fn dedup_sorted(v: Vec<String>) -> (r: Vec<String>)
    requires
        sorted_by_name(v@),
    ensures
        forall|i: int, j: int| 0 <= i < j < r@.len() ==> seq_lt(#[trigger] r@[i]@, #[trigger] r@[j]@),
        forall|s: Seq<char>| #[trigger] in_names(r@, s) == in_names(v@, s),
{
    let mut out: Vec<String> = Vec::new();
    let mut i: usize = 0;
    while i < v.len()
        invariant
            sorted_by_name(v@),
            0 <= i <= v@.len(),
            forall|a: int, b: int| 0 <= a < b < out@.len() ==> seq_lt(#[trigger] out@[a]@, #[trigger] out@[b]@),
            forall|s: Seq<char>| #[trigger] in_names(out@, s) == in_names(v@.take(i as int), s),
            i > 0 ==> out@.len() > 0 && out@.last()@ == v@[i - 1]@,
            i == 0 ==> out@.len() == 0,
        decreases v.len() - i,
    {
        let ghost before = out@;
        let n = out.len();
        let dup = n > 0 && str_eq(out[n - 1].as_str(), v[i].as_str());
        if !dup {
            out.push(v[i].clone());
            proof {
                if n > 0 {
                    let prev = before[n - 1]@;
                    assert(seq_le(v@[i - 1].name_view(), v@[i as int].name_view()));
                    assert(prev != v@[i as int]@);
                    lemma_seq_lt_total(prev, v@[i as int]@);
                    assert forall|a: int, b: int| 0 <= a < b < out@.len() implies seq_lt(
                        #[trigger] out@[a]@,
                        #[trigger] out@[b]@,
                    ) by {
                        if b == n {
                            assert(out@[b] == v@[i as int]);
                            if a < n - 1 {
                                assert(out@[a] == before[a]);
                                assert(seq_lt(before[a]@, before[n - 1]@));
                                lemma_seq_lt_transitive(out@[a]@, prev, v@[i as int]@);
                            } else {
                                assert(out@[a] == before[a]);
                            }
                        } else {
                            assert(out@[a] == before[a] && out@[b] == before[b]);
                        }
                    }
                }
            }
        }
        proof {
            assert(v@.take(i + 1) =~= v@.take(i as int).push(v@[i as int]));
            assert forall|s: Seq<char>| #[trigger] in_names(out@, s) == in_names(v@.take(i + 1), s) by {
                lemma_in_names_push(v@.take(i as int), v@[i as int], s);
                assert(in_names(before, s) == in_names(v@.take(i as int), s));
                if dup {
                    if v@[i as int]@ == s {
                        assert(out@[n - 1]@ == s);
                    }
                } else {
                    lemma_in_names_push(before, v@[i as int], s);
                }
            }
        }
        i += 1;
    }
    proof {
        assert(v@.take(i as int) =~= v@);
    }
    out
}

} // verus!
