//! Skills: a skill is `<name>/SKILL.md` under `.axonerai/skills` (local) or
//! `~/.axonerai/skills` (user), or a built-in shipped in the library. The
//! SKILL.md starts with a `---`-fenced block of `key: value` lines carrying
//! at least `name` and `description`; built-in skills may also declare a
//! system-prompt patch there. Local masks user masks built-in.
use vstd::prelude::*;

use crate::order::{Named, sort_by_name, sorted_by_name};
use crate::text::{
    chars_slice_to_string, find_char, first_index_from, lemma_first_index_from_char,
    lemma_first_index_from_none, lines_chars, lines_spec, split_once_spec, str_chars, str_eq,
    to_owned, trim, trim_bounds,
};

verus! {

broadcast use vstd::seq_lib::group_to_multiset_ensures;

/// Where a listed skill comes from.
#[derive(Debug, Clone, Copy, PartialEq, Eq, Structural)]
pub enum SkillSource {
    Local,
    User,
    Builtin,
}

impl SkillSource {
    /// The lowercase label of the source.
    pub fn as_str(self) -> (r: &'static str)
        ensures
            r@ == match self {
                SkillSource::Local => "local"@,
                SkillSource::User => "user"@,
                SkillSource::Builtin => "builtin"@,
            },
    {
        match self {
            SkillSource::Local => "local",
            SkillSource::User => "user",
            SkillSource::Builtin => "builtin",
        }
    }
}

/// One listed skill: frontmatter name/description plus where it came from.
#[derive(Debug, Clone, PartialEq, Eq)]
pub struct SkillEntry {
    pub name: String,
    pub description: String,
    pub source: SkillSource,
    /// The SKILL.md file backing this entry.
    pub path: String,
}

impl Named for SkillEntry {
    open spec fn name_view(&self) -> Seq<char> {
        self.name@
    }

    fn name_str(&self) -> (r: &str) {
        self.name.as_str()
    }
}

/// The local skills dir: `.axonerai/skills` under the current directory.
pub fn local_dir() -> (r: String)
    ensures
        r@ == ".axonerai/skills"@,
{
    to_owned(".axonerai/skills")
}

// ------------------------------------------------------------ frontmatter

/// The `(key, value)` of one frontmatter line: the trimmed line split at
/// its first `:`, both halves trimmed.
pub open spec fn line_pair(line: Seq<char>) -> Option<(Seq<char>, Seq<char>)> {
    match split_once_spec(trim(line), ':') {
        Some((k, v)) => Some((trim(k), trim(v))),
        None => None,
    }
}

/// Whether a line is a `---` fence.
pub open spec fn is_fence(line: Seq<char>) -> bool {
    trim(line) == "---"@
}

/// First fence line at or after `i`.
pub open spec fn next_fence(lines: Seq<Seq<char>>, i: int) -> Option<int>
    decreases lines.len() - i,
{
    if i < 0 || i >= lines.len() {
        None
    } else if is_fence(lines[i]) {
        Some(i)
    } else {
        next_fence(lines, i + 1)
    }
}

/// The key/value pairs of the lines `[from, to)` that contain a `:`.
pub open spec fn pairs_between(lines: Seq<Seq<char>>, from: int, to: int) -> Seq<
    (Seq<char>, Seq<char>),
>
    decreases to - from,
{
    if to <= from {
        Seq::empty()
    } else {
        let prev = pairs_between(lines, from, to - 1);
        match line_pair(lines[to - 1]) {
            Some(p) => prev.push(p),
            None => prev,
        }
    }
}

/// The frontmatter fields of a SKILL.md: `None` unless the first line is a
/// `---` fence closed by a later `---` line; otherwise every `key: value`
/// line in between, in order.
pub open spec fn frontmatter_fields_spec(content: Seq<char>) -> Option<
    Seq<(Seq<char>, Seq<char>)>,
> {
    let ls = lines_spec(content);
    if ls.len() == 0 || !is_fence(ls[0]) {
        None
    } else {
        match next_fence(ls, 1) {
            None => None,
            Some(e) => Some(pairs_between(ls, 1, e)),
        }
    }
}

/// The last non-empty value given to `key` among `pairs`.
pub open spec fn last_value(pairs: Seq<(Seq<char>, Seq<char>)>, key: Seq<char>) -> Option<
    Seq<char>,
>
    decreases pairs.len(),
{
    if pairs.len() == 0 {
        None
    } else if pairs.last().0 == key && pairs.last().1.len() > 0 {
        Some(pairs.last().1)
    } else {
        last_value(pairs.drop_last(), key)
    }
}

/// `(name, description)` of a SKILL.md, when both are present and non-empty.
pub open spec fn frontmatter_spec(content: Seq<char>) -> Option<(Seq<char>, Seq<char>)> {
    match frontmatter_fields_spec(content) {
        None => None,
        Some(ps) => match (last_value(ps, "name"@), last_value(ps, "description"@)) {
            (Some(n), Some(d)) => Some((n, d)),
            _ => None,
        },
    }
}

/// Whether `v[lo..hi]` spells `lit`.
pub fn range_is(v: &Vec<char>, lo: usize, hi: usize, lit: &str) -> (r: bool)
    requires
        lo <= hi <= v@.len(),
    ensures
        r == (v@.subrange(lo as int, hi as int) == lit@),
{
    let l = str_chars(lit);
    if hi - lo != l.len() {
        return false;
    }
    let mut k: usize = 0;
    while k < l.len()
        invariant
            hi - lo == l@.len(),
            l@ == lit@,
            lo <= hi <= v@.len(),
            0 <= k <= l@.len(),
            forall|j: int| 0 <= j < k ==> v@[lo + j] == l@[j],
        decreases l.len() - k,
    {
        if v[lo + k] != l[k] {
            assert(v@.subrange(lo as int, hi as int)[k as int] != l@[k as int]);
            return false;
        }
        k += 1;
    }
    assert(v@.subrange(lo as int, hi as int) =~= l@);
    true
}

/// The `(key, value)` of one line (see [`line_pair`]).
fn parse_line_pair(l: &Vec<char>) -> (r: Option<(String, String)>)
    ensures
        match line_pair(l@) {
            None => r is None,
            Some((k, v)) => r matches Some(p) && p.0@ == k && p.1@ == v,
        },
{
    let (lo, hi) = trim_bounds(l, 0, l.len());
    assert(l@.subrange(0, l@.len() as int) =~= l@);
    let ghost t = l@.subrange(lo as int, hi as int);
    match find_char(l, ':', lo, hi) {
        None => {
            proof {
                assert forall|k: int| 0 <= k < t.len() implies t[k] != ':' by {
                    assert(t[k] == l@[lo + k]);
                }
                lemma_first_index_from_none(t, ':', 0);
            }
            None
        },
        Some(c) => {
            proof {
                assert forall|k: int| 0 <= k < c - lo implies t[k] != ':' by {
                    assert(t[k] == l@[lo + k]);
                }
                lemma_first_index_from_char(t, ':', 0, c - lo);
                assert(t.take(c - lo) =~= l@.subrange(lo as int, c as int));
                assert(t.skip(c - lo + 1) =~= l@.subrange(c + 1, hi as int));
            }
            let (klo, khi) = trim_bounds(l, lo, c);
            let (vlo, vhi) = trim_bounds(l, c + 1, hi);
            Some((chars_slice_to_string(l, klo, khi), chars_slice_to_string(l, vlo, vhi)))
        },
    }
}

/// The frontmatter fields of a SKILL.md (see [`frontmatter_fields_spec`]).
pub fn parse_frontmatter_fields(content: &str) -> (r: Option<Vec<(String, String)>>)
    ensures
        match frontmatter_fields_spec(content@) {
            None => r is None,
            Some(ps) => r matches Some(v) && v@.len() == ps.len() && forall|i: int|
                0 <= i < ps.len() ==> (#[trigger] v@[i]).0@ == ps[i].0 && v@[i].1@ == ps[i].1,
        },
{
    let lines = lines_chars(content);
    let ghost ls = lines_spec(content@);
    if lines.len() == 0 {
        return None;
    }
    let (lo, hi) = trim_bounds(&lines[0], 0, lines[0].len());
    assert(lines@[0]@.subrange(0, lines@[0]@.len() as int) =~= lines@[0]@);
    if !range_is(&lines[0], lo, hi, "---") {
        return None;
    }
    let mut pairs: Vec<(String, String)> = Vec::new();
    let mut i: usize = 1;
    while i < lines.len()
        invariant
            ls == lines_spec(content@),
            lines@.len() == ls.len(),
            forall|k: int| 0 <= k < ls.len() ==> #[trigger] lines@[k]@ == ls[k],
            ls.len() > 0 && is_fence(ls[0]),
            1 <= i <= ls.len(),
            next_fence(ls, 1) == next_fence(ls, i as int),
            pairs@.len() == pairs_between(ls, 1, i as int).len(),
            forall|k: int|
                0 <= k < pairs@.len() ==> (#[trigger] pairs@[k]).0@ == pairs_between(
                    ls,
                    1,
                    i as int,
                )[k].0 && pairs@[k].1@ == pairs_between(ls, 1, i as int)[k].1,
        decreases lines.len() - i,
    {
        let l = &lines[i];
        let (lo, hi) = trim_bounds(l, 0, l.len());
        assert(l@.subrange(0, l@.len() as int) =~= l@);
        if range_is(l, lo, hi, "---") {
            return Some(pairs);
        }
        let ghost prev = pairs@;
        match parse_line_pair(l) {
            Some(p) => {
                pairs.push(p);
            },
            None => {},
        }
        i += 1;
    }
    None
}

/// The last non-empty value of `key` among `pairs` (see [`last_value`]).
pub fn find_last_value(pairs: &Vec<(String, String)>, key: &str) -> (r: Option<String>)
    ensures
        last_value(pairs@.map_values(|p: (String, String)| (p.0@, p.1@)), key@) == match r {
            Some(v) => Some(v@),
            None => None::<Seq<char>>,
        },
{
    let ghost ps = pairs@.map_values(|p: (String, String)| (p.0@, p.1@));
    let mut i = pairs.len();
    assert(ps.take(i as int) =~= ps);
    while i > 0
        invariant
            ps == pairs@.map_values(|p: (String, String)| (p.0@, p.1@)),
            0 <= i <= pairs@.len(),
            last_value(ps, key@) == last_value(ps.take(i as int), key@),
        decreases i,
    {
        let ghost t = ps.take(i as int);
        assert(t.drop_last() =~= ps.take(i - 1));
        assert(t.last() == ps[i - 1]);
        if str_eq(pairs[i - 1].0.as_str(), key) && pairs[i - 1].1.unicode_len() > 0 {
            return Some(pairs[i - 1].1.clone());
        }
        i -= 1;
    }
    None
}

/// Parse the `---`-fenced frontmatter of a SKILL.md: `(name, description)`,
/// or `None` when the fence is missing, the block has no closing fence, or
/// either required key is absent/blank. Unknown keys are tolerated.
pub fn parse_frontmatter(content: &str) -> (r: Option<(String, String)>)
    ensures
        match frontmatter_spec(content@) {
            None => r is None,
            Some((n, d)) => r matches Some(p) && p.0@ == n && p.1@ == d,
        },
{
    let pairs = match parse_frontmatter_fields(content) {
        Some(p) => p,
        None => return None,
    };
    proof {
        let ps = frontmatter_fields_spec(content@).unwrap();
        assert(pairs@.map_values(|p: (String, String)| (p.0@, p.1@)) =~= ps);
    }
    let name = match find_last_value(&pairs, "name") {
        Some(n) => n,
        None => return None,
    };
    let description = match find_last_value(&pairs, "description") {
        Some(d) => d,
        None => return None,
    };
    Some((name, description))
}

/// The listing row of one skill directory's SKILL.md: its frontmatter name
/// and description, the source and the file; `None` (the directory is
/// skipped) when the frontmatter does not parse.
pub fn skill_entry(content: &str, source: SkillSource, path: String) -> (r: Option<SkillEntry>)
    ensures
        match frontmatter_spec(content@) {
            None => r is None,
            Some((n, d)) => r matches Some(e) && e.name@ == n && e.description@ == d && e.source == source
                && e.path == path,
        },
{
    match parse_frontmatter(content) {
        Some((name, description)) => Some(SkillEntry { name, description, source, path }),
        None => None,
    }
}

// ------------------------------------------------------------ prompt patches

/// A system-prompt patch declared by a built-in skill's frontmatter
/// (`system-prompt-prepend` / `-append` / `-replace`).
#[derive(Debug, Clone, PartialEq, Eq)]
pub struct PromptPatch {
    pub prepend: Option<String>,
    pub append: Option<String>,
    pub replace: Option<String>,
}

impl Default for PromptPatch {
    fn default() -> (r: Self)
        ensures
            r.prepend is None && r.append is None && r.replace is None,
    {
        PromptPatch { prepend: None, append: None, replace: None }
    }
}

/// The prompt after applying one patch: `replace` swaps the whole prompt,
/// then `prepend` goes above and `append` below, each joined by a blank line.
pub open spec fn apply_spec(p: PromptPatch, prompt: Seq<char>) -> Seq<char> {
    let base = match p.replace {
        Some(r) => r@,
        None => prompt,
    };
    let above = match p.prepend {
        Some(x) => x@ + "\n\n"@ + base,
        None => base,
    };
    match p.append {
        Some(a) => above + "\n\n"@ + a@,
        None => above,
    }
}

/// `base` with the patches applied in order.
pub open spec fn compose_spec(base: Seq<char>, patches: Seq<(String, PromptPatch)>) -> Seq<char>
    decreases patches.len(),
{
    if patches.len() == 0 {
        base
    } else {
        apply_spec(patches.last().1, compose_spec(base, patches.drop_last()))
    }
}

/// The patch keys of a frontmatter, as a spec.
pub open spec fn patch_from_pairs(ps: Seq<(Seq<char>, Seq<char>)>) -> (
    Option<Seq<char>>,
    Option<Seq<char>>,
    Option<Seq<char>>,
) {
    (
        last_value(ps, "system-prompt-prepend"@),
        last_value(ps, "system-prompt-append"@),
        last_value(ps, "system-prompt-replace"@),
    )
}

pub open spec fn opt_view(o: Option<String>) -> Option<Seq<char>> {
    match o {
        Some(s) => Some(s@),
        None => None,
    }
}

impl PromptPatch {
    /// The patch declared by frontmatter fields: the last non-empty value of
    /// each of `system-prompt-prepend`, `system-prompt-append` and
    /// `system-prompt-replace`.
    pub fn from_fields(fields: &Vec<(String, String)>) -> (r: PromptPatch)
        ensures
            patch_from_pairs(fields@.map_values(|p: (String, String)| (p.0@, p.1@))) == (
                opt_view(r.prepend),
                opt_view(r.append),
                opt_view(r.replace),
            ),
    {
        let prepend = find_last_value(fields, "system-prompt-prepend");
        let append = find_last_value(fields, "system-prompt-append");
        let replace = find_last_value(fields, "system-prompt-replace");
        PromptPatch { prepend, append, replace }
    }

    /// A patch with no fields changes nothing.
    pub fn is_empty(&self) -> (r: bool)
        ensures
            r == (self.prepend is None && self.append is None && self.replace is None),
    {
        self.prepend.is_none() && self.append.is_none() && self.replace.is_none()
    }

    /// Apply this patch to `prompt` (see [`apply_spec`]).
    pub fn apply_to(&self, prompt: &str) -> (r: String)
        ensures
            r@ == apply_spec(*self, prompt@),
    {
        let base = match &self.replace {
            Some(r) => r.clone(),
            None => to_owned(prompt),
        };
        let above = match &self.prepend {
            Some(x) => {
                let mut s = x.clone();
                s.append("\n\n");
                s.append(base.as_str());
                s
            },
            None => base,
        };
        match &self.append {
            Some(a) => {
                let mut s = above;
                s.append("\n\n");
                s.append(a.as_str());
                s
            },
            None => above,
        }
    }
}

impl Named for (String, PromptPatch) {
    open spec fn name_view(&self) -> Seq<char> {
        self.0@
    }

    fn name_str(&self) -> (r: &str) {
        self.0.as_str()
    }
}

/// A patch with no fields leaves every prompt unchanged.
pub proof fn law_empty_patch_is_inert(p: PromptPatch, prompt: Seq<char>)
    requires
        p.prepend is None && p.append is None && p.replace is None,
    ensures
        apply_spec(p, prompt) == prompt,
{
}

/// Composition is sequential: applying `ps1` then `ps2` is applying their
/// concatenation.
pub proof fn law_compose_concat(
    base: Seq<char>,
    ps1: Seq<(String, PromptPatch)>,
    ps2: Seq<(String, PromptPatch)>,
)
    ensures
        compose_spec(base, ps1 + ps2) == compose_spec(compose_spec(base, ps1), ps2),
    decreases ps2.len(),
{
    if ps2.len() == 0 {
        assert(ps1 + ps2 =~= ps1);
    } else {
        assert((ps1 + ps2).drop_last() =~= ps1 + ps2.drop_last());
        assert((ps1 + ps2).last() == ps2.last());
        law_compose_concat(base, ps1, ps2.drop_last());
    }
}

/// A replacing patch (without prepend/append) discards everything composed
/// before it.
pub proof fn law_replace_wins(
    base: Seq<char>,
    ps: Seq<(String, PromptPatch)>,
    last: (String, PromptPatch),
)
    requires
        last.1.replace is Some,
        last.1.prepend is None,
        last.1.append is None,
    ensures
        compose_spec(base, ps.push(last)) == last.1.replace.unwrap()@,
{
    assert(ps.push(last).drop_last() =~= ps);
}

// ------------------------------------------------------------ listing

/// The user entries a listing keeps, LOCAL MASKS USER: a user entry is kept
/// only when no local entry has its name.
pub open spec fn kept_user(local: Seq<SkillEntry>, user: Seq<SkillEntry>) -> Seq<SkillEntry>
    decreases user.len(),
{
    if user.len() == 0 {
        Seq::empty()
    } else {
        let prev = kept_user(local, user.drop_last());
        if masked(local, user.last()) {
            prev
        } else {
            prev.push(user.last())
        }
    }
}

/// A local entry has the name of `u`.
pub open spec fn masked(local: Seq<SkillEntry>, u: SkillEntry) -> bool {
    exists|i: int| 0 <= i < local.len() && #[trigger] local[i].name@ == u.name@
}

fn names_contain(names: &Vec<String>, name: &String) -> (r: bool)
    ensures
        r == exists|i: int| 0 <= i < names@.len() && #[trigger] names@[i]@ == name@,
{
    let mut i: usize = 0;
    while i < names.len()
        invariant
            0 <= i <= names@.len(),
            forall|k: int| 0 <= k < i ==> #[trigger] names@[k]@ != name@,
        decreases names.len() - i,
    {
        if str_eq(names[i].as_str(), name.as_str()) {
            return true;
        }
        i += 1;
    }
    false
}

/// Merge the entries listed from the local and the user skills dirs: local
/// masks user by name, and the listing is sorted by name.
pub fn merge_listings(local: Vec<SkillEntry>, user: Vec<SkillEntry>) -> (r: Vec<SkillEntry>)
    ensures
        sorted_by_name(r@),
        r@.to_multiset() == (local@ + kept_user(local@, user@)).to_multiset(),
{
    let ghost l0 = local@;
    let ghost u0 = user@;
    let mut names: Vec<String> = Vec::new();
    let mut i: usize = 0;
    while i < local.len()
        invariant
            l0 == local@,
            0 <= i <= local@.len(),
            names@.len() == i,
            forall|k: int| 0 <= k < i ==> #[trigger] names@[k]@ == l0[k].name@,
        decreases local.len() - i,
    {
        names.push(local[i].name.clone());
        i += 1;
    }
    let mut all = local;
    let mut rest = user;
    let ghost mut j: int = 0;
    assert(kept_user(l0, u0.take(0)) =~= Seq::<SkillEntry>::empty());
    assert(all@ =~= l0 + kept_user(l0, u0.take(0)));
    assert(rest@ =~= u0.skip(0));
    while rest.len() > 0
        invariant
            names@.len() == l0.len(),
            forall|k: int| 0 <= k < l0.len() ==> #[trigger] names@[k]@ == l0[k].name@,
            0 <= j <= u0.len(),
            all@ == l0 + kept_user(l0, u0.take(j)),
            rest@ == u0.skip(j),
        decreases rest.len(),
    {
        let ghost old_all = all@;
        let u = rest.remove(0);
        proof {
            assert(u == u0[j]);
        }
        let hit = names_contain(&names, &u.name);
        proof {
            if hit {
                let k = choose|k: int| 0 <= k < names@.len() && #[trigger] names@[k]@ == u.name@;
                assert(l0[k].name@ == u.name@);

            } else {
                assert forall|k: int| 0 <= k < l0.len() implies #[trigger] l0[k].name@
                    != u.name@ by {
                    assert(names@[k]@ == l0[k].name@);
                }
            }
        }
        if !hit {
            all.push(u);
        }
        proof {
            let t = u0.take(j + 1);
            assert(t.drop_last() =~= u0.take(j));
            assert(t.last() == u);
            assert(kept_user(l0, t) == if !hit {
                kept_user(l0, u0.take(j)).push(u)
            } else {
                kept_user(l0, u0.take(j))
            });
            j = j + 1;
            assert(rest@ =~= u0.skip(j));
            assert(all@ =~= l0 + kept_user(l0, u0.take(j)));
        }
    }
    assert(u0.take(j) =~= u0);
    sort_by_name(all)
}

/// Position `k` of `s` holds a `/`, a `\`, or starts a `..`.
pub open spec fn bad_char_at(s: Seq<char>, k: int) -> bool {
    s[k] == '/' || s[k] == '\\' || (k + 1 < s.len() && s[k] == '.' && s[k + 1] == '.')
}

/// A skill name is valid when it is not blank and holds no `/`, `\` or `..`.
pub open spec fn valid_skill_name(name: Seq<char>) -> bool {
    &&& trim(name).len() > 0
    &&& !exists|k: int| 0 <= k < name.len() && #[trigger] bad_char_at(name, k)
}

/// The error message for an invalid skill name, `None` when the name is
/// valid.
pub fn skill_name_error(name: &str) -> (r: Option<String>)
    ensures
        valid_skill_name(name@) ==> r is None,
        !valid_skill_name(name@) ==> (r matches Some(m) && m@ == "Error: invalid skill name '"@
            + name@ + "'"@),
{
    let v = str_chars(name);
    let (lo, hi) = trim_bounds(&v, 0, v.len());
    assert(v@.subrange(0, v@.len() as int) =~= v@);
    let mut bad = lo == hi;
    let mut i: usize = 0;
    while i < v.len()
        invariant
            0 <= i <= v@.len(),
            lo <= hi,
            v@.subrange(lo as int, hi as int) == trim(v@),
            bad == (trim(v@).len() == 0 || exists|k: int| 0 <= k < i && #[trigger] bad_char_at(v@, k)),
        decreases v.len() - i,
    {
        if v[i] == '/' || v[i] == '\\' || (i + 1 < v.len() && v[i] == '.' && v[i + 1] == '.') {
            assert(bad_char_at(v@, i as int));
            bad = true;
        }
        i += 1;
    }
    if bad {
        let mut m = to_owned("Error: invalid skill name '");
        m.append(name);
        m.append("'");
        Some(m)
    } else {
        None
    }
}


/// What reading one candidate SKILL.md gave.
#[derive(Debug, Clone)]
pub enum SkillFile {
    /// No file there.
    Missing,
    /// The file's content.
    Read(String),
    /// The file exists but could not be read; the reason.
    Unreadable(String),
}

/// The outcome one candidate file decides, `None` when it is missing (the
/// next directory is asked).
pub open spec fn skill_file_outcome(name: Seq<char>, source: Seq<char>, path: Seq<char>, f: SkillFile) -> Option<
    Result<Seq<char>, Seq<char>>,
> {
    match f {
        SkillFile::Missing => None,
        SkillFile::Read(content) => if frontmatter_spec(content@) is Some {
            Some(Ok(content@))
        } else {
            Some(
                Err(
                    "Error: the "@ + source + " skill '"@ + name + "' has invalid frontmatter: "@ + path,
                ),
            )
        },
        SkillFile::Unreadable(e) => Some(Err("Error: cannot read the "@ + source + " skill '"@ + name + "': "@ + e@)),
    }
}

/// The error when neither directory has the skill.
pub open spec fn no_skill_spec(name: Seq<char>) -> Seq<char> {
    "Error: no skill named '"@ + name
        + "' (looked in .axonerai/skills and ~/.axonerai/skills; use ListDir on .axonerai/skills to discover names)"@
}

fn file_outcome(name: &str, source: &str, path: &str, f: SkillFile) -> (r: Option<Result<String, String>>)
    ensures
        match skill_file_outcome(name@, source@, path@, f) {
            None => r is None,
            Some(Ok(c)) => r matches Some(Ok(x)) && x@ == c,
            Some(Err(e)) => r matches Some(Err(x)) && x@ == e,
        },
{
    match f {
        SkillFile::Missing => None,
        SkillFile::Read(content) => {
            if parse_frontmatter(content.as_str()).is_some() {
                Some(Ok(content))
            } else {
                let mut m = to_owned("Error: the ");
                m.append(source);
                m.append(" skill '");
                m.append(name);
                m.append("' has invalid frontmatter: ");
                m.append(path);
                Some(Err(m))
            }
        },
        SkillFile::Unreadable(e) => {
            let mut m = to_owned("Error: cannot read the ");
            m.append(source);
            m.append(" skill '");
            m.append(name);
            m.append("': ");
            m.append(e.as_str());
            Some(Err(m))
        },
    }
}

/// Resolve one skill by name, LOCAL MASKS USER: an invalid name is
/// refused; the local file decides whenever it is there (its content, or
/// why it cannot be used); the user file is asked only when the local one
/// is missing; neither gives the no-such-skill error. The caller reads the
/// user file only when the local one is missing.
pub fn resolve_skill(name: &str, local_path: &str, local: SkillFile, user_path: &str, user: SkillFile) -> (r:
    Result<String, String>)
    ensures
        !valid_skill_name(name@) ==> (r matches Err(e) && e@ == "Error: invalid skill name '"@ + name@ + "'"@),
        valid_skill_name(name@) ==> match skill_file_outcome(name@, "local"@, local_path@, local) {
            Some(Ok(c)) => r matches Ok(x) && x@ == c,
            Some(Err(e)) => r matches Err(x) && x@ == e,
            None => match skill_file_outcome(name@, "user"@, user_path@, user) {
                Some(Ok(c)) => r matches Ok(x) && x@ == c,
                Some(Err(e)) => r matches Err(x) && x@ == e,
                None => r matches Err(x) && x@ == no_skill_spec(name@),
            },
        },
{
    if let Some(e) = skill_name_error(name) {
        return Err(e);
    }
    if let Some(out) = file_outcome(name, "local", local_path, local) {
        return out;
    }
    if let Some(out) = file_outcome(name, "user", user_path, user) {
        return out;
    }
    let mut m = to_owned("Error: no skill named '");
    m.append(name);
    m.append(
        "' (looked in .axonerai/skills and ~/.axonerai/skills; use ListDir on .axonerai/skills to discover names)",
    );
    Err(m)
}

} // verus!
