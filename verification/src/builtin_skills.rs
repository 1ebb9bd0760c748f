//! Built-in skills ship in the library: each is a SKILL.md held as text, so
//! skills work with empty skills folders. Folder skills shadow same-named
//! built-ins; the prompt patches of built-in skills are composed onto the
//! system prompt in name-sorted order.
use vstd::prelude::*;

use crate::order::{sort_by_name, sorted_by_name};
use crate::skills::{
    PromptPatch, SkillEntry, SkillSource, frontmatter_fields_spec, frontmatter_spec,
    opt_view, parse_frontmatter, parse_frontmatter_fields, patch_from_pairs,
};
use crate::text::{str_eq, to_owned};

verus! {

broadcast use vstd::seq_lib::group_to_multiset_ensures;

/// Repository path of the deep-research skill.
pub const DEEPRESEARCH_PATH: &'static str = "skills/builtin/deepresearch/SKILL.md";

/// The deep-research skill: multi-source web research with cited findings.
pub const DEEPRESEARCH_SKILL: &'static str = "---
name: deepresearch
description: Multi-source web research that reads primary sources and reports cited findings.
system-prompt-append: When the user asks for deep research mode, search broadly with tavily_search, read the strongest sources in full with WebFetch, cite every claim with its source URL, and prefer saved evidence over memory.
---

# Deep research

Use this skill when a question needs more than one quick search.

1. Restate the question and list the sub-questions that must be answered.
2. Run several focused `tavily_search` queries, one per sub-question.
3. Open the most promising results with `WebFetch` and read them in full.
4. Keep notes of every fact together with the URL it came from.
5. Cross-check claims that only one source makes.
6. Write the report: a short answer first, then the findings, each with its citation.

Prefer primary sources (official documentation, papers, release notes) over summaries.
";

/// The table of built-in skills: `(repository path, SKILL.md content)`.
pub open spec fn builtin_table() -> Seq<(Seq<char>, Seq<char>)> {
    seq![(DEEPRESEARCH_PATH@, DEEPRESEARCH_SKILL@)]
}

/// The compile-time list of built-in skills: `(repo path, SKILL.md content)`.
pub fn builtin_skills() -> (r: Vec<(&'static str, &'static str)>)
    ensures
        r@.len() == builtin_table().len(),
        forall|i: int|
            0 <= i < r@.len() ==> (#[trigger] r@[i]).0@ == builtin_table()[i].0 && r@[i].1@
                == builtin_table()[i].1,
{
    vec![(DEEPRESEARCH_PATH, DEEPRESEARCH_SKILL)]
}

/// The listing rows of the built-in skills whose frontmatter parses, in
/// table order.
pub open spec fn builtin_entries_spec(t: Seq<(Seq<char>, Seq<char>)>) -> Seq<
    (Seq<char>, Seq<char>, Seq<char>),
>
    decreases t.len(),
{
    if t.len() == 0 {
        Seq::empty()
    } else {
        let prev = builtin_entries_spec(t.drop_last());
        match frontmatter_spec(t.last().1) {
            Some((n, d)) => prev.push((n, d, t.last().0)),
            None => prev,
        }
    }
}

/// The listing rows for the built-in skills (source `builtin`).
pub fn entries() -> (r: Vec<SkillEntry>)
    ensures
        r@.len() == builtin_entries_spec(builtin_table()).len(),
        forall|i: int|
            0 <= i < r@.len() ==> {
                let e = builtin_entries_spec(builtin_table())[i];
                &&& (#[trigger] r@[i]).name@ == e.0
                &&& r@[i].description@ == e.1
                &&& r@[i].path@ == e.2
                &&& r@[i].source == SkillSource::Builtin
            },
{
    let table = builtin_skills();
    let ghost t = builtin_table();
    let mut out: Vec<SkillEntry> = Vec::new();
    let mut i: usize = 0;
    while i < table.len()
        invariant
            t == builtin_table(),
            table@.len() == t.len(),
            forall|k: int| 0 <= k < t.len() ==> (#[trigger] table@[k]).0@ == t[k].0 && table@[k].1@ == t[k].1,
            0 <= i <= t.len(),
            out@.len() == builtin_entries_spec(t.take(i as int)).len(),
            forall|k: int|
                0 <= k < out@.len() ==> {
                    let e = builtin_entries_spec(t.take(i as int))[k];
                    &&& (#[trigger] out@[k]).name@ == e.0
                    &&& out@[k].description@ == e.1
                    &&& out@[k].path@ == e.2
                    &&& out@[k].source == SkillSource::Builtin
                },
        decreases table.len() - i,
    {
        let (path, content) = table[i];
        proof {
            assert(t.take(i + 1).drop_last() =~= t.take(i as int));
            assert(t.take(i + 1).last() == t[i as int]);
        }
        match parse_frontmatter(content) {
            Some((name, description)) => {
                out.push(
                    SkillEntry { name, description, source: SkillSource::Builtin, path: to_owned(path) },
                );
            },
            None => {},
        }
        i += 1;
    }
    assert(t.take(t.len() as int) =~= t);
    out
}

/// The content of the first built-in skill whose frontmatter name is `name`.
pub open spec fn read_builtin_spec(t: Seq<(Seq<char>, Seq<char>)>, name: Seq<char>) -> Option<
    Seq<char>,
>
    decreases t.len(),
{
    if t.len() == 0 {
        None
    } else {
        match frontmatter_spec(t[0].1) {
            Some((n, _)) if n == name => Some(t[0].1),
            _ => read_builtin_spec(t.drop_first(), name),
        }
    }
}

/// Resolve one built-in skill by frontmatter name → its full SKILL.md
/// content (frontmatter included). `None` when no built-in has that name.
pub fn read_builtin(name: &str) -> (r: Option<&'static str>)
    ensures
        match read_builtin_spec(builtin_table(), name@) {
            None => r is None,
            Some(c) => r matches Some(x) && x@ == c,
        },
{
    let table = builtin_skills();
    let ghost t = builtin_table();
    let mut i: usize = 0;
    assert(t.skip(0) =~= t);
    while i < table.len()
        invariant
            t == builtin_table(),
            table@.len() == t.len(),
            forall|k: int| 0 <= k < t.len() ==> (#[trigger] table@[k]).0@ == t[k].0 && table@[k].1@ == t[k].1,
            0 <= i <= t.len(),
            read_builtin_spec(t, name@) == read_builtin_spec(t.skip(i as int), name@),
        decreases table.len() - i,
    {
        let (_, content) = table[i];
        proof {
            assert(t.skip(i as int)[0] == t[i as int]);
            assert(t.skip(i as int).drop_first() =~= t.skip(i + 1));
        }
        match parse_frontmatter(content) {
            Some((n, _)) => {
                if str_eq(n.as_str(), name) {
                    return Some(content);
                }
            },
            None => {},
        }
        i += 1;
    }
    None
}

/// The view of one `(name, patch)` pair.
pub open spec fn patch_view(e: (String, PromptPatch)) -> (
    Seq<char>,
    Option<Seq<char>>,
    Option<Seq<char>>,
    Option<Seq<char>>,
) {
    (e.0@, opt_view(e.1.prepend), opt_view(e.1.append), opt_view(e.1.replace))
}

/// The views of a list of `(name, patch)` pairs, in order.
pub open spec fn patch_views(s: Seq<(String, PromptPatch)>) -> Seq<
    (Seq<char>, Option<Seq<char>>, Option<Seq<char>>, Option<Seq<char>>),
> {
    Seq::new(s.len(), |i: int| patch_view(s[i]))
}

/// Whether `name` is listed in `disabled`.
pub open spec fn listed(disabled: Seq<String>, name: Seq<char>) -> bool {
    exists|i: int| 0 <= i < disabled.len() && #[trigger] disabled[i]@ == name
}

/// The prompt patches of the table's skills, in table order: a skill
/// contributes when its frontmatter parses, it is not disabled, and it
/// declares at least one patch field.
pub open spec fn patches_spec(t: Seq<(Seq<char>, Seq<char>)>, disabled: Seq<String>) -> Seq<
    (Seq<char>, Option<Seq<char>>, Option<Seq<char>>, Option<Seq<char>>),
>
    decreases t.len(),
{
    if t.len() == 0 {
        Seq::empty()
    } else {
        let prev = patches_spec(t.drop_last(), disabled);
        let c = t.last().1;
        match (frontmatter_spec(c), frontmatter_fields_spec(c)) {
            (Some((n, _)), Some(ps)) => {
                let (pre, app, rep) = patch_from_pairs(ps);
                if listed(disabled, n) || (pre is None && app is None && rep is None) {
                    prev
                } else {
                    prev.push((n, pre, app, rep))
                }
            },
            _ => prev,
        }
    }
}

/// Names that match no skill of the table change nothing: excluding them
/// gives the same patches as excluding none.
pub proof fn law_unknown_names_are_inert(t: Seq<(Seq<char>, Seq<char>)>, disabled: Seq<String>)
    requires
        forall|i: int|
            0 <= i < t.len() ==> match frontmatter_spec(#[trigger] t[i].1) {
                Some((n, _)) => !listed(disabled, n),
                None => true,
            },
    ensures
        patches_spec(t, disabled) == patches_spec(t, Seq::empty()),
    decreases t.len(),
{
    if t.len() > 0 {
        let u = t.drop_last();
        assert forall|i: int| 0 <= i < u.len() implies match frontmatter_spec(#[trigger] u[i].1) {
            Some((n, _)) => !listed(disabled, n),
            None => true,
        } by {
            assert(u[i] == t[i]);
        }
        law_unknown_names_are_inert(u, disabled);
        assert(t[t.len() - 1] == t.last());
    }
}

/// A disabled skill contributes no patch: no name among the patches is
/// listed as disabled.
pub proof fn law_disabled_skills_contribute_nothing(
    t: Seq<(Seq<char>, Seq<char>)>,
    disabled: Seq<String>,
    k: int,
)
    requires
        0 <= k < patches_spec(t, disabled).len(),
    ensures
        !listed(disabled, patches_spec(t, disabled)[k].0),
    decreases t.len(),
{
    if t.len() > 0 {
        let prev = patches_spec(t.drop_last(), disabled);
        if k < prev.len() {
            law_disabled_skills_contribute_nothing(t.drop_last(), disabled, k);
        }
    }
}

/// A patch entry that `disabled` does not name.
pub open spec fn kept_by(disabled: Seq<String>) -> spec_fn(
    (Seq<char>, Option<Seq<char>>, Option<Seq<char>>, Option<Seq<char>>),
) -> bool {
    |p: (Seq<char>, Option<Seq<char>>, Option<Seq<char>>, Option<Seq<char>>)| !listed(disabled, p.0)
}

/// Excluding names gives exactly the unfiltered patches with the entries
/// of those names removed, in the same order.
pub proof fn law_excluding_is_filter(t: Seq<(Seq<char>, Seq<char>)>, disabled: Seq<String>)
    ensures
        patches_spec(t, disabled) == patches_spec(t, Seq::empty()).filter(kept_by(disabled)),
    decreases t.len(),
{
    reveal(Seq::filter);
    if t.len() > 0 {
        law_excluding_is_filter(t.drop_last(), disabled);
        let c = t.last().1;
        match (frontmatter_spec(c), frontmatter_fields_spec(c)) {
            (Some((n, _)), Some(ps)) => {
                assert(!listed(Seq::<String>::empty(), n));
                let full = patches_spec(t, Seq::empty());
                let (pre, app, rep) = patch_from_pairs(ps);
                if !(pre is None && app is None && rep is None) {
                    assert(full.drop_last() == patches_spec(t.drop_last(), Seq::empty()));
                    assert(full.last() == (n, pre, app, rep));
                }
            },
            _ => {},
        }
    }
}

fn is_listed(disabled: &[String], name: &String) -> (r: bool)
    ensures
        r == listed(disabled@, name@),
{
    let mut i: usize = 0;
    while i < disabled.len()
        invariant
            0 <= i <= disabled@.len(),
            forall|k: int| 0 <= k < i ==> #[trigger] disabled@[k]@ != name@,
        decreases disabled.len() - i,
    {
        if str_eq(disabled[i].as_str(), name.as_str()) {
            return true;
        }
        i += 1;
    }
    false
}

/// The prompt patches of every built-in skill that declares one and is not
/// named in `disabled`, sorted by name. Names that match no built-in are
/// inert.
pub fn prompt_patches_excluding(disabled: &[String]) -> (r: Vec<(String, PromptPatch)>)
    ensures
        sorted_by_name(r@),
        exists|pre: Seq<(String, PromptPatch)>|
            #![trigger pre.to_multiset()]
            r@.to_multiset() == pre.to_multiset() && pre.len() == patches_spec(
                builtin_table(),
                disabled@,
            ).len() && forall|k: int|
                0 <= k < pre.len() ==> patch_view(#[trigger] pre[k]) == patches_spec(
                    builtin_table(),
                    disabled@,
                )[k],
        patch_views(r@) == patches_spec(builtin_table(), disabled@),
{
    let table = builtin_skills();
    let ghost t = builtin_table();
    let mut out: Vec<(String, PromptPatch)> = Vec::new();
    let mut i: usize = 0;
    while i < table.len()
        invariant
            t == builtin_table(),
            table@.len() == t.len(),
            forall|k: int| 0 <= k < t.len() ==> (#[trigger] table@[k]).0@ == t[k].0 && table@[k].1@ == t[k].1,
            0 <= i <= t.len(),
            out@.len() == patches_spec(t.take(i as int), disabled@).len(),
            forall|k: int|
                0 <= k < out@.len() ==> patch_view(#[trigger] out@[k]) == patches_spec(
                    t.take(i as int),
                    disabled@,
                )[k],
        decreases table.len() - i,
    {
        let (_, content) = table[i];
        proof {
            assert(t.take(i + 1).drop_last() =~= t.take(i as int));
            assert(t.take(i + 1).last() == t[i as int]);
        }
        i += 1;
        let name = match parse_frontmatter(content) {
            Some((n, _)) => n,
            None => continue,
        };
        if is_listed(disabled, &name) {
            continue;
        }
        let fields = match parse_frontmatter_fields(content) {
            Some(f) => f,
            None => continue,
        };
        proof {
            let ps = frontmatter_fields_spec(content@).unwrap();
            assert(fields@.map_values(|p: (String, String)| (p.0@, p.1@)) =~= ps);
        }
        let patch = PromptPatch::from_fields(&fields);
        if patch.is_empty() {
            continue;
        }
        out.push((name, patch));
    }
    assert(t.take(t.len() as int) =~= t);
    let ghost pre = out@;
    let r = sort_by_name(out);
    proof {
        lemma_builtin_patches_short(disabled@);
        assert(r@.len() == pre.len()) by {
            assert(r@.to_multiset().len() == pre.to_multiset().len());
        }
        if pre.len() == 1 {
            assert(pre.to_multiset().contains(r@[0])) by {
                assert(r@.to_multiset().contains(r@[0]));
            }
            assert(pre.to_multiset().count(r@[0]) > 0);
            assert(r@[0] == pre[0]) by {
                assert(pre =~= seq![pre[0]]);
                assert(pre.to_multiset() =~= vstd::multiset::Multiset::empty().insert(pre[0])) by {
                    assert(pre.drop_last() =~= Seq::<(String, PromptPatch)>::empty());
                }
            }
        }
        assert(patch_views(r@) =~= patches_spec(builtin_table(), disabled@));
    }
    r
}

/// The built-in table holds one skill, so it yields at most one patch.
proof fn lemma_builtin_patches_short(disabled: Seq<String>)
    ensures
        patches_spec(builtin_table(), disabled).len() <= 1,
{
    let t = builtin_table();
    assert(t.drop_last() =~= Seq::<(Seq<char>, Seq<char>)>::empty());
    assert(patches_spec(t.drop_last(), disabled) =~= Seq::empty());
}

/// The patches with some names excluded are exactly all the patches
/// (`prompt_patches`) with the entries of those names removed, in the same
/// order: stated over the two functions' results.
pub proof fn law_excluding_is_prompt_patches_filtered(
    disabled: Seq<String>,
    excluded: Seq<(String, PromptPatch)>,
    all: Seq<(String, PromptPatch)>,
)
    requires
        patch_views(excluded) == patches_spec(builtin_table(), disabled),
        patch_views(all) == patches_spec(builtin_table(), Seq::empty()),
    ensures
        patch_views(excluded) == patch_views(all).filter(kept_by(disabled)),
{
    law_excluding_is_filter(builtin_table(), disabled);
}

/// The system-prompt patches of every built-in skill that declares one,
/// name-sorted for deterministic composition.
pub fn prompt_patches() -> (r: Vec<(String, PromptPatch)>)
    ensures
        sorted_by_name(r@),
        exists|pre: Seq<(String, PromptPatch)>|
            #![trigger pre.to_multiset()]
            r@.to_multiset() == pre.to_multiset() && pre.len() == patches_spec(
                builtin_table(),
                Seq::empty(),
            ).len() && forall|k: int|
                0 <= k < pre.len() ==> patch_view(#[trigger] pre[k]) == patches_spec(
                    builtin_table(),
                    Seq::empty(),
                )[k],
        patch_views(r@) == patches_spec(builtin_table(), Seq::empty()),
{
    let none: Vec<String> = Vec::new();
    assert(none@ =~= Seq::<String>::empty());
    prompt_patches_excluding(none.as_slice())
}

} // verus!
