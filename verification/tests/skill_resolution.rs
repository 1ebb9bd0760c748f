use axonerai::prompt::{system_prompt_from, DEFAULT_SYSTEM_PROMPT};
use axonerai::tools::read_skill::read_skill_body;
use axonerai::skills::{
    merge_listings, parse_frontmatter_fields, resolve_skill, skill_entry, skill_name_error, PromptPatch, SkillEntry,
    SkillFile, SkillSource,
};

fn md(name: &str, body: &str) -> String {
    format!("---\nname: {name}\ndescription: d\n---\n\n{body}\n")
}

fn entry(name: &str, source: SkillSource) -> SkillEntry {
    SkillEntry { name: name.to_string(), description: "d".to_string(), source, path: format!("{name}/SKILL.md") }
}

#[test]
fn local_masks_user_and_listing_is_sorted() {
    let local = vec![entry("zeta", SkillSource::Local), entry("shared", SkillSource::Local)];
    let user = vec![entry("alpha", SkillSource::User), entry("shared", SkillSource::User)];
    let merged = merge_listings(local, user);
    let names: Vec<(&str, SkillSource)> = merged.iter().map(|e| (e.name.as_str(), e.source)).collect();
    assert_eq!(
        names,
        vec![("alpha", SkillSource::User), ("shared", SkillSource::Local), ("zeta", SkillSource::Local)]
    );
}

#[test]
fn skill_entry_needs_valid_frontmatter() {
    let e = skill_entry(&md("lint", "x"), SkillSource::Local, "a/SKILL.md".to_string()).expect("parses");
    assert_eq!(e.name, "lint");
    assert_eq!(e.description, "d");
    assert_eq!(e.source, SkillSource::Local);
    assert_eq!(e.path, "a/SKILL.md");
    assert!(skill_entry("no frontmatter", SkillSource::User, "b".to_string()).is_none());
}

#[test]
fn skill_names_with_separators_or_dots_are_invalid() {
    assert!(skill_name_error("lint").is_none());
    assert_eq!(skill_name_error("../x").as_deref(), Some("Error: invalid skill name '../x'"));
    assert!(skill_name_error("a/b").is_some());
    assert!(skill_name_error("a\\b").is_some());
    assert!(skill_name_error("   ").is_some());
    assert!(skill_name_error("a.b").is_none());
}

#[test]
fn local_skill_wins_over_user() {
    let out = resolve_skill(
        "shared",
        "l/shared/SKILL.md",
        SkillFile::Read(md("shared", "LOCAL BODY")),
        "u/shared/SKILL.md",
        SkillFile::Read(md("shared", "USER BODY")),
    );
    let body = out.expect("local resolves");
    assert!(body.contains("LOCAL BODY") && !body.contains("USER BODY"));
}

#[test]
fn user_skill_is_used_when_local_is_missing() {
    let out = resolve_skill("u", "l", SkillFile::Missing, "p", SkillFile::Read(md("u", "USER ONLY")));
    assert!(out.expect("user resolves").contains("USER ONLY"));
}

#[test]
fn builtin_skill_is_used_last_by_the_tool_only() {
    let out = read_skill_body("deepresearch", "l", SkillFile::Missing, "u", SkillFile::Missing);
    let body = out.expect("builtin resolves");
    assert!(body.contains("name: deepresearch") && body.contains("tavily_search"));
    let plain = resolve_skill("deepresearch", "l", SkillFile::Missing, "u", SkillFile::Missing).unwrap_err();
    assert!(plain.starts_with("Error: no skill named 'deepresearch'"));
    let local = read_skill_body("deepresearch", "l", SkillFile::Read(md("deepresearch", "MINE")), "u", SkillFile::Missing);
    assert!(local.unwrap().contains("MINE"));
}

#[test]
fn skill_resolution_errors() {
    assert_eq!(
        resolve_skill("../escape", "l", SkillFile::Missing, "u", SkillFile::Missing),
        Err("Error: invalid skill name '../escape'".to_string())
    );
    let missing = resolve_skill("nope", "l", SkillFile::Missing, "u", SkillFile::Missing).unwrap_err();
    assert!(missing.starts_with("Error:") && missing.contains("no skill named 'nope'"));
    assert_eq!(
        resolve_skill("bad", "l/bad/SKILL.md", SkillFile::Read("no fence".to_string()), "u", SkillFile::Missing),
        Err("Error: the local skill 'bad' has invalid frontmatter: l/bad/SKILL.md".to_string())
    );
    assert_eq!(
        resolve_skill("x", "l", SkillFile::Missing, "u", SkillFile::Unreadable("denied".to_string())),
        Err("Error: cannot read the user skill 'x': denied".to_string())
    );
}

#[test]
fn prompt_patch_fields_take_the_last_non_empty_value() {
    let fields = parse_frontmatter_fields(
        "---\nname: a\nsystem-prompt-append: one\nsystem-prompt-append: two\nsystem-prompt-prepend:\n---\n",
    )
    .expect("fenced");
    let p = PromptPatch::from_fields(&fields);
    assert_eq!(p.append.as_deref(), Some("two"));
    assert!(p.prepend.is_none() && p.replace.is_none());
    assert!(!p.is_empty());
    assert_eq!(p.apply_to("BASE"), "BASE\n\ntwo");
    assert!(PromptPatch::default().is_empty());
    assert_eq!(PromptPatch::default().apply_to("BASE"), "BASE");
}

#[test]
fn system_prompt_composes_the_builtin_append_below_the_base() {
    let p = system_prompt_from(None);
    assert!(p.starts_with(DEFAULT_SYSTEM_PROMPT), "base intact");
    assert!(p.contains("deep research mode"));
    let g = system_prompt_from(Some("GENERATED".to_string()));
    assert!(g.starts_with("GENERATED\n\n"));
}
