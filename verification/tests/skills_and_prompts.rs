use axonerai::builtin_skills::{builtin_skills, entries, prompt_patches, prompt_patches_excluding, read_builtin};
use axonerai::prompt::{compose_system_prompt, prompt_path};
use axonerai::skills::{parse_frontmatter, PromptPatch, SkillSource};

fn patch(prepend: Option<&str>, append: Option<&str>, replace: Option<&str>) -> (String, PromptPatch) {
    (
        "p".to_string(),
        PromptPatch {
            prepend: prepend.map(String::from),
            append: append.map(String::from),
            replace: replace.map(String::from),
        },
    )
}

#[test]
fn every_builtin_skill_has_valid_unique_frontmatter() {
    let skills = builtin_skills();
    assert!(!skills.is_empty(), "at least the flagship skill ships");
    let mut names = Vec::new();
    for (path, content) in skills {
        let (name, description) =
            parse_frontmatter(content).unwrap_or_else(|| panic!("invalid frontmatter in {path}"));
        assert!(!description.is_empty(), "{name}: empty description");
        assert!(content.contains(&format!("name: {name}")), "{path}");
        names.push(name);
    }
    let unique = names.len();
    names.sort();
    names.dedup();
    assert_eq!(names.len(), unique, "built-in names must be unique");
}

#[test]
fn entries_point_at_their_repo_paths_with_builtin_source() {
    for entry in entries() {
        assert_eq!(entry.source, SkillSource::Builtin);
        let skills = builtin_skills();
        let skill = skills
            .iter()
            .find(|(path, _)| *path == entry.path)
            .expect("entry path matches a compiled-in path");
        assert!(skill.1.contains(&format!("name: {}", entry.name)));
    }
}

#[test]
fn deepresearch_resolves_as_a_builtin() {
    let body = read_builtin("deepresearch").expect("the flagship builtin resolves");
    assert!(body.contains("# Deep research"), "got: {body}");
    assert!(body.contains("tavily_search") && body.contains("WebFetch"));
    assert!(read_builtin("no-such-builtin").is_none());
}

#[test]
fn deepresearch_declares_a_prompt_append() {
    let patches = prompt_patches();
    let (name, patch) = patches
        .iter()
        .find(|(name, _)| name == "deepresearch")
        .expect("deepresearch has a patch");
    assert_eq!(name, "deepresearch");
    assert!(patch.replace.is_none() && patch.prepend.is_none());
    let append = patch.append.as_deref().expect("append set");
    assert!(
        append.contains("deep research mode") && append.contains("cite"),
        "modest deep-research append: {append}"
    );
    let mut sorted = patches.clone();
    sorted.sort_by(|a, b| a.0.cmp(&b.0));
    assert_eq!(patches, sorted);
}

#[test]
fn disabled_builtin_is_dropped_from_patch_composition() {
    let disabled = vec!["deepresearch".to_string()];
    assert!(
        prompt_patches_excluding(&disabled).is_empty(),
        "the only builtin is disabled → no patches compose"
    );
    let unknown = vec!["no-such-skill".to_string()];
    assert_eq!(
        prompt_patches_excluding(&unknown),
        prompt_patches(),
        "disabling a nonexistent skill changes nothing"
    );
    assert_eq!(prompt_patches_excluding(&[]), prompt_patches());
}

#[test]
fn model_slashes_map_to_underscores() {
    assert_eq!(
        prompt_path("groq", "openai/gpt-oss-20b"),
        "prompts/generated/groq--openai_gpt-oss-20b.txt"
    );
    assert_eq!(
        prompt_path("mistral", "zai-glm-5-2"),
        "prompts/generated/mistral--zai-glm-5-2.txt"
    );
}

#[test]
fn compose_applies_patches_in_given_order() {
    let composed = compose_system_prompt(
        "BASE",
        &[
            patch(Some("FIRST PREPEND"), None, None),
            patch(None, Some("FIRST APPEND"), None),
            patch(Some("SECOND PREPEND"), Some("SECOND APPEND"), None),
        ],
    );
    assert_eq!(
        composed,
        "SECOND PREPEND\n\nFIRST PREPEND\n\nBASE\n\nFIRST APPEND\n\nSECOND APPEND"
    );
}

#[test]
fn compose_with_no_patches_is_inert() {
    assert_eq!(compose_system_prompt("BASE", &[]), "BASE");
    let inert = vec![("no-patch".to_string(), PromptPatch::default())];
    assert_eq!(compose_system_prompt("BASE", &inert), "BASE");
}

#[test]
fn compose_replace_wins_over_everything_applied_so_far() {
    let composed = compose_system_prompt(
        "BASE",
        &[patch(Some("PRE"), Some("APP"), None), patch(None, None, Some("REPLACED"))],
    );
    assert_eq!(composed, "REPLACED");
}

#[test]
fn frontmatter_parses_name_and_description() {
    let (name, description) =
        parse_frontmatter("---\nname: lint\ndescription: Grade the repo.\n---\n\n# Lint\n").expect("parses");
    assert_eq!(name, "lint");
    assert_eq!(description, "Grade the repo.");
}

#[test]
fn frontmatter_tolerates_unknown_keys_and_extra_colons() {
    let (name, description) =
        parse_frontmatter("---\nunknown: x\nname: a\ndescription: b: c\n---\n\nbody").expect("parses");
    assert_eq!(name, "a");
    assert_eq!(description, "b: c");
}

#[test]
fn frontmatter_rejects_missing_fence_or_fields() {
    assert!(parse_frontmatter("no fence at all").is_none());
    assert!(parse_frontmatter("---\nname: a\n\nbody").is_none(), "no closing fence");
    assert!(parse_frontmatter("---\nname: a\n---\n").is_none(), "no description");
    assert!(parse_frontmatter("---\ndescription: a\n---\n").is_none(), "no name");
    assert!(parse_frontmatter("---\nname:\ndescription: a\n---\n").is_none(), "blank name");
}
