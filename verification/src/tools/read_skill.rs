//! The read-only `ReadSkill` tool: the SKILL.md body of one named skill,
//! local masking user, built-in skills last.
use vstd::prelude::*;

use crate::builtin_skills::{builtin_table, read_builtin, read_builtin_spec};
use crate::skills::{no_skill_spec, resolve_skill, skill_file_outcome, valid_skill_name, SkillFile};
use crate::text::to_owned;
use crate::tool::{ToolMeta, ToolSource};

verus! {

/// The tool's description.
pub const READ_SKILL_DESCRIPTION: &'static str = "Reads the SKILL.md body of one named skill (read-only, cannot write). Skills live as <name>/SKILL.md under .axonerai/skills (local, wins) or ~/.axonerai/skills (fallback); same-named built-in skills shipped in the binary are used last. To discover folder skill names, ListDir .axonerai/skills first. Usage: {\"name\": \"greeting\"}";

/// Skill-body reader over the local dir and the user dir (`None`: the
/// user's home default).
#[derive(Debug, Clone)]
pub struct ReadSkill {
    pub local: String,
    pub user: Option<String>,
}

impl ReadSkill {
    /// A reader over explicit dirs.
    pub fn new(local: &str, user: &str) -> (r: ReadSkill)
        ensures
            r.local@ == local@,
            r.user is Some && r.user.unwrap()@ == user@,
    {
        ReadSkill { local: to_owned(local), user: Some(to_owned(user)) }
    }

    /// The tool's name.
    pub fn name(&self) -> (r: &'static str)
        ensures
            r@ == "ReadSkill"@,
    {
        "ReadSkill"
    }

    /// The tool's description.
    pub fn description(&self) -> (r: &'static str)
        ensures
            r@ == READ_SKILL_DESCRIPTION@,
    {
        READ_SKILL_DESCRIPTION
    }

    /// The tool only reads.
    pub fn is_read_only(&self) -> (r: bool)
        ensures
            r,
    {
        true
    }

    /// What the registry knows of the tool.
    pub fn meta(&self) -> (r: ToolMeta)
        ensures
            r.name@ == "ReadSkill"@,
            r.source == ToolSource::Builtin,
            r.mcp_server is None,
            r.read_only,
    {
        ToolMeta { name: to_owned("ReadSkill"), source: ToolSource::Builtin, mcp_server: None, read_only: true }
    }
}

/// What the tool answers for a name: the local file, else the user file
/// (as `resolve_skill` decides), and only when both are missing the
/// same-named built-in skill; the no-such-skill error when there is none.
pub open spec fn tool_skill_spec(
    name: Seq<char>,
    local_path: Seq<char>,
    local: SkillFile,
    user_path: Seq<char>,
    user: SkillFile,
) -> Result<Seq<char>, Seq<char>> {
    if !valid_skill_name(name) {
        Err("Error: invalid skill name '"@ + name + "'"@)
    } else {
        match skill_file_outcome(name, "local"@, local_path, local) {
            Some(o) => o,
            None => match skill_file_outcome(name, "user"@, user_path, user) {
                Some(o) => o,
                None => match read_builtin_spec(builtin_table(), name) {
                    Some(c) => Ok(c),
                    None => Err(no_skill_spec(name)),
                },
            },
        }
    }
}

/// The tool's answer as text or error: `resolve_skill` over the two
/// candidate files, with the built-in skill of that name as the last
/// resort when neither file is there.
pub fn read_skill_body(name: &str, local_path: &str, local: SkillFile, user_path: &str, user: SkillFile) -> (r:
    Result<String, String>)
    ensures
        match tool_skill_spec(name@, local_path@, local, user_path@, user) {
            Ok(c) => r matches Ok(x) && x@ == c,
            Err(e) => r matches Err(x) && x@ == e,
        },
{
    let both_missing = matches!(local, SkillFile::Missing) && matches!(user, SkillFile::Missing);
    let ghost lf = local;
    let ghost uf = user;
    let out = resolve_skill(name, local_path, local, user_path, user);
    if both_missing && out.is_err() && crate::skills::skill_name_error(name).is_none() {
        proof {
            assert(skill_file_outcome(name@, "local"@, local_path@, lf) is None);
            assert(skill_file_outcome(name@, "user"@, user_path@, uf) is None);
        }
        if let Some(content) = read_builtin(name) {
            return Ok(to_owned(content));
        }
    }
    out
}

impl Default for ReadSkill {
    /// The default dirs: `.axonerai/skills` and the home default.
    fn default() -> (r: ReadSkill)
        ensures
            r.local@ == ".axonerai/skills"@,
            r.user is None,
    {
        ReadSkill { local: crate::skills::local_dir(), user: None }
    }
}

} // verus!
