//! System prompt composition: the generated per-provider/model prompt file
//! (or the default prompt) is the base, and every built-in skill's prompt
//! patch is composed on top in name-sorted order.
use vstd::prelude::*;

use crate::builtin_skills::{builtin_table, patch_view, patches_spec};
use crate::skills::{PromptPatch, compose_spec};
use crate::text::{push_char, str_chars, to_owned};

verus! {

/// The default system prompt, used when no generated prompt exists for the
/// provider and model.
pub const DEFAULT_SYSTEM_PROMPT: &'static str = "You are a helpful assistant. You have several tools at your disposal; use them when they help you answer accurately. Prefer verified information from tools over guesses, say when you are unsure, and keep answers clear and concise.";

/// `s` with every `from` replaced by `to`.
pub open spec fn replace_char(s: Seq<char>, from: char, to: char) -> Seq<char> {
    Seq::new(s.len(), |i: int| if s[i] == from { to } else { s[i] })
}

/// `prompts/generated/<provider>--<model>.txt`, with every `/` of the model
/// id replaced by `_`.
pub open spec fn prompt_path_spec(provider: Seq<char>, model: Seq<char>) -> Seq<char> {
    "prompts/generated/"@ + provider + "--"@ + replace_char(model, '/', '_') + ".txt"@
}

/// File path of the generated prompt for a provider+model pair. Any `/` in
/// the model id is replaced with `_`.
pub fn prompt_path(provider: &str, model: &str) -> (r: String)
    ensures
        r@ == prompt_path_spec(provider@, model@),
{
    let m = str_chars(model);
    let mut out = to_owned("prompts/generated/");
    out.append(provider);
    out.append("--");
    let ghost prefix = out@;
    let mut i: usize = 0;
    while i < m.len()
        invariant
            0 <= i <= m@.len(),
            out@ == prefix + replace_char(m@.take(i as int), '/', '_'),
        decreases m.len() - i,
    {
        if m[i] == '/' {
            push_char(&mut out, '_');
        } else {
            push_char(&mut out, m[i]);
        }
        i += 1;
        assert(out@ =~= prefix + replace_char(m@.take(i as int), '/', '_'));
    }
    assert(m@.take(m@.len() as int) =~= m@);
    out.append(".txt");
    out
}

/// Compose a base prompt with prompt patches applied in the given order:
/// prepend puts text above, append below (joined by a blank line), replace
/// swaps the whole prompt. No patches → the base unchanged.
pub fn compose_system_prompt(base: &str, patches: &[(String, PromptPatch)]) -> (r: String)
    ensures
        r@ == compose_spec(base@, patches@),
{
    let mut prompt = to_owned(base);
    let mut i: usize = 0;
    assert(patches@.take(0) =~= Seq::<(String, PromptPatch)>::empty());
    while i < patches.len()
        invariant
            0 <= i <= patches@.len(),
            prompt@ == compose_spec(base@, patches@.take(i as int)),
        decreases patches.len() - i,
    {
        prompt = patches[i].1.apply_to(prompt.as_str());
        proof {
            assert(patches@.take(i + 1).drop_last() =~= patches@.take(i as int));
            assert(patches@.take(i + 1).last() == patches@[i as int]);
        }
        i += 1;
    }
    assert(patches@.take(patches@.len() as int) =~= patches@);
    prompt
}

/// The base prompt chosen for a provider+model: the generated prompt when
/// one was read, else the default prompt; every built-in skill patch is
/// then composed on top (name-sorted).
pub fn system_prompt_from(generated: Option<String>) -> (r: String)
    ensures
        exists|ps: Seq<(String, PromptPatch)>, pre: Seq<(String, PromptPatch)>|
            #![trigger ps.to_multiset(), pre.to_multiset()]
            crate::order::sorted_by_name(ps) && ps.to_multiset() == pre.to_multiset() && pre.len()
                == patches_spec(builtin_table(), Seq::empty()).len() && (forall|k: int|
                0 <= k < pre.len() ==> patch_view(#[trigger] pre[k]) == patches_spec(
                    builtin_table(),
                    Seq::empty(),
                )[k]) && r@ == compose_spec(
                match generated {
                    Some(g) => g@,
                    None => DEFAULT_SYSTEM_PROMPT@,
                },
                ps,
            ),
{
    let base = match generated {
        Some(g) => g,
        None => to_owned(DEFAULT_SYSTEM_PROMPT),
    };
    let patches = crate::builtin_skills::prompt_patches();
    let r = compose_system_prompt(base.as_str(), patches.as_slice());
    r
}

} // verus!
