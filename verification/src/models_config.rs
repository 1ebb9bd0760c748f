//! Per-provider model configuration: context windows, token costs and
//! offers live in per-provider JSONC files, `<provider>-models.jsonc`, in a
//! local dir (`.axonerai/models`, shareable) and a user dir
//! (`~/.axonerai/models`); LOCAL MASKS USER. Missing files are
//! missing-safe: no file means no model list. `updated` is an ISO 8601 UTC
//! date (`YYYY-MM-DD`).
//!
//! This module holds the JSONC clean-up (comments, then trailing commas),
//! the choice between the two candidate files, the lookups, the mutations
//! (costs, context window, `updated` stamp), the civil date of a unix time,
//! and the diff a fetch of the provider's model listing would apply.
use vstd::prelude::*;

use crate::config::{strip_comments_spec, strip_jsonc_comments};
use crate::text::{
    chars_slice_to_string, dec, str_chars, str_eq, to_owned, trim_end, trim_end_len, u64_to_string_padded,
    zero_pad,
};

verus! {

// ------------------------------------------------------------ JSONC

/// The state of the trailing-comma scan: output so far, inside a string,
/// after a backslash inside a string.
pub type CommaScan = (Seq<char>, bool, bool);

/// One character of the trailing-comma scan. Outside strings, a `}` or `]`
/// drops a comma that ends the output (with the whitespace after it).
pub open spec fn comma_step(st: CommaScan, c: char) -> CommaScan {
    let (out, in_string, escape) = st;
    if in_string {
        if escape {
            (out.push(c), true, false)
        } else if c == '\\' {
            (out.push(c), true, true)
        } else if c == '"' {
            (out.push(c), false, false)
        } else {
            (out.push(c), true, false)
        }
    } else if c == '"' {
        (out.push(c), true, escape)
    } else if c == '}' || c == ']' {
        let t = trim_end(out);
        let kept = if t.len() > 0 && t.last() == ',' {
            t.drop_last()
        } else {
            out
        };
        (kept.push(c), false, escape)
    } else {
        (out.push(c), false, escape)
    }
}

/// The scan over all of `s`.
pub open spec fn comma_scan(s: Seq<char>) -> CommaScan
    decreases s.len(),
{
    if s.len() == 0 {
        (Seq::empty(), false, false)
    } else {
        comma_step(comma_scan(s.drop_last()), s.last())
    }
}

/// Strip trailing commas before `}` / `]` (outside strings) from JSONC text
/// after comment-stripping.
pub fn strip_trailing_commas(input: &str) -> (r: String)
    ensures
        r@ == comma_scan(input@).0,
{
    let chars = str_chars(input);
    let mut out: Vec<char> = Vec::new();
    let mut in_string = false;
    let mut escape = false;
    let mut i: usize = 0;
    while i < chars.len()
        invariant
            chars@ == input@,
            0 <= i <= chars@.len(),
            (out@, in_string, escape) == comma_scan(chars@.take(i as int)),
        decreases chars.len() - i,
    {
        let c = chars[i];
        proof {
            assert(chars@.take(i + 1).drop_last() =~= chars@.take(i as int));
            assert(chars@.take(i + 1).last() == c);
        }
        if in_string {
            out.push(c);
            if escape {
                escape = false;
            } else if c == '\\' {
                escape = true;
            } else if c == '"' {
                in_string = false;
            }
        } else {
            if c == '"' {
                in_string = true;
            } else if c == '}' || c == ']' {
                let t = trim_end_len(&out);
                if t > 0 && out[t - 1] == ',' {
                    let ghost o = out@;
                    out.truncate(t - 1);
                    proof {
                        assert(out@ =~= trim_end(o).drop_last());
                    }
                }
            }
            out.push(c);
        }
        i += 1;
    }
    proof {
        assert(chars@.take(chars@.len() as int) =~= chars@);
        assert(out@.subrange(0, out@.len() as int) =~= out@);
    }
    chars_slice_to_string(&out, 0, out.len())
}

/// The JSONC pipeline for models files: comments, then trailing commas.
pub fn parse_jsonc(raw: &str) -> (r: String)
    ensures
        r@ == comma_scan(strip_comments_spec(raw@)).0,
{
    strip_trailing_commas(strip_jsonc_comments(raw).as_str())
}

// ------------------------------------------------------------ the files

/// Optional cost strings for one model (strings, to avoid float semantics).
#[derive(Debug, Clone)]
pub struct ModelCosts {
    pub input_per_mtok: Option<String>,
    pub output_per_mtok: Option<String>,
}

/// One model entry: the API id, a human name, its context window (tokens),
/// optional costs and a freeform offer.
#[derive(Debug, Clone)]
pub struct ProviderModel {
    pub id: String,
    pub display: String,
    pub context_window: u32,
    pub costs: Option<ModelCosts>,
    pub offer: Option<String>,
}

/// Top-level shape of one `<provider>-models.jsonc` file.
#[derive(Debug, Clone)]
pub struct ProviderModelsFile {
    pub provider: String,
    pub updated: String,
    pub models: Vec<ProviderModel>,
}

/// Which file won the local-masks-user resolution.
#[derive(Debug, Clone, Copy, PartialEq, Eq, Structural)]
pub enum ModelSource {
    Local,
    User,
}

impl ModelSource {
    /// The lowercase label of the source.
    pub fn as_str(self) -> (r: &'static str)
        ensures
            r@ == match self {
                ModelSource::Local => "local"@,
                ModelSource::User => "user"@,
            },
    {
        match self {
            ModelSource::Local => "local",
            ModelSource::User => "user",
        }
    }
}

/// The index of the first model with id `id`.
pub open spec fn first_model(models: Seq<ProviderModel>, id: Seq<char>) -> Option<int>
    decreases models.len(),
{
    if models.len() == 0 {
        None
    } else if models[0].id@ == id {
        Some(0)
    } else {
        match first_model(models.drop_first(), id) {
            Some(k) => Some(k + 1),
            None => None,
        }
    }
}

proof fn lemma_first_model(models: Seq<ProviderModel>, id: Seq<char>)
    ensures
        match first_model(models, id) {
            Some(k) => 0 <= k < models.len() && models[k].id@ == id && forall|j: int|
                0 <= j < k ==> #[trigger] models[j].id@ != id,
            None => forall|j: int| 0 <= j < models.len() ==> #[trigger] models[j].id@ != id,
        },
    decreases models.len(),
{
    if models.len() > 0 {
        lemma_first_model(models.drop_first(), id);
        let t = models.drop_first();
        assert forall|j: int| 1 <= j < models.len() implies models[j] == t[j - 1] by {}
    }
}

/// The position of the first model with id `id`.
fn position_of(models: &Vec<ProviderModel>, id: &str) -> (r: Option<usize>)
    ensures
        match r {
            Some(k) => k < models@.len() && first_model(models@, id@) == Some(k as int),
            None => first_model(models@, id@) is None,
        },
{
    proof {
        lemma_first_model(models@, id@);
    }
    let mut i: usize = 0;
    while i < models.len()
        invariant
            0 <= i <= models@.len(),
            forall|j: int| 0 <= j < i ==> #[trigger] models@[j].id@ != id@,
            match first_model(models@, id@) {
                Some(k) => 0 <= k < models@.len() && models@[k].id@ == id@ && forall|j: int|
                    0 <= j < k ==> #[trigger] models@[j].id@ != id@,
                None => forall|j: int| 0 <= j < models@.len() ==> #[trigger] models@[j].id@ != id@,
            },
        decreases models.len() - i,
    {
        if str_eq(models[i].id.as_str(), id) {
            return Some(i);
        }
        i += 1;
    }
    None
}

/// A loaded provider-models config plus where it came from.
#[derive(Debug, Clone)]
pub struct LoadedModels {
    pub source: ModelSource,
    pub path: String,
    pub config: ProviderModelsFile,
}

impl LoadedModels {
    /// Look up one model by id (the first with that id).
    pub fn find(&self, model_id: &str) -> (r: Option<&ProviderModel>)
        ensures
            match first_model(self.config.models@, model_id@) {
                Some(k) => r == Some(&self.config.models@[k]),
                None => r is None,
            },
    {
        match position_of(&self.config.models, model_id) {
            Some(k) => Some(&self.config.models[k]),
            None => None,
        }
    }

    /// Context window for one model id, if known.
    pub fn context_window(&self, model_id: &str) -> (r: Option<u32>)
        ensures
            r == match first_model(self.config.models@, model_id@) {
                Some(k) => Some(self.config.models@[k].context_window),
                None => None,
            },
    {
        match self.find(model_id) {
            Some(m) => Some(m.context_window),
            None => None,
        }
    }
}

/// The local models dir: `.axonerai/models` under the current directory.
pub fn local_dir() -> (r: String)
    ensures
        r@ == ".axonerai/models"@,
{
    to_owned(".axonerai/models")
}

/// The file name for one provider inside a models dir.
pub fn file_name(provider: &str) -> (r: String)
    ensures
        r@ == provider@ + "-models.jsonc"@,
{
    let mut s = to_owned(provider);
    s.append("-models.jsonc");
    s
}

/// What the reader found at one candidate path.
#[derive(Debug)]
pub enum Candidate {
    /// No file there.
    Missing,
    /// The file read, parsed and validated.
    Parsed(ProviderModelsFile),
    /// The file exists but could not be read, parsed or validated; the
    /// reason.
    Invalid(String),
}

/// Why no config could be loaded.
#[derive(Debug)]
pub enum ModelsError {
    /// The winning file exists but is invalid.
    InvalidFile { source: ModelSource, path: String, detail: String },
    /// The winning file declares another provider.
    ProviderMismatch { source: ModelSource, path: String, declared: String, requested: String },
}

/// The label of a source.
pub open spec fn source_label(s: ModelSource) -> Seq<char> {
    match s {
        ModelSource::Local => "local"@,
        ModelSource::User => "user"@,
    }
}

impl ModelsError {
    /// The one-line message of the error.
    pub open spec fn message_spec(self) -> Seq<char> {
        match self {
            ModelsError::InvalidFile { source, path, .. } => source_label(source) + " "@ + path@
                + " is invalid; fix or remove it"@,
            ModelsError::ProviderMismatch { source, path, declared, requested } => source_label(source) + " "@
                + path@ + " declares provider '"@ + declared@ + "' but was loaded as '"@ + requested@ + "'"@,
        }
    }

    /// The one-line message of the error: which file is wrong and how.
    pub fn message(&self) -> (r: String)
        ensures
            r@ == self.message_spec(),
    {
        match self {
            ModelsError::InvalidFile { source, path, .. } => {
                let mut m = to_owned(source.as_str());
                m.append(" ");
                m.append(path.as_str());
                m.append(" is invalid; fix or remove it");
                m
            },
            ModelsError::ProviderMismatch { source, path, declared, requested } => {
                let mut m = to_owned(source.as_str());
                m.append(" ");
                m.append(path.as_str());
                m.append(" declares provider '");
                m.append(declared.as_str());
                m.append("' but was loaded as '");
                m.append(requested.as_str());
                m.append("'");
                m
            },
        }
    }
}

/// The view of a candidate's resolution.
pub open spec fn resolve_spec(
    local_path: Seq<char>,
    local: Candidate,
    user_path: Seq<char>,
    user: Candidate,
    provider: Seq<char>,
) -> Option<(ModelSource, Seq<char>)> {
    match local {
        Candidate::Missing => match user {
            Candidate::Missing => None,
            _ => Some((ModelSource::User, user_path)),
        },
        _ => Some((ModelSource::Local, local_path)),
    }
}

fn resolve_one(
    source: ModelSource,
    path: &str,
    cand: Candidate,
    provider: &str,
) -> (r: Result<LoadedModels, ModelsError>)
    requires
        !(cand is Missing),
    ensures
        match cand {
            Candidate::Parsed(c) => if c.provider@ == provider@ {
                r matches Ok(l) && l.source == source && l.path@ == path@ && l.config == c
            } else {
                r matches Err(ModelsError::ProviderMismatch { source: s, path: p, declared, requested }) && s
                    == source && p@ == path@ && declared@ == c.provider@ && requested@ == provider@
            },
            Candidate::Invalid(d) => r matches Err(ModelsError::InvalidFile { source: s, path: p, detail }) && s
                == source && p@ == path@ && detail@ == d@,
            Candidate::Missing => false,
        },
{
    match cand {
        Candidate::Parsed(c) => {
            if str_eq(c.provider.as_str(), provider) {
                Ok(LoadedModels { source, path: to_owned(path), config: c })
            } else {
                Err(
                    ModelsError::ProviderMismatch {
                        source,
                        path: to_owned(path),
                        declared: c.provider,
                        requested: to_owned(provider),
                    },
                )
            }
        },
        Candidate::Invalid(d) => Err(ModelsError::InvalidFile { source, path: to_owned(path), detail: d }),
        Candidate::Missing => Err(
            ModelsError::InvalidFile { source, path: to_owned(path), detail: String::new() },
        ),
    }
}

/// Resolve `<provider>-models.jsonc` against the two candidates, LOCAL
/// MASKS USER: the local file wins whenever it exists; the user file is
/// used only when there is no local file; no file at all is `Ok(None)`.
/// The winning file must be valid and declare `provider`.
pub fn load_from_dirs(
    local_path: &str,
    local: Candidate,
    user_path: &str,
    user: Candidate,
    provider: &str,
) -> (r: Result<Option<LoadedModels>, ModelsError>)
    ensures
        match resolve_spec(local_path@, local, user_path@, user, provider@) {
            None => r matches Ok(None),
            Some((source, path)) => {
                let cand = if source == ModelSource::Local {
                    local
                } else {
                    user
                };
                match cand {
                    Candidate::Parsed(c) => if c.provider@ == provider@ {
                        r matches Ok(Some(l)) && l.source == source && l.path@ == path && l.config == c
                    } else {
                        r matches Err(ModelsError::ProviderMismatch { source: s, path: p, declared, requested })
                            && s == source && p@ == path && declared@ == c.provider@ && requested@ == provider@
                    },
                    Candidate::Invalid(d) => r matches Err(
                        ModelsError::InvalidFile { source: s, path: p, detail },
                    ) && s == source && p@ == path && detail@ == d@,
                    Candidate::Missing => false,
                }
            },
        },
{
    match local {
        Candidate::Missing => match user {
            Candidate::Missing => Ok(None),
            _ => match resolve_one(ModelSource::User, user_path, user, provider) {
                Ok(l) => Ok(Some(l)),
                Err(e) => Err(e),
            },
        },
        _ => match resolve_one(ModelSource::Local, local_path, local, provider) {
            Ok(l) => Ok(Some(l)),
            Err(e) => Err(e),
        },
    }
}

// ------------------------------------------------------------ dates

/// The civil date of a day count since 1970-01-01 (proleptic Gregorian,
/// days-to-civil over 400-year eras of 146097 days).
pub open spec fn civil_from_days(days: nat) -> (nat, nat, nat) {
    let z = days + 719_468;
    let era = z / 146_097;
    let doe = z % 146_097;
    let yoe = (doe - doe / 1460 + doe / 36_524 - doe / 146_096) / 365;
    let y = yoe + era * 400;
    let doy = doe - (365 * yoe + yoe / 4 - yoe / 100);
    let mp = (5 * doy + 2) / 153;
    let d = doy - (153 * mp + 2) / 5 + 1;
    let m = if mp < 10 {
        mp + 3
    } else {
        mp - 9
    };
    let y2 = if m <= 2 {
        y + 1
    } else {
        y
    };
    (y2 as nat, m as nat, d as nat)
}

/// `YYYY-MM-DD` of a civil date.
pub open spec fn iso_date_spec(ymd: (nat, nat, nat)) -> Seq<char> {
    zero_pad(dec(ymd.0), 4) + "-"@ + zero_pad(dec(ymd.1), 2) + "-"@ + zero_pad(dec(ymd.2), 2)
}

/// Today's ISO 8601 UTC date (`YYYY-MM-DD`) from unix seconds.
pub fn iso_date_from_epoch_secs(epoch_secs: u64) -> (r: String)
    ensures
        r@ == iso_date_spec(civil_from_days((epoch_secs / 86_400) as nat)),
{
    let days: u64 = epoch_secs / 86_400;
    let z: u64 = days + 719_468;
    let era: u64 = z / 146_097;
    let doe: u64 = z % 146_097;
    let yoe: u64 = (doe - doe / 1460 + doe / 36_524 - doe / 146_096) / 365;
    let y: u64 = yoe + era * 400;
    let doy: u64 = doe - (365 * yoe + yoe / 4 - yoe / 100);
    let mp: u64 = (5 * doy + 2) / 153;
    let d: u64 = doy - (153 * mp + 2) / 5 + 1;
    let m: u64 = if mp < 10 {
        mp + 3
    } else {
        mp - 9
    };
    let y2: u64 = if m <= 2 {
        y + 1
    } else {
        y
    };
    let mut out = u64_to_string_padded(y2, 4);
    out.append("-");
    out.append(u64_to_string_padded(m, 2).as_str());
    out.append("-");
    out.append(u64_to_string_padded(d, 2).as_str());
    out
}

// ------------------------------------------------------------ mutations

/// Why a mutation could not be applied.
#[derive(Debug, Clone, Copy, PartialEq, Eq, Structural)]
pub enum MutationError {
    /// No model of that id in the file.
    ModelNotFound,
}

/// Set the cost strings of one model and stamp `updated` with the civil
/// date of `epoch_secs`; every other model is unchanged. An unknown model is
/// `ModelNotFound` and nothing changes.
pub fn set_cost(
    config: ProviderModelsFile,
    model_id: &str,
    input: &str,
    output: &str,
    epoch_secs: u64,
) -> (r: Result<ProviderModelsFile, MutationError>)
    ensures
        match first_model(config.models@, model_id@) {
            None => r == Err::<ProviderModelsFile, MutationError>(MutationError::ModelNotFound),
            Some(k) => r matches Ok(c) && c.provider == config.provider && c.updated@ == iso_date_spec(
                civil_from_days((epoch_secs / 86_400) as nat),
            ) && c.models@.len() == config.models@.len() && (forall|j: int|
                0 <= j < c.models@.len() && j != k ==> #[trigger] c.models@[j] == config.models@[j]) && {
                let m = c.models@[k];
                let o = config.models@[k];
                &&& m.id == o.id
                &&& m.display == o.display
                &&& m.context_window == o.context_window
                &&& m.offer == o.offer
                &&& m.costs is Some
                &&& m.costs.unwrap().input_per_mtok is Some
                &&& m.costs.unwrap().input_per_mtok.unwrap()@ == input@
                &&& m.costs.unwrap().output_per_mtok is Some
                &&& m.costs.unwrap().output_per_mtok.unwrap()@ == output@
            },
        },
{
    let mut config = config;
    match position_of(&config.models, model_id) {
        None => Err(MutationError::ModelNotFound),
        Some(k) => {
            let ghost old_models = config.models@;
            let costs = ModelCosts { input_per_mtok: Some(to_owned(input)), output_per_mtok: Some(to_owned(output)) };
            let mut models = config.models;
            let mut m = models.remove(k);
            m.costs = Some(costs);
            models.insert(k, m);
            proof {
                assert forall|j: int| 0 <= j < models@.len() && j != k implies #[trigger] models@[j]
                    == old_models[j] by {}
            }
            config.models = models;
            config.updated = iso_date_from_epoch_secs(epoch_secs);
            Ok(config)
        },
    }
}

/// Set the context window of one model and stamp `updated` with the civil
/// date of `epoch_secs`; every other model is unchanged. An unknown model is
/// `ModelNotFound` and nothing changes.
pub fn set_context(
    config: ProviderModelsFile,
    model_id: &str,
    tokens: u32,
    epoch_secs: u64,
) -> (r: Result<ProviderModelsFile, MutationError>)
    ensures
        match first_model(config.models@, model_id@) {
            None => r == Err::<ProviderModelsFile, MutationError>(MutationError::ModelNotFound),
            Some(k) => r matches Ok(c) && c.provider == config.provider && c.updated@ == iso_date_spec(
                civil_from_days((epoch_secs / 86_400) as nat),
            ) && c.models@.len() == config.models@.len() && (forall|j: int|
                0 <= j < c.models@.len() && j != k ==> #[trigger] c.models@[j] == config.models@[j]) && {
                let m = c.models@[k];
                let o = config.models@[k];
                &&& m.id == o.id
                &&& m.display == o.display
                &&& m.context_window == tokens
                &&& m.costs == o.costs
                &&& m.offer == o.offer
            },
        },
{
    let mut config = config;
    match position_of(&config.models, model_id) {
        None => Err(MutationError::ModelNotFound),
        Some(k) => {
            let ghost old_models = config.models@;
            let mut models = config.models;
            let mut m = models.remove(k);
            m.context_window = tokens;
            models.insert(k, m);
            proof {
                assert forall|j: int| 0 <= j < models@.len() && j != k implies #[trigger] models@[j]
                    == old_models[j] by {}
            }
            config.models = models;
            config.updated = iso_date_from_epoch_secs(epoch_secs);
            Ok(config)
        },
    }
}

// ------------------------------------------------------------ fetching

/// One model reported by a provider's models-listing endpoint.
#[derive(Debug, Clone)]
pub struct FetchedModel {
    pub id: String,
    pub max_context_length: Option<u64>,
}

/// Known models-listing endpoints (URL, API-key variable). Only documented
/// endpoints live here: fetching never guesses URLs.
pub fn fetch_endpoint(provider: &str) -> (r: Option<(&'static str, &'static str)>)
    ensures
        match r {
            Some((url, key)) => provider@ == "mistral"@ && url@ == "https://api.mistral.ai/v1/models"@ && key@
                == "MISTRAL_API_KEY"@,
            None => provider@ != "mistral"@,
        },
{
    if str_eq(provider, "mistral") {
        Some(("https://api.mistral.ai/v1/models", "MISTRAL_API_KEY"))
    } else {
        None
    }
}

/// The index of the first fetched model with id `id`.
pub open spec fn first_fetched(fetched: Seq<FetchedModel>, id: Seq<char>) -> Option<int>
    decreases fetched.len(),
{
    if fetched.len() == 0 {
        None
    } else if fetched[0].id@ == id {
        Some(0)
    } else {
        match first_fetched(fetched.drop_first(), id) {
            Some(k) => Some(k + 1),
            None => None,
        }
    }
}

/// What the API reports for a known model: the first listing entry with its
/// id, when that entry has a context length (saturated to `u32`).
pub open spec fn reported_window(fetched: Seq<FetchedModel>, id: Seq<char>) -> Option<u32> {
    match first_fetched(fetched, id) {
        Some(k) => match fetched[k].max_context_length {
            Some(n) => Some(if n > u32::MAX {
                u32::MAX
            } else {
                n as u32
            }),
            None => None,
        },
        None => None,
    }
}

/// The diff entries for the first `i` models of a config, in order.
pub open spec fn diff_spec(models: Seq<ProviderModel>, fetched: Seq<FetchedModel>) -> Seq<(Seq<char>, u32, u32)>
    decreases models.len(),
{
    if models.len() == 0 {
        Seq::empty()
    } else {
        let rest = diff_spec(models.drop_last(), fetched);
        let m = models.last();
        match reported_window(fetched, m.id@) {
            Some(w) => if w != m.context_window {
                rest.push((m.id@, m.context_window, w))
            } else {
                rest
            },
            None => rest,
        }
    }
}

proof fn lemma_first_fetched(fetched: Seq<FetchedModel>, id: Seq<char>)
    ensures
        match first_fetched(fetched, id) {
            Some(k) => 0 <= k < fetched.len() && fetched[k].id@ == id && forall|j: int|
                0 <= j < k ==> #[trigger] fetched[j].id@ != id,
            None => forall|j: int| 0 <= j < fetched.len() ==> #[trigger] fetched[j].id@ != id,
        },
    decreases fetched.len(),
{
    if fetched.len() > 0 {
        lemma_first_fetched(fetched.drop_first(), id);
        let t = fetched.drop_first();
        assert forall|j: int| 1 <= j < fetched.len() implies fetched[j] == t[j - 1] by {}
    }
}

fn report_for(fetched: &[FetchedModel], id: &str) -> (r: Option<u32>)
    ensures
        r == reported_window(fetched@, id@),
{
    proof {
        lemma_first_fetched(fetched@, id@);
    }
    let mut i: usize = 0;
    while i < fetched.len()
        invariant
            0 <= i <= fetched@.len(),
            forall|j: int| 0 <= j < i ==> #[trigger] fetched@[j].id@ != id@,
            match first_fetched(fetched@, id@) {
                Some(k) => 0 <= k < fetched@.len() && fetched@[k].id@ == id@ && forall|j: int|
                    0 <= j < k ==> #[trigger] fetched@[j].id@ != id@,
                None => forall|j: int| 0 <= j < fetched@.len() ==> #[trigger] fetched@[j].id@ != id@,
            },
        decreases fetched.len() - i,
    {
        if str_eq(fetched[i].id.as_str(), id) {
            proof {
                assert(first_fetched(fetched@, id@) == Some(i as int));
            }
            return match fetched[i].max_context_length {
                Some(n) => Some(
                    if n > u32::MAX as u64 {
                        u32::MAX
                    } else {
                        n as u32
                    },
                ),
                None => None,
            };
        }
        i += 1;
    }
    None
}

/// The diff one fetch would apply to a loaded config: `(id, old, new)` for
/// every known model, in file order, whose context window the API reports
/// differently. Unknown API models are ignored: a fetch never invents
/// roster entries.
pub fn fetch_diff(config: &ProviderModelsFile, fetched: &[FetchedModel]) -> (r: Vec<(String, u32, u32)>)
    ensures
        r@.len() == diff_spec(config.models@, fetched@).len(),
        forall|i: int|
            0 <= i < r@.len() ==> {
                let e = #[trigger] r@[i];
                let s = diff_spec(config.models@, fetched@)[i];
                e.0@ == s.0 && e.1 == s.1 && e.2 == s.2
            },
{
    let mut diff: Vec<(String, u32, u32)> = Vec::new();
    let mut i: usize = 0;
    while i < config.models.len()
        invariant
            0 <= i <= config.models@.len(),
            diff@.len() == diff_spec(config.models@.take(i as int), fetched@).len(),
            forall|k: int|
                0 <= k < diff@.len() ==> {
                    let e = #[trigger] diff@[k];
                    let s = diff_spec(config.models@.take(i as int), fetched@)[k];
                    e.0@ == s.0 && e.1 == s.1 && e.2 == s.2
                },
        decreases config.models.len() - i,
    {
        let model = &config.models[i];
        proof {
            assert(config.models@.take(i + 1).drop_last() =~= config.models@.take(i as int));
            assert(config.models@.take(i + 1).last() == config.models@[i as int]);
        }
        match report_for(fetched, model.id.as_str()) {
            Some(w) => {
                if w != model.context_window {
                    diff.push((model.id.clone(), model.context_window, w));
                }
            },
            None => {},
        }
        i += 1;
    }
    proof {
        assert(config.models@.take(config.models@.len() as int) =~= config.models@);
    }
    diff
}

/// A listing entry is the first one for `id` and reports `w` (its context
/// length, saturated to `u32`).
pub open spec fn first_report_is(fetched: Seq<FetchedModel>, id: Seq<char>, k: int, w: u32) -> bool {
    &&& 0 <= k < fetched.len()
    &&& fetched[k].id@ == id
    &&& forall|j: int| 0 <= j < k ==> #[trigger] fetched[j].id@ != id
    &&& fetched[k].max_context_length matches Some(n) && w == (if n > u32::MAX {
        u32::MAX
    } else {
        n as u32
    })
}

/// A diff entry `(id, old, new)` is explained by the config: some model
/// has that id and window `old`, and its first listing entry reports `new`,
/// which differs from `old`.
pub open spec fn entry_is_a_change(
    models: Seq<ProviderModel>,
    fetched: Seq<FetchedModel>,
    e: (Seq<char>, u32, u32),
) -> bool {
    exists|i: int, k: int, w: u32|
        #![trigger first_report_is(fetched, models[i].id@, k, w)]
        0 <= i < models.len() && first_report_is(fetched, models[i].id@, k, w) && w != models[i].context_window
            && e == (models[i].id@, models[i].context_window, w)
}

/// Model `i` of the config is reported with a different window.
pub open spec fn model_changed(models: Seq<ProviderModel>, fetched: Seq<FetchedModel>, i: int) -> bool {
    exists|k: int, w: u32|
        #![trigger first_report_is(fetched, models[i].id@, k, w)]
        first_report_is(fetched, models[i].id@, k, w) && w != models[i].context_window
}

/// How many models of the config are reported with a different window.
pub open spec fn changed_count(models: Seq<ProviderModel>, fetched: Seq<FetchedModel>) -> nat
    decreases models.len(),
{
    if models.len() == 0 {
        0
    } else {
        changed_count(models.drop_last(), fetched) + if model_changed(models, fetched, models.len() - 1) {
            1nat
        } else {
            0nat
        }
    }
}

/// The diff of a fetch is complete and sound: every model of the config
/// whose first listing entry reports a context length `w` different from
/// its window yields `(id, window, w)`; every diff entry is such a model's;
/// and there are exactly as many entries as such models.
pub proof fn law_fetch_diff_complete(models: Seq<ProviderModel>, fetched: Seq<FetchedModel>)
    ensures
        forall|i: int, k: int, w: u32|
            0 <= i < models.len() && #[trigger] first_report_is(fetched, models[i].id@, k, w) && w
                != models[i].context_window ==> diff_spec(models, fetched).contains(
                (models[i].id@, models[i].context_window, w),
            ),
        forall|d: int|
            0 <= d < diff_spec(models, fetched).len() ==> #[trigger] entry_is_a_change(
                models,
                fetched,
                diff_spec(models, fetched)[d],
            ),
        diff_spec(models, fetched).len() == changed_count(models, fetched),
    decreases models.len(),
{
    if models.len() > 0 {
        let prev = models.drop_last();
        law_fetch_diff_complete(prev, fetched);
        let m = models.last();
        let rest = diff_spec(prev, fetched);
        let full = diff_spec(models, fetched);
        lemma_first_fetched(fetched, m.id@);
        assert forall|i: int, k: int, w: u32|
            0 <= i < models.len() && #[trigger] first_report_is(fetched, models[i].id@, k, w) && w
                != models[i].context_window implies full.contains(
            (models[i].id@, models[i].context_window, w),
        ) by {
            lemma_first_fetched(fetched, models[i].id@);
            assert(first_fetched(fetched, models[i].id@) == Some(k)) by {
                let f = first_fetched(fetched, models[i].id@);
                if f != Some(k) {
                    let g = f.unwrap();
                    if g < k {
                        assert(fetched[g].id@ != models[i].id@);
                    } else {
                        assert(fetched[k].id@ != models[i].id@);
                    }
                }
            }
            if i < models.len() - 1 {
                assert(prev[i] == models[i]);
                assert(rest.contains((prev[i].id@, prev[i].context_window, w)));
                let x = choose|x: int| 0 <= x < rest.len() && rest[x] == (prev[i].id@, prev[i].context_window, w);
                assert(full[x] == rest[x]);
            } else {
                assert(models[i] == m);
                assert(full[full.len() - 1] == (m.id@, m.context_window, w));
            }
        }
        assert forall|d: int|
            0 <= d < full.len() implies #[trigger] entry_is_a_change(models, fetched, full[d]) by {
            if d < rest.len() {
                assert(full[d] == rest[d]);
                assert(entry_is_a_change(prev, fetched, rest[d]));
                let (i, k, w) = choose|i: int, k: int, w: u32|
                    #![trigger first_report_is(fetched, prev[i].id@, k, w)]
                    0 <= i < prev.len() && first_report_is(fetched, prev[i].id@, k, w) && w
                        != prev[i].context_window && rest[d] == (prev[i].id@, prev[i].context_window, w);
                assert(prev[i] == models[i]);
                assert(first_report_is(fetched, models[i].id@, k, w));
            } else {
                let i = models.len() - 1;
                assert(models[i] == m);
                let k = first_fetched(fetched, m.id@).unwrap();
                let w = reported_window(fetched, m.id@).unwrap();
                assert(first_report_is(fetched, models[i].id@, k, w));
                assert(full[d] == (models[i].id@, models[i].context_window, w));
            }
        }
        let last = models.len() - 1;
        assert(models[last] == m);
        assert(prev =~= models.drop_last());
        if model_changed(models, fetched, last) {
            let (k, w) = choose|k: int, w: u32|
                #![trigger first_report_is(fetched, models[last].id@, k, w)]
                first_report_is(fetched, models[last].id@, k, w) && w != models[last].context_window;
            assert(first_fetched(fetched, m.id@) == Some(k)) by {
                let f = first_fetched(fetched, m.id@);
                if f != Some(k) {
                    let g = f.unwrap();
                    if g < k {
                        assert(fetched[g].id@ != m.id@);
                    } else {
                        assert(fetched[k].id@ != m.id@);
                    }
                }
            }
            assert(reported_window(fetched, m.id@) == Some(w));
        } else {
            match reported_window(fetched, m.id@) {
                Some(w) => {
                    let k = first_fetched(fetched, m.id@).unwrap();
                    assert(first_report_is(fetched, models[last].id@, k, w));
                },
                None => {},
            }
        }
    } else {
        assert(diff_spec(models, fetched).len() == 0);
    }
}

} // verus!
