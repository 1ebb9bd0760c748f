//! Application configuration: the provider roster (endpoints, API-key env
//! variables, models) and the JSONC comment stripper shared by every
//! configuration file of the project.
use vstd::prelude::*;

use crate::text::{push_char, str_chars, str_eq, to_owned};

verus! {

// ------------------------------------------------------------------ JSONC

/// Lexer state while stripping comments.
pub enum JsoncMode {
    Code,
    Str,
    Escape,
}

/// First position `>= j` holding `'\n'` (or the end of `s`): where a `//`
/// comment whose text starts at `j` stops.
pub open spec fn line_comment_end(s: Seq<char>, j: int) -> int
    decreases s.len() - j,
{
    if j >= s.len() || s[j] == '\n' {
        j
    } else {
        line_comment_end(s, j + 1)
    }
}

/// Scanning from `j` for the closing `*/` of a block comment: the position
/// of the `*` of the first `*/`, or the last scanned position when none
/// follows.
pub open spec fn block_comment_scan(s: Seq<char>, j: int) -> int
    decreases s.len() - j,
{
    if j + 1 >= s.len() || (s[j] == '*' && s[j + 1] == '/') {
        j
    } else {
        block_comment_scan(s, j + 1)
    }
}

pub proof fn lemma_line_comment_end(s: Seq<char>, j: int)
    requires
        0 <= j,
    ensures
        j <= line_comment_end(s, j),
        line_comment_end(s, j) <= s.len() || line_comment_end(s, j) == j,
    decreases s.len() - j,
{
    if !(j >= s.len() || s[j] == '\n') {
        lemma_line_comment_end(s, j + 1);
    }
}

pub proof fn lemma_block_comment_scan(s: Seq<char>, j: int)
    requires
        0 <= j,
    ensures
        j <= block_comment_scan(s, j),
        block_comment_scan(s, j) < s.len() || block_comment_scan(s, j) == j,
    decreases s.len() - j,
{
    if !(j + 1 >= s.len() || (s[j] == '*' && s[j + 1] == '/')) {
        lemma_block_comment_scan(s, j + 1);
    }
}

/// The output that stripping comments produces from position `i` on, in
/// lexer state `mode`: string literals (with escapes) are copied verbatim,
/// `//` comments are dropped up to (not including) the newline, `/* */`
/// comments are dropped including both delimiters (an unterminated block
/// comment swallows the rest of the text).
pub open spec fn jsonc_out(s: Seq<char>, i: int, mode: JsoncMode) -> Seq<char>
    decreases s.len() - i,
{
    if i < 0 || i >= s.len() {
        Seq::empty()
    } else {
        let c = s[i];
        match mode {
            JsoncMode::Str => seq![c] + jsonc_out(
                s,
                i + 1,
                if c == '\\' {
                    JsoncMode::Escape
                } else if c == '"' {
                    JsoncMode::Code
                } else {
                    JsoncMode::Str
                },
            ),
            JsoncMode::Escape => seq![c] + jsonc_out(s, i + 1, JsoncMode::Str),
            JsoncMode::Code => if c == '"' {
                seq![c] + jsonc_out(s, i + 1, JsoncMode::Str)
            } else if c == '/' && i + 1 < s.len() && s[i + 1] == '/' {
                let next = line_comment_end(s, i + 2);
                proof {
                    lemma_line_comment_end(s, i + 2);
                }
                if next < s.len() {
                    jsonc_out(s, next, JsoncMode::Code)
                } else {
                    Seq::empty()
                }
            } else if c == '/' && i + 1 < s.len() && s[i + 1] == '*' {
                let next = block_comment_scan(s, i + 2) + 2;
                proof {
                    lemma_block_comment_scan(s, i + 2);
                }
                if next < s.len() {
                    jsonc_out(s, next, JsoncMode::Code)
                } else {
                    Seq::empty()
                }
            } else {
                seq![c] + jsonc_out(s, i + 1, JsoncMode::Code)
            },
        }
    }
}

/// JSONC → JSON: the text with its comments removed.
pub open spec fn strip_comments_spec(s: Seq<char>) -> Seq<char> {
    jsonc_out(s, 0, JsoncMode::Code)
}

/// Strip `//` line comments and `/* */` block comments from JSONC text,
/// producing valid JSON. String contents are preserved.
pub fn strip_jsonc_comments(input: &str) -> (r: String)
    ensures
        r@ == strip_comments_spec(input@),
{
    let chars = str_chars(input);
    let ghost s = chars@;
    let mut result = String::new();
    let mut i: usize = 0;
    let mut in_string = false;
    let mut escape = false;
    while i < chars.len()
        invariant
            s == chars@,
            0 <= i <= s.len(),
            !(escape && !in_string),
            result@ + jsonc_out(
                s,
                i as int,
                if escape {
                    JsoncMode::Escape
                } else if in_string {
                    JsoncMode::Str
                } else {
                    JsoncMode::Code
                },
            ) == strip_comments_spec(s),
        decreases chars.len() - i,
    {
        let c = chars[i];
        let ghost before = result@;
        if in_string {
            push_char(&mut result, c);
            if escape {
                escape = false;
            } else if c == '\\' {
                escape = true;
            } else if c == '"' {
                in_string = false;
            }
            i += 1;
            proof {
                assert(before + (seq![c] + jsonc_out(
                    s,
                    i as int,
                    if escape {
                        JsoncMode::Escape
                    } else if in_string {
                        JsoncMode::Str
                    } else {
                        JsoncMode::Code
                    },
                )) =~= result@ + jsonc_out(
                    s,
                    i as int,
                    if escape {
                        JsoncMode::Escape
                    } else if in_string {
                        JsoncMode::Str
                    } else {
                        JsoncMode::Code
                    },
                ));
            }
            continue;
        }
        if c == '"' {
            in_string = true;
            push_char(&mut result, c);
            i += 1;
            proof {
                assert(before + (seq![c] + jsonc_out(s, i as int, JsoncMode::Str)) =~= result@
                    + jsonc_out(s, i as int, JsoncMode::Str));
            }
            continue;
        }
        if c == '/' && i + 1 < chars.len() && chars[i + 1] == '/' {
            let ghost start = i as int;
            i += 2;
            while i < chars.len() && chars[i] != '\n'
                invariant
                    s == chars@,
                    start + 2 <= i <= s.len(),
                    line_comment_end(s, start + 2) == line_comment_end(s, i as int),
                decreases chars.len() - i,
            {
                i += 1;
            }
            continue;
        }
        if c == '/' && i + 1 < chars.len() && chars[i + 1] == '*' {
            let ghost start = i as int;
            i += 2;
            while i < chars.len() && i + 1 < chars.len() && !(chars[i] == '*' && chars[i + 1]
                == '/')
                invariant
                    s == chars@,
                    start + 2 <= i <= s.len(),
                    block_comment_scan(s, start + 2) == block_comment_scan(s, i as int),
                decreases chars.len() + 1 - i,
            {
                i += 1;
            }
            if i >= chars.len() || chars.len() - i <= 2 {
                proof {
                    assert(jsonc_out(s, i + 2, JsoncMode::Code) == Seq::<char>::empty());
                    assert(result@ =~= result@ + Seq::<char>::empty());
                }
                i = chars.len();
                continue;
            }
            i += 2;
            continue;
        }
        push_char(&mut result, c);
        i += 1;
        proof {
            assert(before + (seq![c] + jsonc_out(s, i as int, JsoncMode::Code)) =~= result@
                + jsonc_out(s, i as int, JsoncMode::Code));
        }
    }
    proof {
        assert(result@ =~= result@ + Seq::<char>::empty());
    }
    result
}

proof fn lemma_jsonc_no_slash(s: Seq<char>, i: int, mode: JsoncMode)
    requires
        0 <= i <= s.len(),
        !s.contains('/'),
    ensures
        jsonc_out(s, i, mode) == s.skip(i),
    decreases s.len() - i,
{
    if i >= s.len() {
        assert(s.skip(i) =~= Seq::<char>::empty());
    } else {
        let c = s[i];
        assert(c != '/') by {
            if c == '/' {
                assert(s.contains('/'));
            }
        }
        let next = match mode {
            JsoncMode::Str => if c == '\\' {
                JsoncMode::Escape
            } else if c == '"' {
                JsoncMode::Code
            } else {
                JsoncMode::Str
            },
            JsoncMode::Escape => JsoncMode::Str,
            JsoncMode::Code => if c == '"' {
                JsoncMode::Str
            } else {
                JsoncMode::Code
            },
        };
        lemma_jsonc_no_slash(s, i + 1, next);
        assert(s.skip(i) =~= seq![c] + s.skip(i + 1));
    }
}

/// JSONC stripping never touches text without a `/`: such text is already
/// comment-free and comes out unchanged.
pub proof fn law_strip_comments_identity_without_slash(s: Seq<char>)
    requires
        !s.contains('/'),
    ensures
        strip_comments_spec(s) == s,
{
    lemma_jsonc_no_slash(s, 0, JsoncMode::Code);
    assert(s.skip(0) =~= s);
}

// ----------------------------------------------------------- the roster

/// A model definition within a provider.
pub struct ModelConfig {
    /// The model ID sent to the API.
    pub id: String,
    /// Human-readable display name.
    pub name: Option<String>,
    /// Whether this model supports thinking/reasoning.
    pub thinking: bool,
    /// If thinking is supported, the available effort levels.
    pub thinking_levels: Vec<String>,
}

/// A single provider definition.
pub struct ProviderConfig {
    /// Human-readable name for display.
    pub name: String,
    /// URL of the OpenAI-compatible chat completions endpoint.
    pub endpoint: String,
    /// Environment variable name that holds the API key.
    pub env_key: String,
    /// Optional API key given directly (takes precedence over `env_key`).
    pub api_key: Option<String>,
    /// Models available on this provider.
    pub models: Vec<ModelConfig>,
    /// Optional: which model to use as default for this provider.
    pub default_model: Option<String>,
}

/// Top-level application configuration. `providers` maps a provider name to
/// its definition; names are unique (see [`AppConfig::wf`]).
pub struct AppConfig {
    /// Which provider to use by default.
    pub default_provider: String,
    /// Which model to use by default.
    pub default_model: String,
    /// Named provider definitions, keyed by provider name.
    pub providers: Vec<(String, ProviderConfig)>,
}

/// Why a roster lookup failed.
pub enum ConfigError {
    /// No provider of that name.
    UnknownProvider { provider: String },
    /// The provider has neither a default model nor any model.
    NoModels { provider: String },
    /// The provider has no model with that id.
    ModelNotFound { provider: String, model: String },
}

impl ConfigError {
    /// The error's message.
    pub fn message(&self) -> (r: String)
        ensures
            r@ == match self {
                ConfigError::UnknownProvider { provider } => "unknown provider: "@ + provider@,
                ConfigError::NoModels { provider } => "no models configured for provider '"@ + provider@
                    + "'"@,
                ConfigError::ModelNotFound { provider, model } => "model '"@ + model@
                    + "' not found in provider '"@ + provider@ + "'"@,
            },
    {
        match self {
            ConfigError::UnknownProvider { provider } => {
                let mut m = to_owned("unknown provider: ");
                m.append(provider.as_str());
                m
            },
            ConfigError::NoModels { provider } => {
                let mut m = to_owned("no models configured for provider '");
                m.append(provider.as_str());
                m.append("'");
                m
            },
            ConfigError::ModelNotFound { provider, model } => {
                let mut m = to_owned("model '");
                m.append(model.as_str());
                m.append("' not found in provider '");
                m.append(provider.as_str());
                m.append("'");
                m
            },
        }
    }
}

/// Where a provider's API key comes from.
pub enum KeySource {
    /// The key is written in the configuration itself.
    Configured(String),
    /// The key is read from this environment variable.
    EnvVar(String),
}

impl AppConfig {
    /// Provider names are unique, like the keys of a map.
    pub open spec fn wf(&self) -> bool {
        forall|i: int, j: int|
            #![trigger self.providers@[i], self.providers@[j]]
            0 <= i < self.providers@.len() && 0 <= j < self.providers@.len() && i != j
                ==> self.providers@[i].0@ != self.providers@[j].0@
    }

    /// Position of the provider named `name`, if any.
    pub open spec fn provider_pos(&self, name: Seq<char>) -> Option<int> {
        if exists|i: int| 0 <= i < self.providers@.len() && #[trigger] self.providers@[i].0@ == name {
            Some(
                choose|i: int| 0 <= i < self.providers@.len() && #[trigger] self.providers@[i].0@ == name,
            )
        } else {
            None
        }
    }

    /// The provider named `name`.
    pub open spec fn provider_spec(&self, name: Seq<char>) -> Option<ProviderConfig> {
        match self.provider_pos(name) {
            Some(i) => Some(self.providers@[i].1),
            None => None,
        }
    }

    fn lookup(&self, name: &str) -> (r: Option<usize>)
        requires
            self.wf(),
        ensures
            match r {
                Some(i) => i < self.providers@.len() && self.providers@[i as int].0@ == name@
                    && self.provider_pos(name@) == Some(i as int),
                None => self.provider_pos(name@) is None,
            },
    {
        let mut i: usize = 0;
        while i < self.providers.len()
            invariant
                self.wf(),
                0 <= i <= self.providers@.len(),
                forall|k: int| 0 <= k < i ==> #[trigger] self.providers@[k].0@ != name@,
            decreases self.providers.len() - i,
        {
            if str_eq(self.providers[i].0.as_str(), name) {
                proof {
                    assert(self.providers@[i as int].0@ == name@);
                    let j = choose|j: int|
                        0 <= j < self.providers@.len() && #[trigger] self.providers@[j].0@ == name@;
                    assert(self.providers@[j].0@ == name@);
                    if (i as int) < j {
                        assert(self.providers@[i as int].0@ != self.providers@[j].0@);
                    }
                    if j < (i as int) {
                        assert(self.providers@[j].0@ != name@);
                    }
                    assert(j == i as int);
                }
                return Some(i);
            }
            i += 1;
        }
        None
    }

    /// A configuration from its parts, refused (`None`) when two providers
    /// share a name; the lookups need names to be unique.
    pub fn checked(default_provider: String, default_model: String, providers: Vec<(String, ProviderConfig)>) -> (r:
        Option<AppConfig>)
        ensures
            r is Some <==> (forall|i: int, j: int|
                #![trigger providers@[i], providers@[j]]
                0 <= i < providers@.len() && 0 <= j < providers@.len() && i != j ==> providers@[i].0@
                    != providers@[j].0@),
            r matches Some(c) ==> c.wf() && c.default_provider == default_provider && c.default_model
                == default_model && c.providers == providers,
    {
        let mut i: usize = 0;
        while i < providers.len()
            invariant
                0 <= i <= providers@.len(),
                forall|a: int, b: int|
                    #![trigger providers@[a], providers@[b]]
                    0 <= a < i && 0 <= b < providers@.len() && a != b ==> providers@[a].0@ != providers@[b].0@,
            decreases providers.len() - i,
        {
            let mut j: usize = 0;
            while j < providers.len()
                invariant
                    0 <= i < providers@.len(),
                    0 <= j <= providers@.len(),
                    forall|b: int|
                        #![trigger providers@[b]]
                        0 <= b < j && b != i ==> providers@[i as int].0@ != providers@[b].0@,
                decreases providers.len() - j,
            {
                if j != i && str_eq(providers[i].0.as_str(), providers[j].0.as_str()) {
                    return None;
                }
                j += 1;
            }
            proof {
                assert forall|a: int, b: int|
                    #![trigger providers@[a], providers@[b]]
                    0 <= a < i + 1 && 0 <= b < providers@.len() && a != b implies providers@[a].0@
                        != providers@[b].0@ by {
                    if a == i as int {
                        assert(providers@[i as int].0@ != providers@[b].0@);
                    }
                }
            }
            i += 1;
        }
        Some(AppConfig { default_provider, default_model, providers })
    }

    /// Built-in default config with the providers the project supports.
    pub fn defaults() -> (r: AppConfig)
        ensures
            r.wf(),
            r.default_provider@ == "mistral"@,
            r.default_model@ == "zai-glm-5-2"@,
            r.providers@.len() == 4,
            r.providers@[0].0@ == "mistral"@,
            r.providers@[1].0@ == "opencode-zen"@,
            r.providers@[2].0@ == "opencode-go"@,
            r.providers@[3].0@ == "groq"@,
            forall|i: int|
                0 <= i < 4 ==> {
                    let name = #[trigger] r.providers@[i].0@;
                    let p = r.providers@[i].1;
                    &&& crate::services::canonical_endpoint(name) == Some(p.endpoint@)
                    &&& p.api_key is None
                    &&& p.default_model is Some
                    &&& p.models@.len() >= 1
                },
            r.providers@[0].1.name@ == "Mistral"@,
            r.providers@[0].1.env_key@ == "MISTRAL_API_KEY"@,
            r.providers@[0].1.default_model.unwrap()@ == "zai-glm-5-2"@,
            r.providers@[0].1.models@.len() == 1,
            is_plain_model(r.providers@[0].1.models@[0], "zai-glm-5-2"@, "Z.ai GLM 5.2"@),
            r.providers@[1].1.name@ == "OpenCode Zen"@,
            r.providers@[1].1.env_key@ == "OPENCODE_API_KEY"@,
            r.providers@[1].1.default_model.unwrap()@ == "glm-5.2"@,
            r.providers@[1].1.models@.len() == 2,
            is_plain_model(r.providers@[1].1.models@[0], "glm-5.2"@, "GLM 5.2"@),
            is_plain_model(r.providers@[1].1.models@[1], "glm-5.1"@, "GLM 5.1"@),
            r.providers@[2].1.name@ == "OpenCode Go"@,
            r.providers@[2].1.env_key@ == "OPENCODE_API_KEY"@,
            r.providers@[2].1.default_model.unwrap()@ == "glm-5.2"@,
            r.providers@[2].1.models@.len() == 2,
            is_plain_model(r.providers@[2].1.models@[0], "glm-5.2"@, "GLM 5.2"@),
            is_plain_model(r.providers@[2].1.models@[1], "glm-5.3"@, "GLM 5.3"@),
            r.providers@[3].1.name@ == "Groq"@,
            r.providers@[3].1.env_key@ == "GROQ_API_KEY"@,
            r.providers@[3].1.default_model.unwrap()@ == "openai/gpt-oss-120b"@,
            r.providers@[3].1.models@.len() == 1,
            is_plain_model(r.providers@[3].1.models@[0], "openai/gpt-oss-120b"@, "GPT-OSS 120B"@),
    {
        proof {
            crate::services::lemma_canonical_endpoints();
        }
        let mistral = ProviderConfig {
            name: to_owned("Mistral"),
            endpoint: to_owned(crate::services::endpoint("mistral").unwrap()),
            env_key: to_owned("MISTRAL_API_KEY"),
            api_key: None,
            default_model: Some(to_owned("zai-glm-5-2")),
            models: vec![plain_model("zai-glm-5-2", "Z.ai GLM 5.2")],
        };
        let zen = ProviderConfig {
            name: to_owned("OpenCode Zen"),
            endpoint: to_owned(crate::services::endpoint("opencode-zen").unwrap()),
            env_key: to_owned("OPENCODE_API_KEY"),
            api_key: None,
            default_model: Some(to_owned("glm-5.2")),
            models: vec![plain_model("glm-5.2", "GLM 5.2"), plain_model("glm-5.1", "GLM 5.1")],
        };
        let go = ProviderConfig {
            name: to_owned("OpenCode Go"),
            endpoint: to_owned(crate::services::endpoint("opencode-go").unwrap()),
            env_key: to_owned("OPENCODE_API_KEY"),
            api_key: None,
            default_model: Some(to_owned("glm-5.2")),
            models: vec![plain_model("glm-5.2", "GLM 5.2"), plain_model("glm-5.3", "GLM 5.3")],
        };
        let groq = ProviderConfig {
            name: to_owned("Groq"),
            endpoint: to_owned(crate::services::endpoint("groq").unwrap()),
            env_key: to_owned("GROQ_API_KEY"),
            api_key: None,
            default_model: Some(to_owned("openai/gpt-oss-120b")),
            models: vec![plain_model("openai/gpt-oss-120b", "GPT-OSS 120B")],
        };
        let r = AppConfig {
            default_provider: to_owned("mistral"),
            default_model: to_owned("zai-glm-5-2"),
            providers: vec![
                (to_owned("mistral"), mistral),
                (to_owned("opencode-zen"), zen),
                (to_owned("opencode-go"), go),
                (to_owned("groq"), groq),
            ],
        };
        proof {
            reveal_strlit("mistral");
            reveal_strlit("opencode-zen");
            reveal_strlit("opencode-go");
            reveal_strlit("groq");
            assert(r.wf()) by {
                assert forall|i: int, j: int|
                    #![trigger r.providers@[i], r.providers@[j]]
                    0 <= i < r.providers@.len() && 0 <= j < r.providers@.len() && i != j
                    implies r.providers@[i].0@ != r.providers@[j].0@ by {
                    let a = r.providers@[i].0@;
                    let b = r.providers@[j].0@;
                    if a.len() == b.len() {
                        assert(a[0] != b[0] || a[9] != b[9]);
                    }
                }
            }
            crate::services::lemma_canonical_endpoints();
        }
        r
    }

    /// Where the API key of provider `provider_name` comes from: the
    /// configured `api_key` wins over the provider's env variable.
    pub fn key_source(&self, provider_name: &str) -> (r: Result<KeySource, ConfigError>)
        requires
            self.wf(),
        ensures
            match self.provider_spec(provider_name@) {
                None => r matches Err(ConfigError::UnknownProvider { provider }) && provider@
                    == provider_name@,
                Some(p) => match p.api_key {
                    Some(k) => r matches Ok(KeySource::Configured(key)) && key@ == k@,
                    None => r matches Ok(KeySource::EnvVar(var)) && var@ == p.env_key@,
                },
            },
    {
        match self.lookup(provider_name) {
            None => Err(ConfigError::UnknownProvider { provider: to_owned(provider_name) }),
            Some(i) => {
                let p = &self.providers[i].1;
                match &p.api_key {
                    Some(k) => Ok(KeySource::Configured(k.clone())),
                    None => Ok(KeySource::EnvVar(p.env_key.clone())),
                }
            },
        }
    }

    /// Get the endpoint URL for a provider.
    pub fn endpoint(&self, provider_name: &str) -> (r: Result<&str, ConfigError>)
        requires
            self.wf(),
        ensures
            match self.provider_spec(provider_name@) {
                None => r matches Err(ConfigError::UnknownProvider { provider }) && provider@
                    == provider_name@,
                Some(p) => r matches Ok(e) && e@ == p.endpoint@,
            },
    {
        match self.lookup(provider_name) {
            None => Err(ConfigError::UnknownProvider { provider: to_owned(provider_name) }),
            Some(i) => Ok(self.providers[i].1.endpoint.as_str()),
        }
    }

    /// Get the default model ID for a provider: its `default_model`, else its
    /// first model.
    pub fn default_model_id(&self, provider_name: &str) -> (r: Result<&str, ConfigError>)
        requires
            self.wf(),
        ensures
            match self.provider_spec(provider_name@) {
                None => r matches Err(ConfigError::UnknownProvider { provider }) && provider@
                    == provider_name@,
                Some(p) => match p.default_model {
                    Some(m) => r matches Ok(id) && id@ == m@,
                    None => if p.models@.len() > 0 {
                        r matches Ok(id) && id@ == p.models@[0].id@
                    } else {
                        r matches Err(ConfigError::NoModels { provider }) && provider@
                            == provider_name@
                    },
                },
            },
    {
        match self.lookup(provider_name) {
            None => Err(ConfigError::UnknownProvider { provider: to_owned(provider_name) }),
            Some(i) => {
                let p = &self.providers[i].1;
                match &p.default_model {
                    Some(m) => Ok(m.as_str()),
                    None => {
                        if p.models.len() > 0 {
                            Ok(p.models[0].id.as_str())
                        } else {
                            Err(ConfigError::NoModels { provider: to_owned(provider_name) })
                        }
                    },
                }
            },
        }
    }

    /// Find a model config by ID within a provider (the first with that id).
    pub fn find_model(&self, provider_name: &str, model_id: &str) -> (r: Result<
        &ModelConfig,
        ConfigError,
    >)
        requires
            self.wf(),
        ensures
            match self.provider_spec(provider_name@) {
                None => r matches Err(ConfigError::UnknownProvider { provider }) && provider@
                    == provider_name@,
                Some(p) => match r {
                    Ok(m) => exists|k: int|
                        0 <= k < p.models@.len() && p.models@[k] == *m && m.id@ == model_id@
                            && forall|j: int| 0 <= j < k ==> #[trigger] p.models@[j].id@ != model_id@,
                    Err(e) => (e matches ConfigError::ModelNotFound { provider, model } && provider@
                        == provider_name@ && model@ == model_id@) && forall|j: int|
                        0 <= j < p.models@.len() ==> #[trigger] p.models@[j].id@ != model_id@,
                },
            },
    {
        match self.lookup(provider_name) {
            None => Err(ConfigError::UnknownProvider { provider: to_owned(provider_name) }),
            Some(i) => {
                let p = &self.providers[i].1;
                let mut k: usize = 0;
                while k < p.models.len()
                    invariant
                        self.provider_spec(provider_name@) == Some(*p),
                        0 <= k <= p.models@.len(),
                        forall|j: int| 0 <= j < k ==> #[trigger] p.models@[j].id@ != model_id@,
                    decreases p.models.len() - k,
                {
                    if str_eq(p.models[k].id.as_str(), model_id) {
                        proof {
                            let pm = self.provider_spec(provider_name@).unwrap().models@;
                            assert(0 <= k < pm.len() && pm[k as int] == p.models@[k as int]
                                && p.models@[k as int].id@ == model_id@);
                        }
                        return Ok(&p.models[k]);
                    }
                    k += 1;
                }
                Err(
                    ConfigError::ModelNotFound {
                        provider: to_owned(provider_name),
                        model: to_owned(model_id),
                    },
                )
            },
        }
    }

    /// List all provider names, in roster order.
    pub fn provider_names(&self) -> (r: Vec<String>)
        ensures
            r@.len() == self.providers@.len(),
            forall|i: int| 0 <= i < r@.len() ==> #[trigger] r@[i]@ == self.providers@[i].0@,
    {
        let mut out: Vec<String> = Vec::new();
        let mut i: usize = 0;
        while i < self.providers.len()
            invariant
                0 <= i <= self.providers@.len(),
                out@.len() == i,
                forall|k: int| 0 <= k < i ==> #[trigger] out@[k]@ == self.providers@[k].0@,
            decreases self.providers.len() - i,
        {
            out.push(self.providers[i].0.clone());
            i += 1;
        }
        out
    }
}

/// A model entry with this id and display name that does not think.
pub open spec fn is_plain_model(m: ModelConfig, id: Seq<char>, name: Seq<char>) -> bool {
    &&& m.id@ == id
    &&& m.name matches Some(n) && n@ == name
    &&& !m.thinking
    &&& m.thinking_levels@.len() == 0
}

fn plain_model(id: &str, name: &str) -> (r: ModelConfig)
    ensures
        is_plain_model(r, id@, name@),
{
    ModelConfig {
        id: to_owned(id),
        name: Some(to_owned(name)),
        thinking: false,
        thinking_levels: Vec::new(),
    }
}

} // verus!
