//! The services model. A service is an endpoint plus an API key; the known
//! services are `groq`, `mistral`, `opencode-go` and `opencode-zen`. A
//! service is connected when its key resolves (config override, then the
//! per-service environment chain) and enabled unless listed as disabled.
use vstd::prelude::*;

use crate::text::{str_eq, to_owned};

verus! {

/// The known services, sorted.
pub const KNOWN_SERVICES: [&'static str; 4] = ["groq", "mistral", "opencode-go", "opencode-zen"];

/// Whether `s` names a known service.
pub open spec fn is_known_spec(s: Seq<char>) -> bool {
    s == "groq"@ || s == "mistral"@ || s == "opencode-go"@ || s == "opencode-zen"@
}

/// The canonical chat-completions endpoint of each known service.
pub open spec fn canonical_endpoint(s: Seq<char>) -> Option<Seq<char>> {
    if s == "mistral"@ {
        Some("https://api.mistral.ai/v1/chat/completions"@)
    } else if s == "groq"@ {
        Some("https://api.groq.com/openai/v1/chat/completions"@)
    } else if s == "opencode-zen"@ {
        Some("https://opencode.ai/zen/v1/chat/completions"@)
    } else if s == "opencode-go"@ {
        Some("https://opencode.ai/zen/go/v1/chat/completions"@)
    } else {
        None
    }
}

/// The per-service env-key chain: the first variable that is set wins;
/// both OpenCode services fall back to the shared `OPENCODE_API_KEY`.
pub open spec fn env_keys_spec(s: Seq<char>) -> Option<Seq<Seq<char>>> {
    if s == "mistral"@ {
        Some(seq!["MISTRAL_API_KEY"@])
    } else if s == "groq"@ {
        Some(seq!["GROQ_API_KEY"@])
    } else if s == "opencode-zen"@ {
        Some(seq!["OPENCODE_ZEN_API_KEY"@, "OPENCODE_API_KEY"@])
    } else if s == "opencode-go"@ {
        Some(seq!["OPENCODE_GO_API_KEY"@, "OPENCODE_API_KEY"@])
    } else {
        None
    }
}

/// The four service names are pairwise distinct and each is known; each
/// has an endpoint and an env chain.
pub proof fn lemma_canonical_endpoints()
    ensures
        "groq"@ != "mistral"@,
        "groq"@ != "opencode-go"@,
        "groq"@ != "opencode-zen"@,
        "mistral"@ != "opencode-go"@,
        "mistral"@ != "opencode-zen"@,
        "opencode-go"@ != "opencode-zen"@,
        canonical_endpoint("mistral"@) == Some("https://api.mistral.ai/v1/chat/completions"@),
        canonical_endpoint("groq"@) == Some("https://api.groq.com/openai/v1/chat/completions"@),
        canonical_endpoint("opencode-zen"@) == Some("https://opencode.ai/zen/v1/chat/completions"@),
        canonical_endpoint("opencode-go"@) == Some(
            "https://opencode.ai/zen/go/v1/chat/completions"@,
        ),
{
    reveal_strlit("groq");
    reveal_strlit("mistral");
    reveal_strlit("opencode-go");
    reveal_strlit("opencode-zen");
    assert("groq"@[0] != "mistral"@[0]);
    assert("groq"@[0] != "opencode-go"@[0]);
    assert("groq"@[0] != "opencode-zen"@[0]);
    assert("mistral"@[0] != "opencode-go"@[0]);
    assert("mistral"@[0] != "opencode-zen"@[0]);
    assert("opencode-go"@.len() != "opencode-zen"@.len());
}

/// Is `service` one of the known services?
pub fn is_known(service: &str) -> (r: bool)
    ensures
        r == is_known_spec(service@),
{
    str_eq(service, "groq") || str_eq(service, "mistral") || str_eq(service, "opencode-go")
        || str_eq(service, "opencode-zen")
}

/// The per-service env-key chain (see [`env_keys_spec`]); `None` for an
/// unknown service.
pub fn env_keys(service: &str) -> (r: Option<Vec<&'static str>>)
    ensures
        match env_keys_spec(service@) {
            None => r is None,
            Some(keys) => r matches Some(v) && v@.len() == keys.len() && forall|i: int|
                0 <= i < keys.len() ==> #[trigger] v@[i]@ == keys[i],
        },
{
    proof {
        lemma_canonical_endpoints();
    }
    if str_eq(service, "mistral") {
        Some(vec!["MISTRAL_API_KEY"])
    } else if str_eq(service, "groq") {
        Some(vec!["GROQ_API_KEY"])
    } else if str_eq(service, "opencode-zen") {
        Some(vec!["OPENCODE_ZEN_API_KEY", "OPENCODE_API_KEY"])
    } else if str_eq(service, "opencode-go") {
        Some(vec!["OPENCODE_GO_API_KEY", "OPENCODE_API_KEY"])
    } else {
        None
    }
}

/// The canonical chat-completions endpoint of a service (see
/// [`canonical_endpoint`]); `None` for an unknown service.
pub fn endpoint(service: &str) -> (r: Option<&'static str>)
    ensures
        match canonical_endpoint(service@) {
            None => r is None,
            Some(e) => r matches Some(x) && x@ == e,
        },
{
    if str_eq(service, "mistral") {
        Some("https://api.mistral.ai/v1/chat/completions")
    } else if str_eq(service, "groq") {
        Some("https://api.groq.com/openai/v1/chat/completions")
    } else if str_eq(service, "opencode-zen") {
        Some("https://opencode.ai/zen/v1/chat/completions")
    } else if str_eq(service, "opencode-go") {
        Some("https://opencode.ai/zen/go/v1/chat/completions")
    } else {
        None
    }
}

/// The first non-empty value among the observed lookups, if any.
pub open spec fn first_nonempty(obs: Seq<Option<String>>) -> Option<Seq<char>>
    decreases obs.len(),
{
    if obs.len() == 0 {
        None
    } else {
        if obs[0] is Some && obs[0].unwrap()@.len() > 0 {
            Some(obs[0].unwrap()@)
        } else {
            first_nonempty(obs.drop_first())
        }
    }
}

proof fn lemma_first_nonempty_push(obs: Seq<Option<String>>, o: Option<String>)
    requires
        first_nonempty(obs) is None,
    ensures
        first_nonempty(obs.push(o)) == if o is Some && o.unwrap()@.len() > 0 {
            Some(o.unwrap()@)
        } else {
            None::<Seq<char>>
        },
    decreases obs.len(),
{
    assert(obs.push(o)[0] == if obs.len() == 0 { o } else { obs[0] });
    if obs.len() == 0 {
        assert(obs.push(o).drop_first() =~= Seq::<Option<String>>::empty());
        assert(first_nonempty(Seq::<Option<String>>::empty()) is None);
    } else {
        assert(obs.push(o).drop_first() =~= obs.drop_first().push(o));
        lemma_first_nonempty_push(obs.drop_first(), o);
    }
}

/// Resolve the API key for a service: a non-empty config override first,
/// then the per-service env chain, asking `lookup` for each variable in
/// order and taking the first non-empty value. An empty value counts as
/// absent; an unknown service has no key.
pub fn resolve_key(
    service: &str,
    config_override: Option<&str>,
    lookup: impl Fn(&str) -> Option<String>,
) -> (r: Option<String>)
    requires
        forall|k: &str| #[trigger] call_requires(lookup, (k,)),
    ensures
        (config_override is Some && config_override.unwrap()@.len() > 0) ==> (r is Some
            && r.unwrap()@ == config_override.unwrap()@),
        !(config_override is Some && config_override.unwrap()@.len() > 0) ==> {
            match env_keys_spec(service@) {
                None => r is None,
                Some(keys) => exists|obs: Seq<Option<String>>|
                    obs.len() <= keys.len() && (forall|i: int|
                        0 <= i < obs.len() ==> exists|k: &str|
                            k@ == keys[i] && call_ensures(lookup, (k,), #[trigger] obs[i]))
                        && (r is None ==> obs.len() == keys.len()) && match r {
                        None => first_nonempty(obs) is None,
                        Some(v) => first_nonempty(obs) == Some(v@),
                    },
            }
        },
{
    if let Some(key) = config_override {
        if key.unicode_len() > 0 {
            return Some(to_owned(key));
        }
    }
    let keys = match env_keys(service) {
        Some(keys) => keys,
        None => return None,
    };
    let ghost ks = env_keys_spec(service@).unwrap();
    let ghost mut obs: Seq<Option<String>> = Seq::empty();
    let mut i: usize = 0;
    while i < keys.len()
        invariant
            env_keys_spec(service@) == Some(ks),
            keys@.len() == ks.len(),
            forall|j: int| 0 <= j < ks.len() ==> #[trigger] keys@[j]@ == ks[j],
            forall|k: &str| #[trigger] call_requires(lookup, (k,)),
            0 <= i <= keys@.len(),
            obs.len() == i,
            forall|j: int|
                0 <= j < obs.len() ==> exists|k: &str|
                    k@ == ks[j] && call_ensures(lookup, (k,), #[trigger] obs[j]),
            first_nonempty(obs) is None,
            !(config_override is Some && config_override.unwrap()@.len() > 0),
        decreases keys.len() - i,
    {
        let k = keys[i];
        let v = lookup(k);
        proof {
            lemma_first_nonempty_push(obs, v);
            let old_obs = obs;
            obs = obs.push(v);
            assert forall|j: int|
                0 <= j < obs.len() implies exists|k2: &str|
                k2@ == ks[j] && call_ensures(lookup, (k2,), #[trigger] obs[j]) by {
                if j < old_obs.len() {
                    assert(obs[j] == old_obs[j]);
                } else {
                    assert(keys@[j]@ == ks[j]);
                }
            }
        }
        match v {
            Some(val) => {
                if val.unicode_len() > 0 {
                    return Some(val);
                }
            },
            None => {},
        }
        i += 1;
    }
    None
}

/// Is the service enabled (not named in the disabled list)?
pub fn is_enabled(service: &str, disabled_services: &[String]) -> (r: bool)
    ensures
        r == !exists|i: int| 0 <= i < disabled_services@.len() && #[trigger] disabled_services@[i]@ == service@,
{
    let mut i: usize = 0;
    while i < disabled_services.len()
        invariant
            0 <= i <= disabled_services@.len(),
            forall|j: int| 0 <= j < i ==> #[trigger] disabled_services@[j]@ != service@,
        decreases disabled_services.len() - i,
    {
        if str_eq(disabled_services[i].as_str(), service) {
            return false;
        }
        i += 1;
    }
    true
}


/// Which provider a service is served by, with the settings it is built
/// with.
#[derive(Debug, Clone)]
pub enum ProviderPlan {
    /// Mistral's API; `None` keeps the provider's default model.
    Mistral { model: Option<String> },
    /// Groq's API; `None` keeps the provider's default model.
    Groq { model: Option<String> },
    /// The legacy config-only OpenAI provider (not a listed service).
    OpenAi { model: Option<String> },
    /// An OpenAI-compatible OpenCode endpoint with an explicit model.
    OpenCode { endpoint: String, model: String },
}

/// The model override of a plan: an empty `model` keeps the default.
pub open spec fn model_override(model: Seq<char>) -> Option<Seq<char>> {
    if model.len() == 0 {
        None
    } else {
        Some(model)
    }
}

/// The view of an optional string.
pub open spec fn opt_view(o: Option<String>) -> Option<Seq<char>> {
    match o {
        Some(s) => Some(s@),
        None => None,
    }
}

/// How a service's provider is built: `mistral`, `groq` and the legacy
/// `openai` take the model when it is non-empty; both OpenCode services
/// use a non-empty configured endpoint, else their canonical one, and the
/// model as given. Any other service is `unknown service: <name>`.
pub fn provider_plan(service: &str, model: &str, config_endpoint: Option<&str>) -> (r: Result<
    ProviderPlan,
    String,
>)
    ensures
        service@ == "mistral"@ ==> (r matches Ok(ProviderPlan::Mistral { model: m }) && opt_view(m)
            == model_override(model@)),
        service@ == "groq"@ ==> (r matches Ok(ProviderPlan::Groq { model: m }) && opt_view(m)
            == model_override(model@)),
        service@ == "openai"@ ==> (r matches Ok(ProviderPlan::OpenAi { model: m }) && opt_view(m)
            == model_override(model@)),
        (service@ == "opencode-zen"@ || service@ == "opencode-go"@) ==> (r matches Ok(
            ProviderPlan::OpenCode { endpoint: e, model: m },
        ) && m@ == model@ && e@ == match config_endpoint {
            Some(c) => if c@.len() > 0 {
                c@
            } else {
                canonical_endpoint(service@).unwrap()
            },
            None => canonical_endpoint(service@).unwrap(),
        }),
        !(is_known_spec(service@) || service@ == "openai"@) ==> (r matches Err(e) && e@ == "unknown service: "@
            + service@),
{
    proof {
        lemma_canonical_endpoints();
        reveal_strlit("openai");
        reveal_strlit("mistral");
        reveal_strlit("groq");
        reveal_strlit("opencode-zen");
        reveal_strlit("opencode-go");
        assert("openai"@[0] != "mistral"@[0]);
        assert("openai"@[0] != "groq"@[0]);
        assert("openai"@.len() != "opencode-zen"@.len());
        assert("openai"@.len() != "opencode-go"@.len());
    }
    let m: Option<String> = if model.unicode_len() == 0 {
        None
    } else {
        Some(to_owned(model))
    };
    if str_eq(service, "mistral") {
        Ok(ProviderPlan::Mistral { model: m })
    } else if str_eq(service, "groq") {
        Ok(ProviderPlan::Groq { model: m })
    } else if str_eq(service, "openai") {
        Ok(ProviderPlan::OpenAi { model: m })
    } else if str_eq(service, "opencode-zen") || str_eq(service, "opencode-go") {
        let ep: String = match config_endpoint {
            Some(c) => {
                if c.unicode_len() > 0 {
                    to_owned(c)
                } else {
                    match endpoint(service) {
                        Some(e) => to_owned(e),
                        None => {
                            let mut msg = to_owned("no canonical endpoint for service '");
                            msg.append(service);
                            msg.append("'");
                            return Err(msg);
                        },
                    }
                }
            },
            None => match endpoint(service) {
                Some(e) => to_owned(e),
                None => {
                    let mut msg = to_owned("no canonical endpoint for service '");
                    msg.append(service);
                    msg.append("'");
                    return Err(msg);
                },
            },
        };
        Ok(ProviderPlan::OpenCode { endpoint: ep, model: to_owned(model) })
    } else {
        let mut msg = to_owned("unknown service: ");
        msg.append(service);
        Err(msg)
    }
}

} // verus!
