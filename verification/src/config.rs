//! Which language model to ask, from the environment's settings.

use vstd::prelude::*;
use crate::text::{
    copy_text, equals_str, lowercase_chars, lowercased, opt_text, push_all, string_of, to_chars,
    trim_chars, trimmed,
};

verus! {

/// A supported model provider.
#[derive(Debug, Clone, Copy, PartialEq, Eq, Structural)]
pub enum LlmProvider {
    OpenAi,
    Anthropic,
    Ollama,
}

/// How to reach a model.
#[derive(Debug, Clone)]
pub struct LlmConfig {
    pub provider: LlmProvider,
    pub api_key: Option<String>,
    pub endpoint: Option<String>,
    pub model: String,
}

/// The environment variables the configuration is read from, each `None`
/// when unset (or not valid Unicode).
#[derive(Debug, Clone)]
pub struct LlmEnv {
    pub active_provider: Option<String>,
    pub openai_api_key: Option<String>,
    pub openai_base_url: Option<String>,
    pub openai_model: Option<String>,
    pub anthropic_api_key: Option<String>,
    pub anthropic_base_url: Option<String>,
    pub anthropic_model: Option<String>,
    pub ollama_base_url: Option<String>,
    pub ollama_model: Option<String>,
}

/// The provider a (lower-cased) name selects.
pub open spec fn provider_named(name: Seq<char>) -> Option<LlmProvider> {
    if name == "openai"@ {
        Some(LlmProvider::OpenAi)
    } else if name == "anthropic"@ {
        Some(LlmProvider::Anthropic)
    } else if name == "ollama"@ {
        Some(LlmProvider::Ollama)
    } else {
        None
    }
}

/// The text of an optional setting, or `default` when unset.
pub open spec fn or_default(o: Option<String>, default: Seq<char>) -> Seq<char> {
    match o {
        Some(s) => s@,
        None => default,
    }
}

/// The configuration `load_llm_config` gives for `provider`: its key, base
/// URL and model settings, with the provider's default model (none for
/// Anthropic).
pub open spec fn config_matches(cfg: LlmConfig, p: LlmProvider, env: LlmEnv) -> bool {
    &&& cfg.provider == p
    &&& match p {
        LlmProvider::OpenAi => {
            &&& opt_text(cfg.api_key) == opt_text(env.openai_api_key)
            &&& opt_text(cfg.endpoint) == opt_text(env.openai_base_url)
            &&& cfg.model@ == or_default(env.openai_model, "gpt-4.1-mini"@)
        },
        LlmProvider::Anthropic => {
            &&& opt_text(cfg.api_key) == opt_text(env.anthropic_api_key)
            &&& opt_text(cfg.endpoint) == opt_text(env.anthropic_base_url)
            &&& cfg.model@ == or_default(env.anthropic_model, seq![])
        },
        LlmProvider::Ollama => {
            &&& cfg.api_key is None
            &&& opt_text(cfg.endpoint) == opt_text(env.ollama_base_url)
            &&& cfg.model@ == or_default(env.ollama_model, "llama3.2"@)
        },
    }
}

/// The provider setting is given and not blank.
pub open spec fn provider_set(env: LlmEnv) -> bool {
    env.active_provider matches Some(v) && trimmed(v@).len() > 0
}

fn copy_opt(o: &Option<String>) -> (r: Option<String>)
    ensures
        opt_text(r) == opt_text(*o),
{
    match o {
        Some(s) => Some(copy_text(s)),
        None => None,
    }
}

fn value_or(o: &Option<String>, default: &str) -> (r: String)
    ensures
        r@ == or_default(*o, default@),
{
    match o {
        Some(s) => copy_text(s),
        None => default.to_owned(),
    }
}

/// The provider a lower-cased provider name selects.
pub fn provider_for_name(name: &Vec<char>) -> (r: Option<LlmProvider>)
    ensures
        r == provider_named(name@),
{
    if equals_str(name, "openai") {
        Some(LlmProvider::OpenAi)
    } else if equals_str(name, "anthropic") {
        Some(LlmProvider::Anthropic)
    } else if equals_str(name, "ollama") {
        Some(LlmProvider::Ollama)
    } else {
        None
    }
}

/// The model configuration the environment selects. No provider (unset or
/// blank `ACTIVE_LLM_PROVIDER`) gives `None`; a provider name (compared in
/// lower case) other than `openai`, `anthropic` or `ollama` is an error naming
/// it; otherwise the provider's key, base URL and model are taken, the model
/// defaulting to `gpt-4.1-mini` for OpenAI and `llama3.2` for Ollama. No
/// Anthropic model name is built in: without `ANTHROPIC_MODEL` the model is
/// empty and the provider's API reports the error when asked.
pub fn load_llm_config(env: &LlmEnv) -> (r: Result<Option<LlmConfig>, String>)
    ensures
        !provider_set(*env) ==> r matches Ok(None),
        provider_set(*env) ==> ({
            let name = lowercased(env.active_provider->0@);
            match provider_named(name) {
                Some(p) => r matches Ok(Some(cfg)) && config_matches(cfg, p, *env),
                None => r matches Err(m) && m@ == "Unsupported ACTIVE_LLM_PROVIDER: "@ + name,
            }
        }),
{
    let raw = match &env.active_provider {
        Some(v) => {
            let vc = to_chars(v.as_str());
            let tv = trim_chars(&vc);
            if tv.len() == 0 {
                return Ok(None);
            }
            lowercase_chars(&vc)
        },
        None => {
            return Ok(None);
        },
    };
    let provider = match provider_for_name(&raw) {
        Some(p) => p,
        None => {
            let mut msg = to_chars("Unsupported ACTIVE_LLM_PROVIDER: ");
            push_all(&mut msg, &raw);
            return Err(string_of(&msg));
        },
    };
    proof {
        reveal_strlit("");
        assert(""@ =~= Seq::<char>::empty());
    }
    let cfg = match provider {
        LlmProvider::OpenAi => LlmConfig {
            provider,
            api_key: copy_opt(&env.openai_api_key),
            endpoint: copy_opt(&env.openai_base_url),
            model: value_or(&env.openai_model, "gpt-4.1-mini"),
        },
        LlmProvider::Anthropic => LlmConfig {
            provider,
            api_key: copy_opt(&env.anthropic_api_key),
            endpoint: copy_opt(&env.anthropic_base_url),
            model: value_or(&env.anthropic_model, ""),
        },
        LlmProvider::Ollama => LlmConfig {
            provider,
            api_key: None,
            endpoint: copy_opt(&env.ollama_base_url),
            model: value_or(&env.ollama_model, "llama3.2"),
        },
    };
    Ok(Some(cfg))
}

} // verus!
