//! The vocabulary of agent model configuration and the rules that resolve a
//! provider's settings: trimmed optional values, the Anthropic API version,
//! base URLs and web search support.
use vstd::prelude::*;
use crate::scope::opt_string;
use crate::text::{append_chars, append_lit, chars_of, ends_with, string_of, strip_suffix, trim, trim_exec};

verus! {

/// The API family a provider speaks.
#[derive(Debug, Clone, Copy, PartialEq, Eq, Structural)]
pub enum AgentProviderKind {
    OpenAiResponses,
    OpenAiCompletions,
    Anthropic,
}

pub open spec fn provider_kind_name(kind: AgentProviderKind) -> Seq<char> {
    match kind {
        AgentProviderKind::OpenAiResponses => "openai_responses"@,
        AgentProviderKind::OpenAiCompletions => "openai_completions"@,
        AgentProviderKind::Anthropic => "anthropic"@,
    }
}

impl AgentProviderKind {
    /// The name the configuration file uses for the kind.
    pub fn as_str(self) -> (r: &'static str)
        ensures
            r@ == provider_kind_name(self),
    {
        match self {
            AgentProviderKind::OpenAiResponses => "openai_responses",
            AgentProviderKind::OpenAiCompletions => "openai_completions",
            AgentProviderKind::Anthropic => "anthropic",
        }
    }
}

/// Where a model entry came from.
#[derive(Debug, Clone, Copy, PartialEq, Eq, Structural)]
pub enum AgentModelSource {
    Manual,
    Discovered,
    DiscoveredWithOverride,
}

/// How model discovery went for a provider.
#[derive(Debug, Clone, PartialEq, Eq)]
pub enum ModelDiscoveryStatus {
    Disabled,
    NotStarted,
    Succeeded,
    Failed(String),
}

/// A model a provider listed.
#[derive(Debug, Clone, PartialEq, Eq)]
pub struct DiscoveredProviderModel {
    pub id: String,
    pub label: String,
    pub web_search_supported: bool,
}

/// What a user picked for an agent run, each part optional.
#[derive(Debug, Clone, PartialEq, Eq, Default)]
pub struct RigAgentConfigSelection {
    pub provider_id: Option<String>,
    pub model_id: Option<String>,
    pub reasoning_effort: Option<String>,
    pub service_label: Option<String>,
}

#[derive(Debug, Clone, Copy, PartialEq, Eq, Structural)]
pub enum WebSearchHttpMethod {
    Get,
    Post,
}

/// How a search provider is authenticated.
#[derive(Clone, PartialEq, Eq)]
pub enum WebSearchAuth {
    /// No credentials are sent.
    Unauthenticated,
    Header { header: String, prefix: Option<String>, api_key: String },
    QueryParam { param: String, api_key: String },
}

/// Where the fields of a search hit are in a provider's JSON.
#[derive(Debug, Clone, PartialEq, Eq)]
pub struct WebSearchResultMap {
    pub results_path: String,
    pub title: String,
    pub url: String,
    pub snippet: String,
    pub date: Option<String>,
    pub source: Option<String>,
}

/// A configuration that cannot be used.
#[derive(Debug, Clone, PartialEq, Eq)]
pub struct RigAgentConfigError {
    pub message: String,
}

pub open spec fn config_result(r: Result<Option<String>, RigAgentConfigError>) -> Result<Option<Seq<char>>, Seq<char>> {
    match r {
        Ok(o) => Ok(opt_string(o)),
        Err(e) => Err(e.message@),
    }
}

/// The model used when none is configured.
pub fn default_model() -> (r: String)
    ensures
        r@ == "gpt-5.2"@,
{
    "gpt-5.2".to_owned()
}

/// A value trimmed, kept only when something is left.
pub open spec fn non_empty_spec(value: Option<Seq<char>>) -> Option<Seq<char>> {
    match value {
        Some(t) => if trim(t).len() > 0 {
            Some(trim(t))
        } else {
            None
        },
        None => None,
    }
}

pub fn non_empty(value: Option<String>) -> (r: Option<String>)
    ensures
        opt_string(r) == non_empty_spec(opt_string(value)),
{
    match value {
        Some(t) => {
            let tt = trim_exec(&chars_of(t.as_str()));
            if tt.len() > 0 {
                Some(string_of(&tt))
            } else {
                None
            }
        },
        None => None,
    }
}

/// A required value, trimmed; blank is refused.
pub open spec fn require_non_empty_spec(label: Seq<char>, value: Seq<char>) -> Result<Seq<char>, Seq<char>> {
    if trim(value).len() == 0 {
        Err(label + " cannot be empty"@)
    } else {
        Ok(trim(value))
    }
}

pub fn require_non_empty(label: &str, value: String) -> (r: Result<String, RigAgentConfigError>)
    ensures
        match r {
            Ok(v) => require_non_empty_spec(label@, value@) == Ok::<Seq<char>, Seq<char>>(v@),
            Err(e) => require_non_empty_spec(label@, value@) == Err::<Seq<char>, Seq<char>>(e.message@),
        },
{
    let t = trim_exec(&chars_of(value.as_str()));
    if t.len() == 0 {
        let mut m = chars_of(label);
        append_lit(&mut m, " cannot be empty");
        return Err(RigAgentConfigError { message: string_of(&m) });
    }
    Ok(string_of(&t))
}

/// `anthropic_version` is only for Anthropic providers and never blank.
pub open spec fn anthropic_version_check(kind: AgentProviderKind, version: Option<Seq<char>>) -> Result<(), Seq<char>> {
    match version {
        None => Ok(()),
        Some(v) => if trim(v).len() == 0 {
            Err("anthropic_version cannot be empty"@)
        } else if kind != AgentProviderKind::Anthropic {
            Err("anthropic_version can only be used by anthropic providers"@)
        } else {
            Ok(())
        },
    }
}

pub fn validate_anthropic_version(kind: AgentProviderKind, version: Option<&str>) -> (r: Result<(), RigAgentConfigError>)
    ensures
        match r {
            Ok(_) => anthropic_version_check(kind, match version {
                Some(v) => Some(v@),
                None => None,
            }) is Ok,
            Err(e) => anthropic_version_check(kind, match version {
                Some(v) => Some(v@),
                None => None,
            }) == Err::<(), Seq<char>>(e.message@),
        },
{
    let v = match version {
        None => return Ok(()),
        Some(v) => v,
    };
    if trim_exec(&chars_of(v)).len() == 0 {
        return Err(RigAgentConfigError { message: "anthropic_version cannot be empty".to_owned() });
    }
    if kind != AgentProviderKind::Anthropic {
        return Err(RigAgentConfigError {
            message: "anthropic_version can only be used by anthropic providers".to_owned(),
        });
    }
    Ok(())
}

/// The API version of an Anthropic provider: as configured, else the
/// default; other providers have none.
pub open spec fn anthropic_version_of(kind: AgentProviderKind, version: Option<Seq<char>>) -> Option<Seq<char>> {
    match kind {
        AgentProviderKind::Anthropic => match non_empty_spec(version) {
            Some(v) => Some(v),
            None => Some("2023-06-01"@),
        },
        _ => None,
    }
}

pub fn resolve_anthropic_version(kind: AgentProviderKind, version: Option<String>) -> (r: Option<String>)
    ensures
        opt_string(r) == anthropic_version_of(kind, opt_string(version)),
{
    match kind {
        AgentProviderKind::Anthropic => match non_empty(version) {
            Some(v) => Some(v),
            None => Some("2023-06-01".to_owned()),
        },
        _ => None,
    }
}

/// A provider's base URL: trimmed; a trailing `#` keeps the rest verbatim;
/// OpenAI-style URLs without a trailing slash get `/v1`.
pub open spec fn base_url_of(kind: AgentProviderKind, base_url: Option<Seq<char>>) -> Result<Option<Seq<char>>, Seq<char>> {
    match non_empty_spec(base_url) {
        None => Ok(None),
        Some(u) => match strip_suffix(u, "#"@) {
            Some(raw) => match require_non_empty_spec("base_url"@, raw) {
                Ok(v) => Ok(Some(v)),
                Err(e) => Err(e),
            },
            None => match kind {
                AgentProviderKind::Anthropic => Ok(Some(u)),
                _ => if ends_with(u, "/"@) {
                    Ok(Some(u))
                } else {
                    Ok(Some(u + "/v1"@))
                },
            },
        },
    }
}

pub fn resolve_provider_base_url(kind: AgentProviderKind, base_url: Option<String>) -> (r: Result<
    Option<String>,
    RigAgentConfigError,
>)
    ensures
        config_result(r) == base_url_of(kind, opt_string(base_url)),
{
    let u = match non_empty(base_url) {
        None => return Ok(None),
        Some(u) => u,
    };
    let uc = chars_of(u.as_str());
    match crate::text::strip_suffix_lit(&uc, "#") {
        Some(raw) => match require_non_empty("base_url", string_of(&raw)) {
            Ok(v) => Ok(Some(v)),
            Err(e) => Err(e),
        },
        None => match kind {
            AgentProviderKind::Anthropic => Ok(Some(u)),
            _ => if crate::text::ends_with_lit(&uc, "/") {
                Ok(Some(u))
            } else {
                let mut v = uc;
                append_lit(&mut v, "/v1");
                Ok(Some(string_of(&v)))
            },
        },
    }
}

/// Providers whose API offers native web search unless a model says not.
pub open spec fn default_web_search(kind: AgentProviderKind) -> bool {
    kind != AgentProviderKind::OpenAiCompletions
}

pub fn provider_default_web_search_supported(kind: AgentProviderKind) -> (r: bool)
    ensures
        r == default_web_search(kind),
{
    match kind {
        AgentProviderKind::OpenAiResponses | AgentProviderKind::Anthropic => true,
        AgentProviderKind::OpenAiCompletions => false,
    }
}

/// Why a model has no web search: the configured reason, never blank, or a
/// default naming the model; supported models keep an optional reason.
pub open spec fn web_search_reason_of(model_id: Seq<char>, supported: bool, reason: Option<Seq<char>>) -> Result<
    Option<Seq<char>>,
    Seq<char>,
> {
    if !supported && (reason matches Some(r) && trim(r).len() == 0) {
        Err("web_search_unsupported_reason cannot be empty"@)
    } else if supported {
        Ok(non_empty_spec(reason))
    } else {
        match non_empty_spec(reason) {
            Some(r) => Ok(Some(r)),
            None => Ok(Some("model `"@ + model_id + "` does not support provider-native web search"@)),
        }
    }
}

pub fn web_search_reason(model_id: &str, supported: bool, reason: Option<String>) -> (r: Result<
    Option<String>,
    RigAgentConfigError,
>)
    ensures
        config_result(r) == web_search_reason_of(model_id@, supported, opt_string(reason)),
{
    let blank = match &reason {
        Some(r) => trim_exec(&chars_of(r.as_str())).len() == 0,
        None => false,
    };
    if !supported && blank {
        return Err(RigAgentConfigError { message: "web_search_unsupported_reason cannot be empty".to_owned() });
    }
    let r = non_empty(reason);
    if supported {
        return Ok(r);
    }
    match r {
        Some(r) => Ok(Some(r)),
        None => {
            let m = crate::text::surround("model `", &chars_of(model_id), "` does not support provider-native web search");
            Ok(Some(string_of(&m)))
        },
    }
}

} // verus!
