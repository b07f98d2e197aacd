use app_server_core::llm_config::{
    AgentModelSource, AgentProviderKind, DiscoveredProviderModel, ModelDiscoveryStatus, RigAgentConfigSelection,
    WebSearchAuth, WebSearchHttpMethod,
};
use app_server_core::mesh_refs::parse_u64_exec;
use app_server_core::model_registry::{
    apply_provider_model_discovery, config_from_env, into_registry, legacy_into_config, merge_provider_models,
    no_explicit_fields, registry_from_env, resolve_defaults, resolve_model, resolve_web_search_auth,
    resolve_web_search_method, rig_config_from_registry_selection, AgentConfigDefaults, AgentConfigDefaultsFile,
    AgentModelFile, AgentProviderFile, AgentsConfigFile, LegacyRigAgentConfigFile, ResolvedAgentModel,
    ResolvedAgentProvider, WebSearchProviderFile, WebSearchResultMapFile,
};

fn message<T>(r: Result<T, app_server_core::llm_config::RigAgentConfigError>) -> String {
    match r {
        Ok(_) => panic!("expected a refusal"),
        Err(e) => e.message,
    }
}

fn defaults() -> AgentConfigDefaults<f64> {
    AgentConfigDefaults { timeout_secs: 120, max_tokens: 8192, temperature: 0.7, native_web_search: true, discover_models: true }
}

fn model_file(id: &str) -> AgentModelFile<f64> {
    AgentModelFile {
        id: id.to_string(),
        label: None,
        max_tokens: None,
        temperature: None,
        reasoning_effort: None,
        service_label: None,
        native_web_search: None,
        web_search_supported: None,
        web_search_unsupported_reason: None,
    }
}

fn provider_file(id: &str, kind: AgentProviderKind, models: Vec<AgentModelFile<f64>>) -> AgentProviderFile<f64> {
    AgentProviderFile {
        id: id.to_string(),
        kind,
        api_key: Some(" sk-1 ".to_string()),
        api_key_env: None,
        base_url: None,
        anthropic_version: None,
        discover_models: None,
        models,
    }
}

fn config_file(providers: Vec<AgentProviderFile<f64>>, active_provider: &str, active_model: &str) -> AgentsConfigFile<f64, ()> {
    AgentsConfigFile {
        active_provider: active_provider.to_string(),
        active_model: active_model.to_string(),
        defaults: None,
        providers,
        active_web_search: None,
        web_search_providers: Vec::new(),
    }
}

fn manual(id: &str, max_tokens: Option<u64>, label: Option<&str>) -> ResolvedAgentModel<f64> {
    let mut explicit = no_explicit_fields();
    explicit.max_tokens = max_tokens.is_some();
    ResolvedAgentModel {
        id: id.to_string(),
        label: label.map(str::to_string),
        max_tokens: max_tokens.unwrap_or(8192),
        temperature: 0.7,
        reasoning_effort: None,
        service_label: None,
        native_web_search: true,
        web_search_supported: true,
        web_search_unsupported_reason: None,
        source: AgentModelSource::Manual,
        explicit,
    }
}

fn provider(kind: AgentProviderKind, discover: bool, models: Vec<ResolvedAgentModel<f64>>) -> ResolvedAgentProvider<f64> {
    ResolvedAgentProvider {
        id: "p".to_string(),
        kind,
        api_key: Some("k".to_string()),
        api_key_env: String::new(),
        anthropic_version: None,
        base_url: None,
        discover_models: discover,
        model_discovery_status: ModelDiscoveryStatus::NotStarted,
        defaults: defaults(),
        models,
    }
}

fn listed(id: &str) -> DiscoveredProviderModel {
    DiscoveredProviderModel { id: id.to_string(), label: format!("{id} label"), web_search_supported: true }
}

#[test]
fn listed_models_merge_with_manual_entries() {
    let p = provider(
        AgentProviderKind::OpenAiCompletions,
        true,
        vec![manual("b", Some(100), None), manual("z", None, Some("Zed"))],
    );
    let merged = merge_provider_models(&p, vec![listed("a"), listed("b")]);
    let ids: Vec<&str> = merged.iter().map(|m| m.id.as_str()).collect();
    assert_eq!(ids, vec!["a", "b", "z"]);
    assert_eq!(merged[0].source, AgentModelSource::Discovered);
    assert!(!merged[0].web_search_supported);
    assert_eq!(
        merged[0].web_search_unsupported_reason.as_deref(),
        Some("p provider model does not support provider-native web search")
    );
    assert_eq!(merged[1].source, AgentModelSource::DiscoveredWithOverride);
    assert_eq!(merged[1].max_tokens, 100);
    assert_eq!(merged[1].label.as_deref(), Some("b label"));
    assert_eq!(merged[2].source, AgentModelSource::Manual);
    assert_eq!(merged[2].label.as_deref(), Some("Zed"));
}

#[test]
fn discovery_outcomes_mark_the_provider() {
    let p = provider(AgentProviderKind::OpenAiResponses, true, vec![manual("m", None, None)]);
    let ok = apply_provider_model_discovery(&p, Ok(vec![listed("x")]));
    assert_eq!(ok.model_discovery_status, ModelDiscoveryStatus::Succeeded);
    assert_eq!(ok.models.len(), 2);
    let failed = apply_provider_model_discovery(&p, Err("timeout".to_string()));
    assert_eq!(failed.model_discovery_status, ModelDiscoveryStatus::Failed("timeout".to_string()));
    assert_eq!(failed.models.len(), 1);
    let off = provider(AgentProviderKind::OpenAiResponses, false, vec![manual("m", None, None)]);
    let off = apply_provider_model_discovery(&off, Ok(vec![listed("x")]));
    assert_eq!(off.model_discovery_status, ModelDiscoveryStatus::Disabled);
    assert_eq!(off.models.len(), 1);
}

#[test]
fn configured_models_take_defaults_and_refuse_duplicates() {
    let mut seen = Vec::new();
    let mut f = model_file(" gpt ");
    f.reasoning_effort = Some("  ".to_string());
    let m = resolve_model(&f, AgentProviderKind::OpenAiResponses, &defaults(), &mut seen).unwrap();
    assert_eq!(m.id, "gpt");
    assert_eq!(m.max_tokens, 8192);
    assert_eq!(m.reasoning_effort, None);
    assert!(m.web_search_supported);
    assert!(m.explicit.reasoning_effort);
    assert_eq!(seen, vec!["gpt".to_string()]);
    let e = resolve_model(&model_file("gpt"), AgentProviderKind::OpenAiResponses, &defaults(), &mut seen).unwrap_err();
    assert_eq!(e.message, "duplicate model id `gpt`");
    let e = resolve_model(&model_file(" "), AgentProviderKind::OpenAiResponses, &defaults(), &mut seen).unwrap_err();
    assert_eq!(e.message, "model id cannot be empty");
    let c = resolve_model(&model_file("c"), AgentProviderKind::OpenAiCompletions, &defaults(), &mut seen).unwrap();
    assert!(!c.web_search_supported);
    assert_eq!(
        c.web_search_unsupported_reason.as_deref(),
        Some("model `c` does not support provider-native web search")
    );
    let d = resolve_defaults(
        Some(AgentConfigDefaultsFile {
            timeout_secs: Some(30),
            max_tokens: None,
            temperature: Some(0.2),
            native_web_search: None,
            discover_models: Some(false),
        }),
        0.7,
    );
    assert_eq!((d.timeout_secs, d.max_tokens, d.temperature, d.discover_models), (30, 8192, 0.2, false));
}

#[test]
fn registry_checks_active_entries_and_selects_runs() {
    let env = vec![("KEY_VAR".to_string(), "from-env".to_string())];
    let mut anthropic = provider_file("anth", AgentProviderKind::Anthropic, vec![model_file("large")]);
    anthropic.api_key = None;
    anthropic.api_key_env = Some(" KEY_VAR ".to_string());
    let mut openai = provider_file("openai", AgentProviderKind::OpenAiResponses, vec![model_file("gpt")]);
    openai.base_url = Some("https://example.com".to_string());
    let reg = match into_registry(config_file(vec![openai, anthropic], "openai", "gpt"), &env, 0.7) {
        Ok(r) => r,
        Err(e) => panic!("{}", e.message),
    };
    assert_eq!(reg.providers[0].api_key.as_deref(), Some("sk-1"));
    assert_eq!(reg.providers[0].base_url.as_deref(), Some("https://example.com/v1"));
    assert_eq!(reg.providers[1].api_key.as_deref(), Some("from-env"));
    assert_eq!(reg.providers[1].api_key_env, "KEY_VAR");
    assert_eq!(reg.providers[1].anthropic_version.as_deref(), Some("2023-06-01"));
    assert_eq!(reg.providers[1].model_discovery_status, ModelDiscoveryStatus::NotStarted);

    let run = match rig_config_from_registry_selection(&reg, &RigAgentConfigSelection::default()) {
        Ok(r) => r,
        Err(e) => panic!("{}", e.message),
    };
    assert_eq!((run.provider_id.as_str(), run.model.as_str(), run.api_key.as_str()), ("openai", "gpt", "sk-1"));
    assert!(run.native_web_search);
    let pick = RigAgentConfigSelection {
        provider_id: Some("anth".to_string()),
        model_id: Some("large".to_string()),
        reasoning_effort: None,
        service_label: Some("fast".to_string()),
    };
    let run = match rig_config_from_registry_selection(&reg, &pick) {
        Ok(r) => r,
        Err(e) => panic!("{}", e.message),
    };
    assert_eq!(run.provider_kind, AgentProviderKind::Anthropic);
    assert_eq!(run.service_label.as_deref(), Some("fast"));
    let missing = RigAgentConfigSelection { model_id: Some("none".to_string()), ..RigAgentConfigSelection::default() };
    assert_eq!(message(rig_config_from_registry_selection(&reg, &missing)), "active model is missing");

    let bad = into_registry(
        config_file(vec![provider_file("openai", AgentProviderKind::OpenAiResponses, vec![model_file("gpt")])], "openai", "o1"),
        &env,
        0.7,
    );
    assert_eq!(message(bad), "active model `o1` does not exist for provider `openai`");
    let dup = into_registry(
        config_file(
            vec![
                provider_file("a", AgentProviderKind::OpenAiResponses, vec![model_file("m")]),
                provider_file(" a", AgentProviderKind::OpenAiResponses, vec![]),
            ],
            "a",
            "m",
        ),
        &env,
        0.7,
    );
    assert_eq!(message(dup), "duplicate provider id `a`");
    let mut keyless = provider_file("k", AgentProviderKind::OpenAiResponses, vec![model_file("m")]);
    keyless.api_key = None;
    keyless.api_key_env = Some("UNSET".to_string());
    assert_eq!(message(into_registry(config_file(vec![keyless], "k", "m"), &env, 0.7)), "provider API key env `UNSET` is not set");
}

#[test]
fn web_search_providers_resolve_their_request_shape() {
    assert_eq!(resolve_web_search_method(None).unwrap(), WebSearchHttpMethod::Get);
    assert_eq!(resolve_web_search_method(Some("pOsT".to_string())).unwrap(), WebSearchHttpMethod::Post);
    assert_eq!(
        resolve_web_search_method(Some("PUT".to_string())).unwrap_err().message,
        "web_search_providers.method must be GET or POST, got `PUT`"
    );
    match resolve_web_search_auth("s", Some("key".into()), Some(" X-Key ".into()), Some(String::new()), None) {
        Ok(WebSearchAuth::Header { header, prefix, api_key }) => {
            assert_eq!((header.as_str(), prefix, api_key.as_str()), ("X-Key", None, "key"));
        }
        _ => panic!("expected a header"),
    }
    assert_eq!(
        message(resolve_web_search_auth("s", None, None, None, Some("k".into()))),
        "web_search_providers `s`: auth requires api_key"
    );
    assert_eq!(
        message(resolve_web_search_auth("s", Some("key".into()), Some("h".into()), None, Some("k".into()))),
        "web_search_providers `s`: auth_header and auth_query_param are mutually exclusive"
    );
    let search = WebSearchProviderFile {
        id: "s".to_string(),
        endpoint: "https://search".to_string(),
        method: None,
        query_key: "q".to_string(),
        top_k_param: None,
        api_key: None,
        auth_header: None,
        auth_prefix: None,
        auth_query_param: None,
        max_result_chars: None,
        user_agent: None,
        params: (),
        result_map: WebSearchResultMapFile {
            results: "results".to_string(),
            title: "title".to_string(),
            url: " ".to_string(),
            snippet: "snippet".to_string(),
            date: None,
            source: None,
        },
    };
    let mut file = config_file(vec![provider_file("openai", AgentProviderKind::OpenAiResponses, vec![model_file("gpt")])], "openai", "gpt");
    file.web_search_providers = vec![search];
    file.active_web_search = Some("s".to_string());
    assert_eq!(message(into_registry(file, &Vec::new(), 0.7)), "web_search_providers `s`: result_map.url cannot be empty");
}

#[test]
fn single_provider_configurations() {
    let legacy = LegacyRigAgentConfigFile {
        api_key: "k".to_string(),
        model: None,
        timeout_secs: Some(5),
        max_tokens: None,
        temperature: None,
        reasoning_effort: Some(" high ".to_string()),
        native_web_search: None,
    };
    let c = match legacy_into_config(legacy, 0.7) {
        Ok(c) => c,
        Err(e) => panic!("{}", e.message),
    };
    assert_eq!((c.model.as_str(), c.timeout_secs, c.max_tokens), ("gpt-5.2", 5, 8192));
    assert_eq!(c.reasoning_effort.as_deref(), Some("high"));
    let empty = LegacyRigAgentConfigFile {
        api_key: String::new(),
        model: None,
        timeout_secs: None,
        max_tokens: None,
        temperature: None,
        reasoning_effort: None,
        native_web_search: None,
    };
    assert_eq!(message(legacy_into_config(empty, 0.7)), "api_key is empty");

    let pairs = |v: &[(&str, &str)]| v.iter().map(|(a, b)| (a.to_string(), b.to_string())).collect::<Vec<_>>();
    assert!(config_from_env::<f64>(&pairs(&[("BUDN_AGENT_MODEL", "x")]), None, 0.7).is_none());
    let env = pairs(&[
        ("OPENAI_API_KEY", "sk"),
        ("BUDN_AGENT_TIMEOUT_SECS", "+30"),
        ("BUDN_AGENT_MAX_TOKENS", "lots"),
        ("BUDN_AGENT_NATIVE_WEB_SEARCH", " OFF "),
    ]);
    let c = match config_from_env(&env, Some(0.1), 0.7) {
        Some(c) => c,
        None => panic!("expected a configuration"),
    };
    assert_eq!((c.api_key.as_str(), c.timeout_secs, c.max_tokens, c.temperature), ("sk", 30, 8192, 0.1));
    assert!(!c.native_web_search);
    let reg = match registry_from_env::<f64, ()>(&env, None, 0.7) {
        Some(r) => r,
        None => panic!("expected a registry"),
    };
    assert_eq!(reg.active_provider_id, "openai");
    assert_eq!(reg.providers[0].models[0].label.as_deref(), Some("gpt-5.2"));
    assert_eq!(reg.providers[0].api_key_env, "BUDN_AGENT_OPENAI_API_KEY");

    assert_eq!(parse_u64_exec(&"18446744073709551615".chars().collect::<Vec<_>>()), Some(u64::MAX));
    assert_eq!(parse_u64_exec(&"18446744073709551616".chars().collect::<Vec<_>>()), None);
}
