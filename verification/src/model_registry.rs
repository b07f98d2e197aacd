//! The agent model registry: the providers and models that the agent
//! configuration declares, merged with the models that providers list, and
//! the settings that an agent run takes from it.
//!
//! A model's sampling temperature is a value of the type parameter `T`: the
//! rules carry it from the configuration to the run and never look at it.
use vstd::prelude::*;
use crate::llm_config::{
    AgentModelSource, AgentProviderKind, DiscoveredProviderModel, ModelDiscoveryStatus,
    RigAgentConfigError, RigAgentConfigSelection, WebSearchAuth, WebSearchHttpMethod, WebSearchResultMap, anthropic_version_check, anthropic_version_of, base_url_of, default_web_search,
    non_empty, non_empty_spec, provider_default_web_search_supported, require_non_empty,
    require_non_empty_spec, resolve_anthropic_version, resolve_provider_base_url,
    validate_anthropic_version, web_search_reason, web_search_reason_of, default_model,
};
use crate::scope::opt_string;
use crate::mesh_refs::{parse_u64, parse_u64_exec};
use crate::plan_package::string_views;
use crate::text::{chars_of, eq_lit, lower_exec, lower_seq, seq_eq, string_of, surround, trim, trim_exec};

verus! {

/// Which of a model's settings its configuration entry gave itself.
#[derive(Debug, Clone, Copy, PartialEq, Eq, Structural)]
pub struct ModelExplicitFields {
    pub max_tokens: bool,
    pub temperature: bool,
    pub reasoning_effort: bool,
    pub service_label: bool,
    pub native_web_search: bool,
    pub web_search_supported: bool,
    pub web_search_unsupported_reason: bool,
}

pub open spec fn none_explicit() -> ModelExplicitFields {
    ModelExplicitFields {
        max_tokens: false,
        temperature: false,
        reasoning_effort: false,
        service_label: false,
        native_web_search: false,
        web_search_supported: false,
        web_search_unsupported_reason: false,
    }
}

/// No setting given explicitly.
pub fn no_explicit_fields() -> (r: ModelExplicitFields)
    ensures
        r == none_explicit(),
{
    ModelExplicitFields {
        max_tokens: false,
        temperature: false,
        reasoning_effort: false,
        service_label: false,
        native_web_search: false,
        web_search_supported: false,
        web_search_unsupported_reason: false,
    }
}

/// A model of a provider, with every setting resolved.
#[derive(Debug)]
pub struct ResolvedAgentModel<T> {
    pub id: String,
    pub label: Option<String>,
    pub max_tokens: u64,
    pub temperature: T,
    pub reasoning_effort: Option<String>,
    pub service_label: Option<String>,
    pub native_web_search: bool,
    pub web_search_supported: bool,
    pub web_search_unsupported_reason: Option<String>,
    pub source: AgentModelSource,
    pub explicit: ModelExplicitFields,
}

/// A resolved model by its views.
pub struct ModelView<T> {
    pub id: Seq<char>,
    pub label: Option<Seq<char>>,
    pub max_tokens: u64,
    pub temperature: T,
    pub reasoning_effort: Option<Seq<char>>,
    pub service_label: Option<Seq<char>>,
    pub native_web_search: bool,
    pub web_search_supported: bool,
    pub web_search_unsupported_reason: Option<Seq<char>>,
    pub source: AgentModelSource,
    pub explicit: ModelExplicitFields,
}

pub open spec fn model_view<T>(m: ResolvedAgentModel<T>) -> ModelView<T> {
    ModelView {
        id: m.id@,
        label: opt_string(m.label),
        max_tokens: m.max_tokens,
        temperature: m.temperature,
        reasoning_effort: opt_string(m.reasoning_effort),
        service_label: opt_string(m.service_label),
        native_web_search: m.native_web_search,
        web_search_supported: m.web_search_supported,
        web_search_unsupported_reason: opt_string(m.web_search_unsupported_reason),
        source: m.source,
        explicit: m.explicit,
    }
}

pub open spec fn model_views<T>(v: Seq<ResolvedAgentModel<T>>) -> Seq<ModelView<T>> {
    v.map_values(|m: ResolvedAgentModel<T>| model_view(m))
}

fn clone_text(s: &String) -> (r: String)
    ensures
        r@ == s@,
{
    s.as_str().to_owned()
}

fn clone_opt_text(o: &Option<String>) -> (r: Option<String>)
    ensures
        opt_string(r) == opt_string(*o),
{
    match o {
        Some(s) => Some(clone_text(s)),
        None => None,
    }
}

/// A copy of a model.
pub fn clone_model<T: Copy>(m: &ResolvedAgentModel<T>) -> (r: ResolvedAgentModel<T>)
    ensures
        model_view(r) == model_view(*m),
{
    ResolvedAgentModel {
        id: clone_text(&m.id),
        label: clone_opt_text(&m.label),
        max_tokens: m.max_tokens,
        temperature: m.temperature,
        reasoning_effort: clone_opt_text(&m.reasoning_effort),
        service_label: clone_opt_text(&m.service_label),
        native_web_search: m.native_web_search,
        web_search_supported: m.web_search_supported,
        web_search_unsupported_reason: clone_opt_text(&m.web_search_unsupported_reason),
        source: m.source,
        explicit: m.explicit,
    }
}

/// The settings a model takes when neither it nor its provider gives them.
#[derive(Debug, Clone, Copy)]
pub struct AgentConfigDefaults<T> {
    pub timeout_secs: u64,
    pub max_tokens: u64,
    pub temperature: T,
    pub native_web_search: bool,
    pub discover_models: bool,
}

/// A provider with its settings and models resolved.
#[derive(Debug)]
pub struct ResolvedAgentProvider<T> {
    pub id: String,
    pub kind: AgentProviderKind,
    pub api_key: Option<String>,
    pub api_key_env: String,
    pub anthropic_version: Option<String>,
    pub base_url: Option<String>,
    pub discover_models: bool,
    pub model_discovery_status: ModelDiscoveryStatus,
    pub defaults: AgentConfigDefaults<T>,
    pub models: Vec<ResolvedAgentModel<T>>,
}

// ---------------------------------------------------------------------------
// Listed models and manual entries

/// A listed model by its views: id, label, whether the listing offers web
/// search.
pub open spec fn listed_view(d: DiscoveredProviderModel) -> (Seq<char>, Seq<char>, bool) {
    (d.id@, d.label@, d.web_search_supported)
}

pub open spec fn listed_views(v: Seq<DiscoveredProviderModel>) -> Seq<(Seq<char>, Seq<char>, bool)> {
    v.map_values(|d: DiscoveredProviderModel| listed_view(d))
}

/// The model that a listed model becomes: labelled by the listing, with
/// the provider's defaults and no explicit setting; it has web search where
/// both the listing and the provider's API offer it, else a reason that
/// names the provider.
pub open spec fn discovered_model<T>(
    provider_id: Seq<char>,
    kind: AgentProviderKind,
    defaults: AgentConfigDefaults<T>,
    d: (Seq<char>, Seq<char>, bool),
) -> ModelView<T> {
    let web_search = d.2 && default_web_search(kind);
    ModelView {
        id: d.0,
        label: Some(d.1),
        max_tokens: defaults.max_tokens,
        temperature: defaults.temperature,
        reasoning_effort: None,
        service_label: None,
        native_web_search: defaults.native_web_search,
        web_search_supported: web_search,
        web_search_unsupported_reason: if web_search {
            None
        } else {
            Some(provider_id + " provider model does not support provider-native web search"@)
        },
        source: AgentModelSource::Discovered,
        explicit: none_explicit(),
    }
}

pub fn discovered_to_resolved_model<T: Copy>(provider: &ResolvedAgentProvider<T>, discovered: DiscoveredProviderModel) -> (r:
    ResolvedAgentModel<T>)
    ensures
        model_view(r) == discovered_model(provider.id@, provider.kind, provider.defaults, listed_view(discovered)),
{
    let web_search = discovered.web_search_supported && crate::llm_config::provider_default_web_search_supported(
        provider.kind,
    );
    let reason = if web_search {
        None
    } else {
        Some(string_of(&surround("", &chars_of(provider.id.as_str()), " provider model does not support provider-native web search")))
    };
    proof {
        reveal_strlit("");
        assert(""@ + provider.id@ =~= provider.id@);
    }
    ResolvedAgentModel {
        id: discovered.id,
        label: Some(discovered.label),
        max_tokens: provider.defaults.max_tokens,
        temperature: provider.defaults.temperature,
        reasoning_effort: None,
        service_label: None,
        native_web_search: provider.defaults.native_web_search,
        web_search_supported: web_search,
        web_search_unsupported_reason: reason,
        source: AgentModelSource::Discovered,
        explicit: no_explicit_fields(),
    }
}

/// A listed model with a manual entry's explicit settings laid over it: the
/// manual label where it has one, each explicit setting, an explicit web
/// search support clearing the old reason when it is given as supported,
/// an explicit reason last; the model is then marked as overridden.
pub open spec fn overridden<T>(e: ModelView<T>, m: ModelView<T>) -> ModelView<T> {
    let reason = if m.explicit.web_search_unsupported_reason {
        m.web_search_unsupported_reason
    } else if m.explicit.web_search_supported && m.web_search_supported {
        None
    } else {
        e.web_search_unsupported_reason
    };
    ModelView {
        id: e.id,
        label: if m.label is Some {
            m.label
        } else {
            e.label
        },
        max_tokens: if m.explicit.max_tokens {
            m.max_tokens
        } else {
            e.max_tokens
        },
        temperature: if m.explicit.temperature {
            m.temperature
        } else {
            e.temperature
        },
        reasoning_effort: if m.explicit.reasoning_effort {
            m.reasoning_effort
        } else {
            e.reasoning_effort
        },
        service_label: if m.explicit.service_label {
            m.service_label
        } else {
            e.service_label
        },
        native_web_search: if m.explicit.native_web_search {
            m.native_web_search
        } else {
            e.native_web_search
        },
        web_search_supported: if m.explicit.web_search_supported {
            m.web_search_supported
        } else {
            e.web_search_supported
        },
        web_search_unsupported_reason: reason,
        source: AgentModelSource::DiscoveredWithOverride,
        explicit: e.explicit,
    }
}

pub fn apply_manual_model_override<T: Copy>(existing: &mut ResolvedAgentModel<T>, manual: &ResolvedAgentModel<T>)
    ensures
        model_view(*final(existing)) == overridden(model_view(*old(existing)), model_view(*manual)),
{
    if manual.label.is_some() {
        existing.label = clone_opt_text(&manual.label);
    }
    if manual.explicit.max_tokens {
        existing.max_tokens = manual.max_tokens;
    }
    if manual.explicit.temperature {
        existing.temperature = manual.temperature;
    }
    if manual.explicit.reasoning_effort {
        existing.reasoning_effort = clone_opt_text(&manual.reasoning_effort);
    }
    if manual.explicit.service_label {
        existing.service_label = clone_opt_text(&manual.service_label);
    }
    if manual.explicit.native_web_search {
        existing.native_web_search = manual.native_web_search;
    }
    if manual.explicit.web_search_supported {
        existing.web_search_supported = manual.web_search_supported;
        if manual.web_search_supported {
            existing.web_search_unsupported_reason = None;
        }
    }
    if manual.explicit.web_search_unsupported_reason {
        existing.web_search_unsupported_reason = clone_opt_text(&manual.web_search_unsupported_reason);
    }
    existing.source = AgentModelSource::DiscoveredWithOverride;
}


// ---------------------------------------------------------------------------
// Merging listed models with manual entries

/// `i` is the first position of a model with the id.
pub open spec fn first_with_id<T>(ms: Seq<ModelView<T>>, id: Seq<char>, i: int) -> bool {
    &&& 0 <= i < ms.len()
    &&& ms[i].id == id
    &&& forall|k: int| 0 <= k < i ==> ms[k].id != id
}

/// A manual entry laid over the first model with its id, or added last when
/// no model has it.
pub open spec fn merge_manual<T>(ms: Seq<ModelView<T>>, m: ModelView<T>) -> Seq<ModelView<T>> {
    if exists|i: int| first_with_id(ms, m.id, i) {
        let i = choose|i: int| first_with_id(ms, m.id, i);
        ms.update(i, overridden(ms[i], m))
    } else {
        ms.push(m)
    }
}

/// The manual entries laid over the models one by one, in order.
pub open spec fn merge_manuals<T>(start: Seq<ModelView<T>>, manuals: Seq<ModelView<T>>) -> Seq<ModelView<T>>
    decreases manuals.len(),
{
    if manuals.len() == 0 {
        start
    } else {
        merge_manual(merge_manuals(start, manuals.drop_last()), manuals.last())
    }
}

/// A provider's models after a listing: the listed models in the listing's
/// order, each manual model laid over the first listed one with its id or
/// else added after them.
pub open spec fn merged_models<T>(p: ResolvedAgentProvider<T>, listed: Seq<(Seq<char>, Seq<char>, bool)>) -> Seq<
    ModelView<T>,
> {
    merge_manuals(
        listed.map_values(|d: (Seq<char>, Seq<char>, bool)| discovered_model(p.id@, p.kind, p.defaults, d)),
        model_views(p.models@),
    )
}

proof fn lemma_first_unique<T>(ms: Seq<ModelView<T>>, id: Seq<char>, i: int, j: int)
    requires
        first_with_id(ms, id, i),
        first_with_id(ms, id, j),
    ensures
        i == j,
{
    if i < j {
        assert(ms[i].id != id);
    } else if j < i {
        assert(ms[j].id != id);
    }
}

/// Lays a manual entry over the models.
fn merge_one<T: Copy>(merged: &mut Vec<ResolvedAgentModel<T>>, manual: &ResolvedAgentModel<T>)
    ensures
        model_views(final(merged)@) == merge_manual(model_views(old(merged)@), model_view(*manual)),
{
    let ghost before = model_views(merged@);
    let ghost mv = model_view(*manual);
    let id = chars_of(manual.id.as_str());
    let mut i: usize = 0;
    while i < merged.len()
        invariant
            i <= merged.len(),
            merged@ == old(merged)@,
            before == model_views(merged@),
            id@ == mv.id,
            mv == model_view(*manual),
            forall|k: int| 0 <= k < i ==> before[k].id != mv.id,
        decreases merged.len() - i,
    {
        if crate::text::seq_eq(&chars_of(merged[i].id.as_str()), &id) {
            let mut e = clone_model(&merged[i]);
            let ghost e0 = model_view(e);
            assert(e0 == before[i as int]);
            apply_manual_model_override(&mut e, manual);
            let ghost e1 = model_view(e);
            assert(e1 == overridden(before[i as int], mv));
            let ghost old_m = merged@;
            merged.set(i, e);
            proof {
                assert(merged@ == old_m.update(i as int, e));
                assert forall|k: int| 0 <= k < merged@.len() implies model_views(merged@)[k] == before.update(
                    i as int,
                    overridden(before[i as int], mv),
                )[k] by {
                    if k == i {
                        assert(model_views(merged@)[k] == model_view(merged@[k]));
                    } else {
                        assert(model_views(merged@)[k] == model_view(old_m[k]));
                    }
                }
                assert(first_with_id(before, mv.id, i as int));
                let c = choose|c: int| first_with_id(before, mv.id, c);
                lemma_first_unique(before, mv.id, i as int, c);
                assert(model_views(merged@) =~= before.update(i as int, overridden(before[i as int], mv)));
            }
            return;
        }
        i = i + 1;
    }
    merged.push(clone_model(manual));
    proof {
        assert(!exists|c: int| first_with_id(before, mv.id, c));
        assert(model_views(merged@) =~= before.push(mv));
    }
}

proof fn lemma_merge_manual_ids<T>(ms: Seq<ModelView<T>>, m: ModelView<T>)
    ensures
        merge_manual(ms, m).len() >= ms.len(),
        forall|i: int| 0 <= i < ms.len() ==> #[trigger] merge_manual(ms, m)[i].id == ms[i].id,
        model_ids(merge_manual(ms, m)).contains(m.id),
{
    let r = merge_manual(ms, m);
    if exists|i: int| first_with_id(ms, m.id, i) {
        let i = choose|i: int| first_with_id(ms, m.id, i);
        assert(model_ids(r)[i] == m.id);
    } else {
        assert(model_ids(r)[ms.len() as int] == m.id);
    }
}

proof fn lemma_merge_manuals_ids<T>(start: Seq<ModelView<T>>, manuals: Seq<ModelView<T>>)
    ensures
        merge_manuals(start, manuals).len() >= start.len(),
        forall|i: int| 0 <= i < start.len() ==> #[trigger] merge_manuals(start, manuals)[i].id == start[i].id,
        forall|k: int| 0 <= k < manuals.len() ==> model_ids(merge_manuals(start, manuals)).contains(#[trigger] manuals[k].id),
    decreases manuals.len(),
{
    if manuals.len() > 0 {
        let before = merge_manuals(start, manuals.drop_last());
        lemma_merge_manuals_ids(start, manuals.drop_last());
        lemma_merge_manual_ids(before, manuals.last());
        let after = merge_manuals(start, manuals);
        assert forall|i: int| 0 <= i < start.len() implies #[trigger] after[i].id == start[i].id by {
            assert(before[i].id == start[i].id);
        }
        assert forall|k: int| 0 <= k < manuals.len() implies model_ids(after).contains(#[trigger] manuals[k].id) by {
            if k == manuals.len() - 1 {
                assert(manuals[k] == manuals.last());
            } else {
                assert(manuals.drop_last()[k] == manuals[k]);
                assert(model_ids(before).contains(manuals[k].id));
                let j = choose|j: int| 0 <= j < model_ids(before).len() && model_ids(before)[j] == manuals[k].id;
                assert(after[j].id == before[j].id);
                assert(model_ids(after)[j] == manuals[k].id);
            }
        }
    }
}

/// A listing never loses a model: every listed model and every manual model
/// of the provider is among its models after the merge, and the listed ones
/// come first, in the listing's order.
pub proof fn law_merge_keeps_every_model<T>(p: ResolvedAgentProvider<T>, listed: Seq<(Seq<char>, Seq<char>, bool)>)
    ensures
        merged_models(p, listed).len() >= listed.len(),
        forall|k: int| 0 <= k < listed.len() ==> #[trigger] merged_models(p, listed)[k].id == listed[k].0,
        forall|k: int|
            0 <= k < p.models@.len() ==> model_ids(merged_models(p, listed)).contains(#[trigger] p.models@[k].id@),
{
    let start = listed.map_values(|d: (Seq<char>, Seq<char>, bool)| discovered_model(p.id@, p.kind, p.defaults, d));
    let manuals = model_views(p.models@);
    lemma_merge_manuals_ids(start, manuals);
    assert forall|k: int| 0 <= k < listed.len() implies #[trigger] merged_models(p, listed)[k].id == listed[k].0 by {
        assert(start[k].id == listed[k].0);
    }
    assert forall|k: int| 0 <= k < p.models@.len() implies model_ids(merged_models(p, listed)).contains(
        #[trigger] p.models@[k].id@,
    ) by {
        assert(manuals[k].id == p.models@[k].id@);
    }
}

/// The models of a provider after a listing.
pub fn merge_provider_models<T: Copy>(provider: &ResolvedAgentProvider<T>, discovered: Vec<DiscoveredProviderModel>) -> (r:
    Vec<ResolvedAgentModel<T>>)
    ensures
        model_views(r@) == merged_models(*provider, listed_views(discovered@)),
{
    let ghost listed = listed_views(discovered@);
    let ghost start = listed.map_values(
        |d: (Seq<char>, Seq<char>, bool)| discovered_model(provider.id@, provider.kind, provider.defaults, d),
    );
    let mut merged: Vec<ResolvedAgentModel<T>> = Vec::new();
    let mut j: usize = 0;
    let n = discovered.len();
    let mut rest = discovered;
    while j < n
        invariant
            j <= n,
            n == listed.len(),
            listed_views(rest@) == listed.subrange(j as int, n as int),
            rest@.len() == n - j,
            start == listed.map_values(
                |d: (Seq<char>, Seq<char>, bool)| discovered_model(provider.id@, provider.kind, provider.defaults, d),
            ),
            model_views(merged@) == start.take(j as int),
        decreases n - j,
    {
        let ghost old_rest = rest@;
        let d = rest.remove(0);
        proof {
            assert(listed_views(old_rest)[0] == listed_view(old_rest[0]));
            assert(listed_view(d) == listed.subrange(j as int, n as int)[0]);
            assert forall|k: int| 0 <= k < rest@.len() implies #[trigger] listed_views(rest@)[k] == listed.subrange(
                j + 1,
                n as int,
            )[k] by {
                assert(rest@[k] == old_rest[k + 1]);
                assert(listed_views(old_rest)[k + 1] == listed.subrange(j as int, n as int)[k + 1]);
            }
            assert(listed_views(rest@) =~= listed.subrange(j + 1, n as int));
        }
        let m = discovered_to_resolved_model(provider, d);
        let ghost old_merged = merged@;
        assert(model_views(old_merged).len() == old_merged.len());
        merged.push(m);
        proof {
            assert(start[j as int] == model_view(m));
            assert forall|k: int| 0 <= k < merged@.len() implies #[trigger] model_views(merged@)[k] == start.take(
                j + 1,
            )[k] by {
                if k < j {
                    assert(merged@[k] == old_merged[k]);
                    assert(model_views(old_merged)[k] == start.take(j as int)[k]);
                }
            }
            assert(model_views(merged@) =~= start.take(j + 1));
        }
        j = j + 1;
    }
    proof {
        assert(start.take(n as int) =~= start);
    }
    let ghost manuals = model_views(provider.models@);
    let mut i: usize = 0;
    while i < provider.models.len()
        invariant
            i <= provider.models.len(),
            manuals == model_views(provider.models@),
            model_views(merged@) == merge_manuals(start, manuals.take(i as int)),
        decreases provider.models.len() - i,
    {
        merge_one(&mut merged, &provider.models[i]);
        proof {
            assert(manuals.take(i + 1).drop_last() =~= manuals.take(i as int));
        }
        i = i + 1;
    }
    proof {
        assert(manuals.take(provider.models.len() as int) =~= manuals);
    }
    merged
}


// ---------------------------------------------------------------------------
// Discovery

/// Two providers agree on everything but their discovery status and models.
pub open spec fn same_settings<T>(a: ResolvedAgentProvider<T>, b: ResolvedAgentProvider<T>) -> bool {
    &&& a.id@ == b.id@
    &&& a.kind == b.kind
    &&& opt_string(a.api_key) == opt_string(b.api_key)
    &&& a.api_key_env@ == b.api_key_env@
    &&& opt_string(a.anthropic_version) == opt_string(b.anthropic_version)
    &&& opt_string(a.base_url) == opt_string(b.base_url)
    &&& a.discover_models == b.discover_models
    &&& a.defaults == b.defaults
}

fn clone_models<T: Copy>(v: &Vec<ResolvedAgentModel<T>>) -> (r: Vec<ResolvedAgentModel<T>>)
    ensures
        model_views(r@) == model_views(v@),
{
    let mut r: Vec<ResolvedAgentModel<T>> = Vec::new();
    let mut i: usize = 0;
    while i < v.len()
        invariant
            i <= v.len(),
            model_views(r@) == model_views(v@).take(i as int),
        decreases v.len() - i,
    {
        let ghost before = r@;
        r.push(clone_model(&v[i]));
        proof {
            assert(model_views(before).len() == before.len());
            assert forall|k: int| 0 <= k < r@.len() implies #[trigger] model_views(r@)[k] == model_views(v@).take(
                i + 1,
            )[k] by {
                if k < i {
                    assert(r@[k] == before[k]);
                    assert(model_views(before)[k] == model_views(v@).take(i as int)[k]);
                }
            }
            assert(model_views(r@) =~= model_views(v@).take(i + 1));
        }
        i = i + 1;
    }
    proof {
        assert(model_views(v@).take(v@.len() as int) =~= model_views(v@));
    }
    r
}

/// A provider with the outcome of listing its models: discovery off leaves
/// its models and marks it disabled; a listing is merged with its manual
/// models; a failure is recorded with the provider's models kept.
pub fn apply_provider_model_discovery<T: Copy>(
    provider: &ResolvedAgentProvider<T>,
    discovered: Result<Vec<DiscoveredProviderModel>, String>,
) -> (r: ResolvedAgentProvider<T>)
    ensures
        same_settings(r, *provider),
        !provider.discover_models ==> r.model_discovery_status == ModelDiscoveryStatus::Disabled && model_views(r.models@)
            == model_views(provider.models@),
        provider.discover_models ==> match discovered {
            Ok(ds) => r.model_discovery_status == ModelDiscoveryStatus::Succeeded && model_views(r.models@)
                == merged_models(*provider, listed_views(ds@)),
            Err(e) => r.model_discovery_status == ModelDiscoveryStatus::Failed(e) && model_views(r.models@)
                == model_views(provider.models@),
        },
{
    let (status, models) = if !provider.discover_models {
        (ModelDiscoveryStatus::Disabled, clone_models(&provider.models))
    } else {
        match discovered {
            Ok(ds) => (ModelDiscoveryStatus::Succeeded, merge_provider_models(provider, ds)),
            Err(e) => (ModelDiscoveryStatus::Failed(e), clone_models(&provider.models)),
        }
    };
    ResolvedAgentProvider {
        id: clone_text(&provider.id),
        kind: provider.kind,
        api_key: clone_opt_text(&provider.api_key),
        api_key_env: clone_text(&provider.api_key_env),
        anthropic_version: clone_opt_text(&provider.anthropic_version),
        base_url: clone_opt_text(&provider.base_url),
        discover_models: provider.discover_models,
        model_discovery_status: status,
        defaults: provider.defaults,
        models,
    }
}

// ---------------------------------------------------------------------------
// Models as configured

/// A model entry as the configuration file gives it.
pub struct AgentModelFile<T> {
    pub id: String,
    pub label: Option<String>,
    pub max_tokens: Option<u64>,
    pub temperature: Option<T>,
    pub reasoning_effort: Option<String>,
    pub service_label: Option<String>,
    pub native_web_search: Option<bool>,
    pub web_search_supported: Option<bool>,
    pub web_search_unsupported_reason: Option<String>,
}

pub open spec fn explicit_of<T>(f: AgentModelFile<T>) -> ModelExplicitFields {
    ModelExplicitFields {
        max_tokens: f.max_tokens is Some,
        temperature: f.temperature is Some,
        reasoning_effort: f.reasoning_effort is Some,
        service_label: f.service_label is Some,
        native_web_search: f.native_web_search is Some,
        web_search_supported: f.web_search_supported is Some,
        web_search_unsupported_reason: f.web_search_unsupported_reason is Some,
    }
}

/// Whether a configured model has web search: only where the provider's
/// API offers it, and then as the entry says, by default yes.
pub open spec fn configured_web_search<T>(f: AgentModelFile<T>, kind: AgentProviderKind) -> bool {
    default_web_search(kind) && match f.web_search_supported {
        Some(b) => b,
        None => default_web_search(kind),
    }
}

/// A configured model resolved against the provider's kind and the
/// defaults, given the ids already taken: its id trimmed and not blank nor
/// taken, then its web search reason checked; unset settings take the
/// defaults, optional texts are trimmed.
pub open spec fn configured_model<T>(
    f: AgentModelFile<T>,
    kind: AgentProviderKind,
    defaults: AgentConfigDefaults<T>,
    seen: Seq<Seq<char>>,
) -> Result<ModelView<T>, Seq<char>> {
    match require_non_empty_spec("model id"@, f.id@) {
        Err(e) => Err(e),
        Ok(id) => if seen.contains(id) {
            Err("duplicate model id `"@ + id + "`"@)
        } else {
            let web_search = configured_web_search(f, kind);
            match web_search_reason_of(id, web_search, opt_string(f.web_search_unsupported_reason)) {
                Err(e) => Err(e),
                Ok(reason) => Ok(
                    ModelView {
                        id,
                        label: non_empty_spec(opt_string(f.label)),
                        max_tokens: match f.max_tokens {
                            Some(n) => n,
                            None => defaults.max_tokens,
                        },
                        temperature: match f.temperature {
                            Some(t) => t,
                            None => defaults.temperature,
                        },
                        reasoning_effort: non_empty_spec(opt_string(f.reasoning_effort)),
                        service_label: non_empty_spec(opt_string(f.service_label)),
                        native_web_search: match f.native_web_search {
                            Some(b) => b,
                            None => defaults.native_web_search,
                        },
                        web_search_supported: web_search,
                        web_search_unsupported_reason: reason,
                        source: AgentModelSource::Manual,
                        explicit: explicit_of(f),
                    },
                ),
            }
        },
    }
}

fn contains_text(v: &Vec<String>, x: &[char]) -> (r: bool)
    ensures
        r == string_views(v@).contains(x@),
{
    let mut i: usize = 0;
    while i < v.len()
        invariant
            i <= v.len(),
            forall|j: int| 0 <= j < i ==> string_views(v@)[j] != x@,
        decreases v.len() - i,
    {
        if seq_eq(&chars_of(v[i].as_str()), x) {
            proof {
                assert(string_views(v@)[i as int] == x@);
            }
            return true;
        }
        i = i + 1;
    }
    proof {
        if string_views(v@).contains(x@) {
            let k = choose|k: int| 0 <= k < string_views(v@).len() && string_views(v@)[k] == x@;
            assert(string_views(v@)[k] != x@);
        }
    }
    false
}

fn error_of(message: Vec<char>) -> (r: RigAgentConfigError)
    ensures
        r.message@ == message@,
{
    RigAgentConfigError { message: string_of(&message) }
}

/// Resolves a configured model; its id is added to the taken ones once it
/// is found free.
pub fn resolve_model<T: Copy>(
    model: &AgentModelFile<T>,
    kind: AgentProviderKind,
    defaults: &AgentConfigDefaults<T>,
    seen: &mut Vec<String>,
) -> (r: Result<ResolvedAgentModel<T>, RigAgentConfigError>)
    ensures
        match (r, configured_model(*model, kind, *defaults, string_views(old(seen)@))) {
            (Ok(m), Ok(v)) => model_view(m) == v,
            (Err(e), Err(v)) => e.message@ == v,
            _ => false,
        },
        match require_non_empty_spec("model id"@, model.id@) {
            Ok(id) => !string_views(old(seen)@).contains(id) ==> string_views(final(seen)@) == string_views(
                old(seen)@,
            ).push(id),
            Err(_) => true,
        },
{
    let id = match require_non_empty("model id", clone_text(&model.id)) {
        Ok(id) => id,
        Err(e) => return Err(e),
    };
    let idc = chars_of(id.as_str());
    if contains_text(seen, &idc) {
        return Err(error_of(surround("duplicate model id `", &idc, "`")));
    }
    let ghost before = string_views(seen@);
    seen.push(clone_text(&id));
    proof {
        assert(string_views(seen@) =~= before.push(id@));
    }
    let default_ws = provider_default_web_search_supported(kind);
    let web_search = default_ws && match model.web_search_supported {
        Some(b) => b,
        None => default_ws,
    };
    let reason = match web_search_reason(id.as_str(), web_search, clone_opt_text(&model.web_search_unsupported_reason)) {
        Ok(reason) => reason,
        Err(e) => return Err(e),
    };
    Ok(ResolvedAgentModel {
        id,
        label: non_empty(clone_opt_text(&model.label)),
        max_tokens: match model.max_tokens {
            Some(n) => n,
            None => defaults.max_tokens,
        },
        temperature: match model.temperature {
            Some(t) => t,
            None => defaults.temperature,
        },
        reasoning_effort: non_empty(clone_opt_text(&model.reasoning_effort)),
        service_label: non_empty(clone_opt_text(&model.service_label)),
        native_web_search: match model.native_web_search {
            Some(b) => b,
            None => defaults.native_web_search,
        },
        web_search_supported: web_search,
        web_search_unsupported_reason: reason,
        source: AgentModelSource::Manual,
        explicit: ModelExplicitFields {
            max_tokens: model.max_tokens.is_some(),
            temperature: model.temperature.is_some(),
            reasoning_effort: model.reasoning_effort.is_some(),
            service_label: model.service_label.is_some(),
            native_web_search: model.native_web_search.is_some(),
            web_search_supported: model.web_search_supported.is_some(),
            web_search_unsupported_reason: model.web_search_unsupported_reason.is_some(),
        },
    })
}


pub open spec fn model_ids<T>(v: Seq<ModelView<T>>) -> Seq<Seq<char>> {
    v.map_values(|m: ModelView<T>| m.id)
}

/// A provider's configured models resolved in order, each id taken by the
/// ones before it refused; the first failure is the error.
pub open spec fn configured_models<T>(
    fs: Seq<AgentModelFile<T>>,
    kind: AgentProviderKind,
    defaults: AgentConfigDefaults<T>,
) -> Result<Seq<ModelView<T>>, Seq<char>>
    decreases fs.len(),
{
    if fs.len() == 0 {
        Ok(Seq::<ModelView<T>>::empty())
    } else {
        match configured_models(fs.drop_last(), kind, defaults) {
            Err(e) => Err(e),
            Ok(done) => match configured_model(fs.last(), kind, defaults, model_ids(done)) {
                Err(e) => Err(e),
                Ok(m) => Ok(done.push(m)),
            },
        }
    }
}

proof fn lemma_configured_models_stops<T>(
    fs: Seq<AgentModelFile<T>>,
    kind: AgentProviderKind,
    defaults: AgentConfigDefaults<T>,
    k: int,
)
    requires
        0 <= k <= fs.len(),
        configured_models(fs.take(k), kind, defaults) is Err,
    ensures
        configured_models(fs, kind, defaults) == configured_models(fs.take(k), kind, defaults),
    decreases fs.len() - k,
{
    if k < fs.len() {
        assert(fs.take(k + 1).drop_last() =~= fs.take(k));
        lemma_configured_models_stops(fs, kind, defaults, k + 1);
    } else {
        assert(fs.take(k) =~= fs);
    }
}

pub fn resolve_models<T: Copy>(models: &Vec<AgentModelFile<T>>, kind: AgentProviderKind, defaults: &AgentConfigDefaults<T>) -> (r:
    Result<Vec<ResolvedAgentModel<T>>, RigAgentConfigError>)
    ensures
        match (r, configured_models(models@, kind, *defaults)) {
            (Ok(v), Ok(w)) => model_views(v@) == w,
            (Err(e), Err(w)) => e.message@ == w,
            _ => false,
        },
{
    let mut out: Vec<ResolvedAgentModel<T>> = Vec::new();
    let mut seen: Vec<String> = Vec::new();
    let mut i: usize = 0;
    proof {
        assert(models@.take(0) =~= Seq::<AgentModelFile<T>>::empty());
        assert(model_views(out@) =~= Seq::<ModelView<T>>::empty());
        assert(string_views(seen@) =~= model_ids(model_views(out@)));
    }
    while i < models.len()
        invariant
            i <= models.len(),
            configured_models(models@.take(i as int), kind, *defaults) == Ok::<Seq<ModelView<T>>, Seq<char>>(
                model_views(out@),
            ),
            string_views(seen@) == model_ids(model_views(out@)),
        decreases models.len() - i,
    {
        proof {
            assert(models@.take(i + 1).drop_last() =~= models@.take(i as int));
            assert(models@.take(i + 1).last() == models@[i as int]);
        }
        let ghost before = out@;
        match resolve_model(&models[i], kind, defaults, &mut seen) {
            Err(e) => {
                proof {
                    lemma_configured_models_stops(models@, kind, *defaults, i + 1);
                }
                return Err(e);
            },
            Ok(m) => {
                out.push(m);
                proof {
                    assert(model_views(before).len() == before.len());
                    assert forall|k: int| 0 <= k < out@.len() implies #[trigger] model_views(out@)[k] == model_views(
                        before,
                    ).push(model_view(m))[k] by {
                        if k < before.len() {
                            assert(out@[k] == before[k]);
                        }
                    }
                    assert(model_views(out@) =~= model_views(before).push(model_view(m)));
                    assert(model_ids(model_views(out@)) =~= model_ids(model_views(before)).push(model_view(m).id));
                }
            },
        }
        i = i + 1;
    }
    proof {
        assert(models@.take(models@.len() as int) =~= models@);
    }
    Ok(out)
}

// ---------------------------------------------------------------------------
// Defaults and providers

/// The defaults as the configuration file gives them, each optional.
pub struct AgentConfigDefaultsFile<T> {
    pub timeout_secs: Option<u64>,
    pub max_tokens: Option<u64>,
    pub temperature: Option<T>,
    pub native_web_search: Option<bool>,
    pub discover_models: Option<bool>,
}

/// The defaults: a timeout of 120 seconds, 8192 tokens, the given
/// temperature, web search and model discovery on, unless the file sets
/// them.
pub open spec fn defaults_of<T>(d: Option<AgentConfigDefaultsFile<T>>, fallback_temperature: T) -> AgentConfigDefaults<T> {
    match d {
        None => AgentConfigDefaults {
            timeout_secs: 120,
            max_tokens: 8192,
            temperature: fallback_temperature,
            native_web_search: true,
            discover_models: true,
        },
        Some(f) => AgentConfigDefaults {
            timeout_secs: match f.timeout_secs {
                Some(v) => v,
                None => 120,
            },
            max_tokens: match f.max_tokens {
                Some(v) => v,
                None => 8192,
            },
            temperature: match f.temperature {
                Some(v) => v,
                None => fallback_temperature,
            },
            native_web_search: match f.native_web_search {
                Some(v) => v,
                None => true,
            },
            discover_models: match f.discover_models {
                Some(v) => v,
                None => true,
            },
        },
    }
}

pub fn resolve_defaults<T: Copy>(defaults: Option<AgentConfigDefaultsFile<T>>, fallback_temperature: T) -> (r:
    AgentConfigDefaults<T>)
    ensures
        r == defaults_of(defaults, fallback_temperature),
{
    match defaults {
        None => AgentConfigDefaults {
            timeout_secs: 120,
            max_tokens: 8192,
            temperature: fallback_temperature,
            native_web_search: true,
            discover_models: true,
        },
        Some(f) => AgentConfigDefaults {
            timeout_secs: match f.timeout_secs {
                Some(v) => v,
                None => 120,
            },
            max_tokens: match f.max_tokens {
                Some(v) => v,
                None => 8192,
            },
            temperature: match f.temperature {
                Some(v) => v,
                None => fallback_temperature,
            },
            native_web_search: match f.native_web_search {
                Some(v) => v,
                None => true,
            },
            discover_models: match f.discover_models {
                Some(v) => v,
                None => true,
            },
        },
    }
}

/// A provider entry as the configuration file gives it.
pub struct AgentProviderFile<T> {
    pub id: String,
    pub kind: AgentProviderKind,
    pub api_key: Option<String>,
    pub api_key_env: Option<String>,
    pub base_url: Option<String>,
    pub anthropic_version: Option<String>,
    pub discover_models: Option<bool>,
    pub models: Vec<AgentModelFile<T>>,
}

/// A resolved provider by its views.
pub struct ProviderView<T> {
    pub id: Seq<char>,
    pub kind: AgentProviderKind,
    pub api_key: Option<Seq<char>>,
    pub api_key_env: Seq<char>,
    pub anthropic_version: Option<Seq<char>>,
    pub base_url: Option<Seq<char>>,
    pub discover_models: bool,
    pub model_discovery_status: ModelDiscoveryStatus,
    pub defaults: AgentConfigDefaults<T>,
    pub models: Seq<ModelView<T>>,
}

pub open spec fn provider_view<T>(p: ResolvedAgentProvider<T>) -> ProviderView<T> {
    ProviderView {
        id: p.id@,
        kind: p.kind,
        api_key: opt_string(p.api_key),
        api_key_env: p.api_key_env@,
        anthropic_version: opt_string(p.anthropic_version),
        base_url: opt_string(p.base_url),
        discover_models: p.discover_models,
        model_discovery_status: p.model_discovery_status,
        defaults: p.defaults,
        models: model_views(p.models@),
    }
}

pub open spec fn provider_views<T>(v: Seq<ResolvedAgentProvider<T>>) -> Seq<ProviderView<T>> {
    v.map_values(|p: ResolvedAgentProvider<T>| provider_view(p))
}

pub open spec fn env_views(env: Seq<(String, String)>) -> Seq<(Seq<char>, Seq<char>)> {
    env.map_values(|e: (String, String)| (e.0@, e.1@))
}

/// The value of the first variable of an environment with the name.
pub open spec fn env_lookup(env: Seq<(Seq<char>, Seq<char>)>, name: Seq<char>) -> Option<Seq<char>>
    decreases env.len(),
{
    if env.len() == 0 {
        None
    } else if env[0].0 == name {
        Some(env[0].1)
    } else {
        env_lookup(env.drop_first(), name)
    }
}

/// The value of a variable of an environment given as name and value
/// pairs.
pub fn env_var(env: &Vec<(String, String)>, name: &str) -> (r: Option<String>)
    ensures
        opt_string(r) == env_lookup(env_views(env@), name@),
{
    let ghost all = env_views(env@);
    let n = chars_of(name);
    let mut i: usize = 0;
    proof {
        assert(all.subrange(0, all.len() as int) =~= all);
    }
    while i < env.len()
        invariant
            i <= env.len(),
            all == env_views(env@),
            n@ == name@,
            env_lookup(all, name@) == env_lookup(all.subrange(i as int, all.len() as int), name@),
        decreases env.len() - i,
    {
        let ghost rest = all.subrange(i as int, all.len() as int);
        proof {
            assert(rest[0] == all[i as int]);
            assert(rest.drop_first() =~= all.subrange(i + 1, all.len() as int));
        }
        if seq_eq(&chars_of(env[i].0.as_str()), &n) {
            return Some(clone_text(&env[i].1));
        }
        i = i + 1;
    }
    None
}

/// The API key of a provider: its own, trimmed, else the value of the
/// environment variable that its trimmed `api_key_env` names, when that is
/// set and not blank.
pub open spec fn api_key_of(api_key: Option<Seq<char>>, env_name: Option<Seq<char>>, env: Seq<(Seq<char>, Seq<char>)>) -> Option<
    Seq<char>,
> {
    match non_empty_spec(api_key) {
        Some(k) => Some(k),
        None => match env_name {
            Some(n) => match env_lookup(env, n) {
                Some(v) => if trim(v).len() > 0 {
                    Some(v)
                } else {
                    None
                },
                None => None,
            },
            None => None,
        },
    }
}

/// A configured provider resolved, given the ids already taken and the
/// environment: the id trimmed, not blank nor
/// taken; the Anthropic version checked; the models resolved; the base URL
/// resolved.
pub open spec fn configured_provider<T>(
    f: AgentProviderFile<T>,
    defaults: AgentConfigDefaults<T>,
    seen: Seq<Seq<char>>,
    env: Seq<(Seq<char>, Seq<char>)>,
) -> Result<ProviderView<T>, Seq<char>> {
    match require_non_empty_spec("provider id"@, f.id@) {
        Err(e) => Err(e),
        Ok(id) => if seen.contains(id) {
            Err("duplicate provider id `"@ + id + "`"@)
        } else if let Err(e) = anthropic_version_check(f.kind, opt_string(f.anthropic_version)) {
            Err(e)
        } else {
            let env_name = non_empty_spec(opt_string(f.api_key_env));
            match configured_models(f.models@, f.kind, defaults) {
                Err(e) => Err(e),
                Ok(models) => match base_url_of(f.kind, opt_string(f.base_url)) {
                    Err(e) => Err(e),
                    Ok(base_url) => {
                        let discover = match f.discover_models {
                            Some(b) => b,
                            None => defaults.discover_models,
                        };
                        Ok(
                            ProviderView {
                                id,
                                kind: f.kind,
                                api_key: api_key_of(opt_string(f.api_key), env_name, env),
                                api_key_env: match env_name {
                                    Some(n) => n,
                                    None => Seq::<char>::empty(),
                                },
                                anthropic_version: anthropic_version_of(f.kind, opt_string(f.anthropic_version)),
                                base_url,
                                discover_models: discover,
                                model_discovery_status: if discover {
                                    ModelDiscoveryStatus::NotStarted
                                } else {
                                    ModelDiscoveryStatus::Disabled
                                },
                                defaults,
                                models,
                            },
                        )
                    },
                },
            }
        },
    }
}

/// Resolves a configured provider against the process environment, given
/// as name and value pairs. Its id is added to the taken ones once it is
/// found free.
pub fn resolve_provider<T: Copy>(
    provider: &AgentProviderFile<T>,
    defaults: &AgentConfigDefaults<T>,
    seen: &mut Vec<String>,
    env: &Vec<(String, String)>,
) -> (r: Result<ResolvedAgentProvider<T>, RigAgentConfigError>)
    ensures
        match (r, configured_provider(*provider, *defaults, string_views(old(seen)@), env_views(env@))) {
            (Ok(p), Ok(v)) => provider_view(p) == v,
            (Err(e), Err(v)) => e.message@ == v,
            _ => false,
        },
        match require_non_empty_spec("provider id"@, provider.id@) {
            Ok(id) => !string_views(old(seen)@).contains(id) ==> string_views(final(seen)@) == string_views(
                old(seen)@,
            ).push(id),
            Err(_) => true,
        },
{
    let id = match require_non_empty("provider id", clone_text(&provider.id)) {
        Ok(id) => id,
        Err(e) => return Err(e),
    };
    let idc = chars_of(id.as_str());
    if contains_text(seen, &idc) {
        return Err(error_of(surround("duplicate provider id `", &idc, "`")));
    }
    let ghost before = string_views(seen@);
    seen.push(clone_text(&id));
    proof {
        assert(string_views(seen@) =~= before.push(id@));
    }
    let version = match &provider.anthropic_version {
        Some(v) => Some(v.as_str()),
        None => None,
    };
    if let Err(e) = validate_anthropic_version(provider.kind, version) {
        return Err(e);
    }
    let env_name = non_empty(clone_opt_text(&provider.api_key_env));
    let api_key = match non_empty(clone_opt_text(&provider.api_key)) {
        Some(k) => Some(k),
        None => match &env_name {
            Some(n) => match env_var(env, n.as_str()) {
                Some(v) => if crate::text::trim_exec(&chars_of(v.as_str())).len() > 0 {
                    Some(v)
                } else {
                    None
                },
                None => None,
            },
            None => None,
        },
    };
    let models = match resolve_models(&provider.models, provider.kind, defaults) {
        Ok(m) => m,
        Err(e) => return Err(e),
    };
    let base_url = match resolve_provider_base_url(provider.kind, clone_opt_text(&provider.base_url)) {
        Ok(u) => u,
        Err(e) => return Err(e),
    };
    let discover = match provider.discover_models {
        Some(b) => b,
        None => defaults.discover_models,
    };
    Ok(ResolvedAgentProvider {
        id,
        kind: provider.kind,
        api_key,
        api_key_env: match env_name {
            Some(n) => n,
            None => String::new(),
        },
        anthropic_version: resolve_anthropic_version(provider.kind, clone_opt_text(&provider.anthropic_version)),
        base_url,
        discover_models: discover,
        model_discovery_status: if discover {
            ModelDiscoveryStatus::NotStarted
        } else {
            ModelDiscoveryStatus::Disabled
        },
        defaults: *defaults,
        models,
    })
}


pub open spec fn provider_ids<T>(v: Seq<ProviderView<T>>) -> Seq<Seq<char>> {
    v.map_values(|p: ProviderView<T>| p.id)
}

/// The configured providers resolved in order, each id taken by the ones
/// before it refused; the first failure is the error.
pub open spec fn configured_providers<T>(
    fs: Seq<AgentProviderFile<T>>,
    defaults: AgentConfigDefaults<T>,
    env: Seq<(Seq<char>, Seq<char>)>,
) -> Result<Seq<ProviderView<T>>, Seq<char>>
    decreases fs.len(),
{
    if fs.len() == 0 {
        Ok(Seq::<ProviderView<T>>::empty())
    } else {
        match configured_providers(fs.drop_last(), defaults, env) {
            Err(e) => Err(e),
            Ok(done) => match configured_provider(fs.last(), defaults, provider_ids(done), env) {
                Err(e) => Err(e),
                Ok(p) => Ok(done.push(p)),
            },
        }
    }
}

proof fn lemma_configured_providers_stops<T>(
    fs: Seq<AgentProviderFile<T>>,
    defaults: AgentConfigDefaults<T>,
    env: Seq<(Seq<char>, Seq<char>)>,
    k: int,
)
    requires
        0 <= k <= fs.len(),
        configured_providers(fs.take(k), defaults, env) is Err,
    ensures
        configured_providers(fs, defaults, env) == configured_providers(fs.take(k), defaults, env),
    decreases fs.len() - k,
{
    if k < fs.len() {
        assert(fs.take(k + 1).drop_last() =~= fs.take(k));
        lemma_configured_providers_stops(fs, defaults, env, k + 1);
    } else {
        assert(fs.take(k) =~= fs);
    }
}

pub fn resolve_providers<T: Copy>(
    providers: &Vec<AgentProviderFile<T>>,
    defaults: &AgentConfigDefaults<T>,
    env: &Vec<(String, String)>,
) -> (r: Result<Vec<ResolvedAgentProvider<T>>, RigAgentConfigError>)
    ensures
        match (r, configured_providers(providers@, *defaults, env_views(env@))) {
            (Ok(v), Ok(w)) => provider_views(v@) == w,
            (Err(e), Err(w)) => e.message@ == w,
            _ => false,
        },
{
    let mut out: Vec<ResolvedAgentProvider<T>> = Vec::new();
    let mut seen: Vec<String> = Vec::new();
    let mut i: usize = 0;
    proof {
        assert(providers@.take(0) =~= Seq::<AgentProviderFile<T>>::empty());
        assert(provider_views(out@) =~= Seq::<ProviderView<T>>::empty());
        assert(string_views(seen@) =~= provider_ids(provider_views(out@)));
    }
    while i < providers.len()
        invariant
            i <= providers.len(),
            configured_providers(providers@.take(i as int), *defaults, env_views(env@)) == Ok::<
                Seq<ProviderView<T>>,
                Seq<char>,
            >(provider_views(out@)),
            string_views(seen@) == provider_ids(provider_views(out@)),
        decreases providers.len() - i,
    {
        proof {
            assert(providers@.take(i + 1).drop_last() =~= providers@.take(i as int));
            assert(providers@.take(i + 1).last() == providers@[i as int]);
        }
        let ghost before = out@;
        match resolve_provider(&providers[i], defaults, &mut seen, env) {
            Err(e) => {
                proof {
                    lemma_configured_providers_stops(providers@, *defaults, env_views(env@), i + 1);
                }
                return Err(e);
            },
            Ok(p) => {
                out.push(p);
                proof {
                    assert(provider_views(before).len() == before.len());
                    assert forall|k: int| 0 <= k < out@.len() implies #[trigger] provider_views(out@)[k]
                        == provider_views(before).push(provider_view(p))[k] by {
                        if k < before.len() {
                            assert(out@[k] == before[k]);
                        }
                    }
                    assert(provider_views(out@) =~= provider_views(before).push(provider_view(p)));
                    assert(provider_ids(provider_views(out@)) =~= provider_ids(provider_views(before)).push(
                        provider_view(p).id,
                    ));
                }
            },
        }
        i = i + 1;
    }
    proof {
        assert(providers@.take(providers@.len() as int) =~= providers@);
    }
    Ok(out)
}

// ---------------------------------------------------------------------------
// Web search providers

/// The HTTP method of a search provider: `GET` unless set; `GET` or `POST`
/// in any ASCII case.
pub open spec fn web_search_method_of(method: Option<Seq<char>>) -> Result<WebSearchHttpMethod, Seq<char>> {
    let m = match method {
        Some(m) => m,
        None => "GET"@,
    };
    if lower_seq(m) == "get"@ {
        Ok(WebSearchHttpMethod::Get)
    } else if lower_seq(m) == "post"@ {
        Ok(WebSearchHttpMethod::Post)
    } else {
        Err("web_search_providers.method must be GET or POST, got `"@ + m + "`"@)
    }
}

pub fn resolve_web_search_method(method: Option<String>) -> (r: Result<WebSearchHttpMethod, RigAgentConfigError>)
    ensures
        match (r, web_search_method_of(opt_string(method))) {
            (Ok(a), Ok(b)) => a == b,
            (Err(e), Err(b)) => e.message@ == b,
            _ => false,
        },
{
    let m = match method {
        Some(m) => chars_of(m.as_str()),
        None => chars_of("GET"),
    };
    let lower = lower_exec(&m);
    if eq_lit(&lower, "get") {
        Ok(WebSearchHttpMethod::Get)
    } else if eq_lit(&lower, "post") {
        Ok(WebSearchHttpMethod::Post)
    } else {
        Err(error_of(surround("web_search_providers.method must be GET or POST, got `", &m, "`")))
    }
}

/// How a search provider authenticates, by its views.
pub enum AuthView {
    Unauthenticated,
    Header { header: Seq<char>, prefix: Option<Seq<char>>, api_key: Seq<char> },
    QueryParam { param: Seq<char>, api_key: Seq<char> },
}

pub open spec fn auth_view(a: WebSearchAuth) -> AuthView {
    match a {
        WebSearchAuth::Unauthenticated => AuthView::Unauthenticated,
        WebSearchAuth::Header { header, prefix, api_key } => AuthView::Header {
            header: header@,
            prefix: opt_string(prefix),
            api_key: api_key@,
        },
        WebSearchAuth::QueryParam { param, api_key } => AuthView::QueryParam { param: param@, api_key: api_key@ },
    }
}

/// A search provider's authentication: a header or a query parameter, not
/// both, each needing an API key; the header or parameter name trimmed and
/// not blank; an empty prefix is none; with neither, no credentials.
pub open spec fn web_search_auth_of(
    provider_id: Seq<char>,
    api_key: Option<Seq<char>>,
    auth_header: Option<Seq<char>>,
    auth_prefix: Option<Seq<char>>,
    auth_query_param: Option<Seq<char>>,
) -> Result<AuthView, Seq<char>> {
    let key = non_empty_spec(api_key);
    if auth_header is Some && auth_query_param is Some {
        Err("web_search_providers `"@ + provider_id + "`: auth_header and auth_query_param are mutually exclusive"@)
    } else if (auth_header is Some || auth_query_param is Some) && key is None {
        Err("web_search_providers `"@ + provider_id + "`: auth requires api_key"@)
    } else {
        match auth_header {
            Some(h) => match require_non_empty_spec("auth_header"@, h) {
                Err(e) => Err(e),
                Ok(header) => Ok(
                    AuthView::Header {
                        header,
                        prefix: match auth_prefix {
                            Some(p) => if p.len() > 0 {
                                Some(p)
                            } else {
                                None
                            },
                            None => None,
                        },
                        api_key: key->Some_0,
                    },
                ),
            },
            None => match auth_query_param {
                Some(q) => match require_non_empty_spec("auth_query_param"@, q) {
                    Err(e) => Err(e),
                    Ok(param) => Ok(AuthView::QueryParam { param, api_key: key->Some_0 }),
                },
                None => Ok(AuthView::Unauthenticated),
            },
        }
    }
}

pub fn resolve_web_search_auth(
    provider_id: &str,
    api_key: Option<String>,
    auth_header: Option<String>,
    auth_prefix: Option<String>,
    auth_query_param: Option<String>,
) -> (r: Result<WebSearchAuth, RigAgentConfigError>)
    ensures
        match (
            r,
            web_search_auth_of(
                provider_id@,
                opt_string(api_key),
                opt_string(auth_header),
                opt_string(auth_prefix),
                opt_string(auth_query_param),
            ),
        ) {
            (Ok(a), Ok(b)) => auth_view(a) == b,
            (Err(e), Err(b)) => e.message@ == b,
            _ => false,
        },
{
    let id = chars_of(provider_id);
    if auth_header.is_some() && auth_query_param.is_some() {
        return Err(error_of(surround("web_search_providers `", &id, "`: auth_header and auth_query_param are mutually exclusive")));
    }
    let key = non_empty(api_key);
    if (auth_header.is_some() || auth_query_param.is_some()) && key.is_none() {
        return Err(error_of(surround("web_search_providers `", &id, "`: auth requires api_key")));
    }
    match auth_header {
        Some(h) => {
            let header = match require_non_empty("auth_header", h) {
                Ok(v) => v,
                Err(e) => return Err(e),
            };
            let prefix = match auth_prefix {
                Some(p) => if chars_of(p.as_str()).len() > 0 {
                    Some(p)
                } else {
                    None
                },
                None => None,
            };
            match key {
                Some(k) => Ok(WebSearchAuth::Header { header, prefix, api_key: k }),
                None => Err(error_of(surround("web_search_providers `", &id, "`: auth requires api_key"))),
            }
        },
        None => match auth_query_param {
            Some(q) => {
                let param = match require_non_empty("auth_query_param", q) {
                    Ok(v) => v,
                    Err(e) => return Err(e),
                };
                match key {
                    Some(k) => Ok(WebSearchAuth::QueryParam { param, api_key: k }),
                    None => Err(error_of(surround("web_search_providers `", &id, "`: auth requires api_key"))),
                }
            },
            None => Ok(WebSearchAuth::Unauthenticated),
        },
    }
}

/// Where the fields of a search hit are, as the configuration file gives
/// it.
pub struct WebSearchResultMapFile {
    pub results: String,
    pub title: String,
    pub url: String,
    pub snippet: String,
    pub date: Option<String>,
    pub source: Option<String>,
}

/// None of the four required places of a result map is blank; the first
/// blank one is named.
pub open spec fn blank_map_field(provider_id: Seq<char>, field: Seq<char>) -> Seq<char> {
    "web_search_providers `"@ + provider_id + "`: result_map."@ + field + " cannot be empty"@
}

pub open spec fn result_map_check(provider_id: Seq<char>, m: WebSearchResultMapFile) -> Result<(), Seq<char>> {
    if trim(m.results@).len() == 0 {
        Err(blank_map_field(provider_id, "results"@))
    } else if trim(m.title@).len() == 0 {
        Err(blank_map_field(provider_id, "title"@))
    } else if trim(m.url@).len() == 0 {
        Err(blank_map_field(provider_id, "url"@))
    } else if trim(m.snippet@).len() == 0 {
        Err(blank_map_field(provider_id, "snippet"@))
    } else {
        Ok(())
    }
}

fn blank_field_error(id: &[char], field: &str) -> (r: RigAgentConfigError)
    ensures
        r.message@ == blank_map_field(id@, field@),
{
    let mut m = surround("web_search_providers `", id, "`: result_map.");
    crate::text::append_lit(&mut m, field);
    crate::text::append_lit(&mut m, " cannot be empty");
    error_of(m)
}

pub fn validate_web_search_result_map(provider_id: &str, map: &WebSearchResultMapFile) -> (r: Result<(), RigAgentConfigError>)
    ensures
        match (r, result_map_check(provider_id@, *map)) {
            (Ok(_), Ok(_)) => true,
            (Err(e), Err(b)) => e.message@ == b,
            _ => false,
        },
{
    let id = chars_of(provider_id);
    if trim_exec(&chars_of(map.results.as_str())).len() == 0 {
        return Err(blank_field_error(&id, "results"));
    }
    if trim_exec(&chars_of(map.title.as_str())).len() == 0 {
        return Err(blank_field_error(&id, "title"));
    }
    if trim_exec(&chars_of(map.url.as_str())).len() == 0 {
        return Err(blank_field_error(&id, "url"));
    }
    if trim_exec(&chars_of(map.snippet.as_str())).len() == 0 {
        return Err(blank_field_error(&id, "snippet"));
    }
    Ok(())
}


/// A search provider entry as the configuration file gives it; `P` is the
/// type of its extra request parameters, which the rules pass on.
pub struct WebSearchProviderFile<P> {
    pub id: String,
    pub endpoint: String,
    pub method: Option<String>,
    pub query_key: String,
    pub top_k_param: Option<String>,
    pub api_key: Option<String>,
    pub auth_header: Option<String>,
    pub auth_prefix: Option<String>,
    pub auth_query_param: Option<String>,
    pub max_result_chars: Option<usize>,
    pub user_agent: Option<String>,
    pub params: P,
    pub result_map: WebSearchResultMapFile,
}

/// A search provider with its settings resolved; its extra parameters are
/// kept as the file gave them, to be sent by its method.
pub struct ResolvedWebSearchProvider<P> {
    pub id: String,
    pub endpoint: String,
    pub method: WebSearchHttpMethod,
    pub query_key: String,
    pub top_k_param: Option<String>,
    pub auth: WebSearchAuth,
    pub max_result_chars: Option<usize>,
    pub user_agent: Option<String>,
    pub params: P,
    pub result_map: WebSearchResultMap,
}

/// A resolved search provider by its views.
pub struct WebSearchProviderView<P> {
    pub id: Seq<char>,
    pub endpoint: Seq<char>,
    pub method: WebSearchHttpMethod,
    pub query_key: Seq<char>,
    pub top_k_param: Option<Seq<char>>,
    pub auth: AuthView,
    pub max_result_chars: Option<usize>,
    pub user_agent: Option<Seq<char>>,
    pub params: P,
    pub result_map: (Seq<char>, Seq<char>, Seq<char>, Seq<char>, Option<Seq<char>>, Option<Seq<char>>),
}

pub open spec fn web_search_provider_view<P>(p: ResolvedWebSearchProvider<P>) -> WebSearchProviderView<P> {
    WebSearchProviderView {
        id: p.id@,
        endpoint: p.endpoint@,
        method: p.method,
        query_key: p.query_key@,
        top_k_param: opt_string(p.top_k_param),
        auth: auth_view(p.auth),
        max_result_chars: p.max_result_chars,
        user_agent: opt_string(p.user_agent),
        params: p.params,
        result_map: (
            p.result_map.results_path@,
            p.result_map.title@,
            p.result_map.url@,
            p.result_map.snippet@,
            opt_string(p.result_map.date),
            opt_string(p.result_map.source),
        ),
    }
}

pub open spec fn web_search_provider_views<P>(v: Seq<ResolvedWebSearchProvider<P>>) -> Seq<WebSearchProviderView<P>> {
    v.map_values(|p: ResolvedWebSearchProvider<P>| web_search_provider_view(p))
}

/// A configured search provider resolved, given the ids already taken: the
/// id, endpoint and query key trimmed and not blank, the id not taken, the
/// method and authentication resolved, the result map checked; optional
/// texts trimmed.
pub open spec fn configured_web_search_provider<P>(f: WebSearchProviderFile<P>, seen: Seq<Seq<char>>) -> Result<
    WebSearchProviderView<P>,
    Seq<char>,
> {
    match require_non_empty_spec("web_search_providers.id"@, f.id@) {
        Err(e) => Err(e),
        Ok(id) => if seen.contains(id) {
            Err("duplicate web_search_providers id `"@ + id + "`"@)
        } else {
            match require_non_empty_spec("web_search_providers.endpoint"@, f.endpoint@) {
                Err(e) => Err(e),
                Ok(endpoint) => match web_search_method_of(opt_string(f.method)) {
                    Err(e) => Err(e),
                    Ok(method) => match require_non_empty_spec("web_search_providers.query_key"@, f.query_key@) {
                        Err(e) => Err(e),
                        Ok(query_key) => match web_search_auth_of(
                            id,
                            opt_string(f.api_key),
                            opt_string(f.auth_header),
                            opt_string(f.auth_prefix),
                            opt_string(f.auth_query_param),
                        ) {
                            Err(e) => Err(e),
                            Ok(auth) => match result_map_check(id, f.result_map) {
                                Err(e) => Err(e),
                                Ok(_) => Ok(
                                    WebSearchProviderView {
                                        id,
                                        endpoint,
                                        method,
                                        query_key,
                                        top_k_param: non_empty_spec(opt_string(f.top_k_param)),
                                        auth,
                                        max_result_chars: f.max_result_chars,
                                        user_agent: non_empty_spec(opt_string(f.user_agent)),
                                        params: f.params,
                                        result_map: (
                                            f.result_map.results@,
                                            f.result_map.title@,
                                            f.result_map.url@,
                                            f.result_map.snippet@,
                                            non_empty_spec(opt_string(f.result_map.date)),
                                            non_empty_spec(opt_string(f.result_map.source)),
                                        ),
                                    },
                                ),
                            },
                        },
                    },
                },
            }
        },
    }
}

/// Resolves a configured search provider; its id is added to the taken
/// ones once it is found free.
pub fn resolve_web_search_provider<P>(provider: WebSearchProviderFile<P>, seen: &mut Vec<String>) -> (r: Result<
    ResolvedWebSearchProvider<P>,
    RigAgentConfigError,
>)
    ensures
        match (r, configured_web_search_provider(provider, string_views(old(seen)@))) {
            (Ok(p), Ok(v)) => web_search_provider_view(p) == v,
            (Err(e), Err(v)) => e.message@ == v,
            _ => false,
        },
        match require_non_empty_spec("web_search_providers.id"@, provider.id@) {
            Ok(id) => !string_views(old(seen)@).contains(id) ==> string_views(final(seen)@) == string_views(
                old(seen)@,
            ).push(id),
            Err(_) => true,
        },
{
    let ghost f = provider;
    let WebSearchProviderFile {
        id,
        endpoint,
        method,
        query_key,
        top_k_param,
        api_key,
        auth_header,
        auth_prefix,
        auth_query_param,
        max_result_chars,
        user_agent,
        params,
        result_map,
    } = provider;
    let id = match require_non_empty("web_search_providers.id", id) {
        Ok(v) => v,
        Err(e) => return Err(e),
    };
    let idc = chars_of(id.as_str());
    if contains_text(seen, &idc) {
        return Err(error_of(surround("duplicate web_search_providers id `", &idc, "`")));
    }
    let ghost before = string_views(seen@);
    seen.push(clone_text(&id));
    proof {
        assert(string_views(seen@) =~= before.push(id@));
    }
    let endpoint = match require_non_empty("web_search_providers.endpoint", endpoint) {
        Ok(v) => v,
        Err(e) => return Err(e),
    };
    let method = match resolve_web_search_method(method) {
        Ok(v) => v,
        Err(e) => return Err(e),
    };
    let query_key = match require_non_empty("web_search_providers.query_key", query_key) {
        Ok(v) => v,
        Err(e) => return Err(e),
    };
    let auth = match resolve_web_search_auth(id.as_str(), api_key, auth_header, auth_prefix, auth_query_param) {
        Ok(v) => v,
        Err(e) => return Err(e),
    };
    if let Err(e) = validate_web_search_result_map(id.as_str(), &result_map) {
        return Err(e);
    }
    let WebSearchResultMapFile { results, title, url, snippet, date, source } = result_map;
    Ok(ResolvedWebSearchProvider {
        id,
        endpoint,
        method,
        query_key,
        top_k_param: non_empty(top_k_param),
        auth,
        max_result_chars,
        user_agent: non_empty(user_agent),
        params,
        result_map: WebSearchResultMap {
            results_path: results,
            title,
            url,
            snippet,
            date: non_empty(date),
            source: non_empty(source),
        },
    })
}

pub open spec fn web_search_ids<P>(v: Seq<WebSearchProviderView<P>>) -> Seq<Seq<char>> {
    v.map_values(|p: WebSearchProviderView<P>| p.id)
}

/// The configured search providers resolved in order, each id taken by the
/// ones before it refused; the first failure is the error.
pub open spec fn configured_web_search_providers<P>(fs: Seq<WebSearchProviderFile<P>>) -> Result<
    Seq<WebSearchProviderView<P>>,
    Seq<char>,
>
    decreases fs.len(),
{
    if fs.len() == 0 {
        Ok(Seq::<WebSearchProviderView<P>>::empty())
    } else {
        match configured_web_search_providers(fs.drop_last()) {
            Err(e) => Err(e),
            Ok(done) => match configured_web_search_provider(fs.last(), web_search_ids(done)) {
                Err(e) => Err(e),
                Ok(p) => Ok(done.push(p)),
            },
        }
    }
}

proof fn lemma_web_search_providers_stops<P>(fs: Seq<WebSearchProviderFile<P>>, k: int)
    requires
        0 <= k <= fs.len(),
        configured_web_search_providers(fs.take(k)) is Err,
    ensures
        configured_web_search_providers(fs) == configured_web_search_providers(fs.take(k)),
    decreases fs.len() - k,
{
    if k < fs.len() {
        assert(fs.take(k + 1).drop_last() =~= fs.take(k));
        lemma_web_search_providers_stops(fs, k + 1);
    } else {
        assert(fs.take(k) =~= fs);
    }
}

pub fn resolve_web_search_providers<P>(providers: Vec<WebSearchProviderFile<P>>) -> (r: Result<
    Vec<ResolvedWebSearchProvider<P>>,
    RigAgentConfigError,
>)
    ensures
        match (r, configured_web_search_providers(providers@)) {
            (Ok(v), Ok(w)) => web_search_provider_views(v@) == w,
            (Err(e), Err(w)) => e.message@ == w,
            _ => false,
        },
{
    let ghost all = providers@;
    let n = providers.len();
    let mut rest = providers;
    let mut out: Vec<ResolvedWebSearchProvider<P>> = Vec::new();
    let mut seen: Vec<String> = Vec::new();
    let mut i: usize = 0;
    proof {
        assert(all.take(0) =~= Seq::<WebSearchProviderFile<P>>::empty());
        assert(web_search_provider_views(out@) =~= Seq::<WebSearchProviderView<P>>::empty());
        assert(string_views(seen@) =~= web_search_ids(web_search_provider_views(out@)));
        assert(rest@ =~= all.subrange(0, n as int));
    }
    while i < n
        invariant
            i <= n,
            n == all.len(),
            all == providers@,
            rest@ == all.subrange(i as int, n as int),
            configured_web_search_providers(all.take(i as int)) == Ok::<Seq<WebSearchProviderView<P>>, Seq<char>>(
                web_search_provider_views(out@),
            ),
            string_views(seen@) == web_search_ids(web_search_provider_views(out@)),
        decreases n - i,
    {
        proof {
            assert(all.take(i + 1).drop_last() =~= all.take(i as int));
            assert(all.take(i + 1).last() == all[i as int]);
        }
        let ghost old_rest = rest@;
        let f = rest.remove(0);
        proof {
            assert(f == old_rest[0]);
            assert(rest@ =~= all.subrange(i + 1, n as int));
        }
        let ghost before = out@;
        match resolve_web_search_provider(f, &mut seen) {
            Err(e) => {
                proof {
                    lemma_web_search_providers_stops(all, i + 1);
                }
                return Err(e);
            },
            Ok(p) => {
                out.push(p);
                proof {
                    assert(web_search_provider_views(before).len() == before.len());
                    assert forall|k: int| 0 <= k < out@.len() implies #[trigger] web_search_provider_views(out@)[k]
                        == web_search_provider_views(before).push(web_search_provider_view(p))[k] by {
                        if k < before.len() {
                            assert(out@[k] == before[k]);
                        }
                    }
                    assert(web_search_provider_views(out@) =~= web_search_provider_views(before).push(
                        web_search_provider_view(p),
                    ));
                    assert(web_search_ids(web_search_provider_views(out@)) =~= web_search_ids(
                        web_search_provider_views(before),
                    ).push(web_search_provider_view(p).id));
                }
            },
        }
        i = i + 1;
    }
    proof {
        assert(all.take(n as int) =~= all);
    }
    Ok(out)
}


// ---------------------------------------------------------------------------
// The registry

/// Every provider and search provider of the configuration, which of them
/// are active, and the defaults.
pub struct AgentProviderRegistry<T, P> {
    pub active_provider_id: String,
    pub active_model_id: String,
    pub defaults: AgentConfigDefaults<T>,
    pub providers: Vec<ResolvedAgentProvider<T>>,
    pub active_web_search_id: Option<String>,
    pub web_search_providers: Vec<ResolvedWebSearchProvider<P>>,
}

/// The first provider with the id.
pub open spec fn find_provider<T>(ps: Seq<ProviderView<T>>, id: Seq<char>) -> Option<ProviderView<T>>
    decreases ps.len(),
{
    if ps.len() == 0 {
        None
    } else if ps[0].id == id {
        Some(ps[0])
    } else {
        find_provider(ps.drop_first(), id)
    }
}

/// The first model with the id.
pub open spec fn find_model<T>(ms: Seq<ModelView<T>>, id: Seq<char>) -> Option<ModelView<T>>
    decreases ms.len(),
{
    if ms.len() == 0 {
        None
    } else if ms[0].id == id {
        Some(ms[0])
    } else {
        find_model(ms.drop_first(), id)
    }
}

/// The first search provider with the id.
pub open spec fn find_web_search<P>(ps: Seq<WebSearchProviderView<P>>, id: Seq<char>) -> Option<WebSearchProviderView<P>>
    decreases ps.len(),
{
    if ps.len() == 0 {
        None
    } else if ps[0].id == id {
        Some(ps[0])
    } else {
        find_web_search(ps.drop_first(), id)
    }
}

pub fn find_model_in<'a, T>(models: &'a Vec<ResolvedAgentModel<T>>, id: &str) -> (r: Option<&'a ResolvedAgentModel<T>>)
    ensures
        match r {
            Some(m) => find_model(model_views(models@), id@) == Some(model_view(*m)),
            None => find_model(model_views(models@), id@) is None,
        },
{
    let ghost all = model_views(models@);
    let key = chars_of(id);
    let mut i: usize = 0;
    proof {
        assert(all.subrange(0, all.len() as int) =~= all);
    }
    while i < models.len()
        invariant
            i <= models.len(),
            all == model_views(models@),
            key@ == id@,
            find_model(all, id@) == find_model(all.subrange(i as int, all.len() as int), id@),
        decreases models.len() - i,
    {
        let ghost rest = all.subrange(i as int, all.len() as int);
        proof {
            assert(rest[0] == all[i as int]);
            assert(rest.drop_first() =~= all.subrange(i + 1, all.len() as int));
        }
        if seq_eq(&chars_of(models[i].id.as_str()), &key) {
            return Some(&models[i]);
        }
        i = i + 1;
    }
    None
}

impl<T, P> AgentProviderRegistry<T, P> {
    /// The first provider with the id.
    pub fn provider(&self, id: &str) -> (r: Option<&ResolvedAgentProvider<T>>)
        ensures
            match r {
                Some(p) => find_provider(provider_views(self.providers@), id@) == Some(provider_view(*p)),
                None => find_provider(provider_views(self.providers@), id@) is None,
            },
    {
        let ghost all = provider_views(self.providers@);
        let key = chars_of(id);
        let mut i: usize = 0;
        proof {
            assert(all.subrange(0, all.len() as int) =~= all);
        }
        while i < self.providers.len()
            invariant
                i <= self.providers.len(),
                all == provider_views(self.providers@),
                key@ == id@,
                find_provider(all, id@) == find_provider(all.subrange(i as int, all.len() as int), id@),
            decreases self.providers.len() - i,
        {
            let ghost rest = all.subrange(i as int, all.len() as int);
            proof {
                assert(rest[0] == all[i as int]);
                assert(rest.drop_first() =~= all.subrange(i + 1, all.len() as int));
            }
            if seq_eq(&chars_of(self.providers[i].id.as_str()), &key) {
                return Some(&self.providers[i]);
            }
            i = i + 1;
        }
        None
    }

    /// The active provider.
    pub fn active_provider(&self) -> (r: Option<&ResolvedAgentProvider<T>>)
        ensures
            match r {
                Some(p) => find_provider(provider_views(self.providers@), self.active_provider_id@) == Some(
                    provider_view(*p),
                ),
                None => find_provider(provider_views(self.providers@), self.active_provider_id@) is None,
            },
    {
        self.provider(self.active_provider_id.as_str())
    }

    /// The active model of the active provider.
    pub fn active_model(&self) -> (r: Option<&ResolvedAgentModel<T>>)
        ensures
            match r {
                Some(m) => match find_provider(provider_views(self.providers@), self.active_provider_id@) {
                    Some(p) => find_model(p.models, self.active_model_id@) == Some(model_view(*m)),
                    None => false,
                },
                None => match find_provider(provider_views(self.providers@), self.active_provider_id@) {
                    Some(p) => find_model(p.models, self.active_model_id@) is None,
                    None => true,
                },
            },
    {
        match self.active_provider() {
            Some(p) => find_model_in(&p.models, self.active_model_id.as_str()),
            None => None,
        }
    }

    /// The active search provider, when one is named.
    pub fn active_web_search_provider(&self) -> (r: Option<&ResolvedWebSearchProvider<P>>)
        ensures
            match r {
                Some(p) => match opt_string(self.active_web_search_id) {
                    Some(id) => find_web_search(web_search_provider_views(self.web_search_providers@), id) == Some(
                        web_search_provider_view(*p),
                    ),
                    None => false,
                },
                None => match opt_string(self.active_web_search_id) {
                    Some(id) => find_web_search(web_search_provider_views(self.web_search_providers@), id) is None,
                    None => true,
                },
            },
    {
        let id = match &self.active_web_search_id {
            Some(id) => chars_of(id.as_str()),
            None => return None,
        };
        let ghost all = web_search_provider_views(self.web_search_providers@);
        let mut i: usize = 0;
        proof {
            assert(all.subrange(0, all.len() as int) =~= all);
        }
        while i < self.web_search_providers.len()
            invariant
                i <= self.web_search_providers.len(),
                all == web_search_provider_views(self.web_search_providers@),
                opt_string(self.active_web_search_id) == Some(id@),
                find_web_search(all, id@) == find_web_search(all.subrange(i as int, all.len() as int), id@),
            decreases self.web_search_providers.len() - i,
        {
            let ghost rest = all.subrange(i as int, all.len() as int);
            proof {
                assert(rest[0] == all[i as int]);
                assert(rest.drop_first() =~= all.subrange(i + 1, all.len() as int));
            }
            if seq_eq(&chars_of(self.web_search_providers[i].id.as_str()), &id) {
                return Some(&self.web_search_providers[i]);
            }
            i = i + 1;
        }
        None
    }
}

/// The active provider exists and has the active model.
pub open spec fn active_model_check<T>(ps: Seq<ProviderView<T>>, provider_id: Seq<char>, model_id: Seq<char>) -> Result<
    (),
    Seq<char>,
> {
    match find_provider(ps, provider_id) {
        None => Err("active provider `"@ + provider_id + "` does not exist"@),
        Some(p) => if find_model(p.models, model_id) is Some {
            Ok(())
        } else {
            Err("active model `"@ + model_id + "` does not exist for provider `"@ + provider_id + "`"@)
        },
    }
}

pub fn validate_active_model<T, P>(registry: &AgentProviderRegistry<T, P>) -> (r: Result<(), RigAgentConfigError>)
    ensures
        match (r, active_model_check(provider_views(registry.providers@), registry.active_provider_id@, registry.active_model_id@)) {
            (Ok(_), Ok(_)) => true,
            (Err(e), Err(v)) => e.message@ == v,
            _ => false,
        },
{
    let pid = chars_of(registry.active_provider_id.as_str());
    let p = match registry.provider(registry.active_provider_id.as_str()) {
        Some(p) => p,
        None => return Err(error_of(surround("active provider `", &pid, "` does not exist"))),
    };
    if find_model_in(&p.models, registry.active_model_id.as_str()).is_some() {
        return Ok(());
    }
    let mut m = surround("active model `", &chars_of(registry.active_model_id.as_str()), "` does not exist for provider `");
    crate::text::append_chars(&mut m, &pid);
    crate::text::append_lit(&mut m, "`");
    Err(error_of(m))
}

/// The active provider, when there is one, has an API key; the error names
/// what to set.
pub open spec fn active_key_check<T>(ps: Seq<ProviderView<T>>, provider_id: Seq<char>) -> Result<(), Seq<char>> {
    match find_provider(ps, provider_id) {
        None => Ok(()),
        Some(p) => if p.api_key is Some {
            Ok(())
        } else if p.api_key_env.len() == 0 {
            Err("provider `"@ + p.id + "` must set api_key or api_key_env"@)
        } else {
            Err("provider API key env `"@ + p.api_key_env + "` is not set"@)
        },
    }
}

pub fn validate_active_provider_key<T, P>(registry: &AgentProviderRegistry<T, P>) -> (r: Result<(), RigAgentConfigError>)
    ensures
        match (r, active_key_check(provider_views(registry.providers@), registry.active_provider_id@)) {
            (Ok(_), Ok(_)) => true,
            (Err(e), Err(v)) => e.message@ == v,
            _ => false,
        },
{
    let p = match registry.active_provider() {
        Some(p) => p,
        None => return Ok(()),
    };
    if p.api_key.is_some() {
        return Ok(());
    }
    let env = chars_of(p.api_key_env.as_str());
    if env.len() == 0 {
        return Err(error_of(surround("provider `", &chars_of(p.id.as_str()), "` must set api_key or api_key_env")));
    }
    Err(error_of(surround("provider API key env `", &env, "` is not set")))
}

/// A named active search provider exists.
pub open spec fn active_web_search_check<P>(ps: Seq<WebSearchProviderView<P>>, id: Option<Seq<char>>) -> Result<(), Seq<char>> {
    match id {
        None => Ok(()),
        Some(i) => if find_web_search(ps, i) is Some {
            Ok(())
        } else {
            Err("active_web_search `"@ + i + "` does not match any web_search_providers"@)
        },
    }
}

pub fn validate_active_web_search<T, P>(registry: &AgentProviderRegistry<T, P>) -> (r: Result<(), RigAgentConfigError>)
    ensures
        match (
            r,
            active_web_search_check(web_search_provider_views(registry.web_search_providers@), opt_string(registry.active_web_search_id)),
        ) {
            (Ok(_), Ok(_)) => true,
            (Err(e), Err(v)) => e.message@ == v,
            _ => false,
        },
{
    match &registry.active_web_search_id {
        None => Ok(()),
        Some(id) => if registry.active_web_search_provider().is_some() {
            Ok(())
        } else {
            Err(error_of(surround("active_web_search `", &chars_of(id.as_str()), "` does not match any web_search_providers")))
        },
    }
}


// ---------------------------------------------------------------------------
// The settings of a run

/// The settings an agent run uses.
pub struct RigAgentConfig<T> {
    pub provider_id: String,
    pub provider_kind: AgentProviderKind,
    pub api_key: String,
    pub model: String,
    pub timeout_secs: u64,
    pub max_tokens: u64,
    pub temperature: T,
    pub reasoning_effort: Option<String>,
    pub service_label: Option<String>,
    pub native_web_search: bool,
    pub anthropic_version: Option<String>,
    pub base_url: Option<String>,
}

/// The settings of a run by their views.
pub struct RigConfigView<T> {
    pub provider_id: Seq<char>,
    pub provider_kind: AgentProviderKind,
    pub api_key: Seq<char>,
    pub model: Seq<char>,
    pub timeout_secs: u64,
    pub max_tokens: u64,
    pub temperature: T,
    pub reasoning_effort: Option<Seq<char>>,
    pub service_label: Option<Seq<char>>,
    pub native_web_search: bool,
    pub anthropic_version: Option<Seq<char>>,
    pub base_url: Option<Seq<char>>,
}

pub open spec fn rig_config_view<T>(c: RigAgentConfig<T>) -> RigConfigView<T> {
    RigConfigView {
        provider_id: c.provider_id@,
        provider_kind: c.provider_kind,
        api_key: c.api_key@,
        model: c.model@,
        timeout_secs: c.timeout_secs,
        max_tokens: c.max_tokens,
        temperature: c.temperature,
        reasoning_effort: opt_string(c.reasoning_effort),
        service_label: opt_string(c.service_label),
        native_web_search: c.native_web_search,
        anthropic_version: opt_string(c.anthropic_version),
        base_url: opt_string(c.base_url),
    }
}

pub open spec fn or_else(a: Option<Seq<char>>, b: Option<Seq<char>>) -> Option<Seq<char>> {
    match a {
        Some(x) => Some(x),
        None => b,
    }
}

/// The settings of a run from the registry and a selection: the selected
/// provider and model, else the active ones; the provider's key, which must
/// be set; the model's limits; a selected reasoning effort and service
/// label, falling back to the model's only when neither provider nor model
/// was selected; web search where the model both wants and supports it.
pub open spec fn selected_config<T, P>(reg: AgentProviderRegistry<T, P>, sel: RigAgentConfigSelection) -> Result<
    RigConfigView<T>,
    Seq<char>,
> {
    let pid = match opt_string(sel.provider_id) {
        Some(p) => p,
        None => reg.active_provider_id@,
    };
    let mid = match opt_string(sel.model_id) {
        Some(m) => m,
        None => reg.active_model_id@,
    };
    let explicit = sel.provider_id is Some || sel.model_id is Some;
    match find_provider(provider_views(reg.providers@), pid) {
        None => Err("active provider is missing"@),
        Some(p) => match find_model(p.models, mid) {
            None => Err("active model is missing"@),
            Some(m) => match p.api_key {
                None => Err("provider API key env `"@ + p.api_key_env + "` is not set"@),
                Some(key) => Ok(
                    RigConfigView {
                        provider_id: p.id,
                        provider_kind: p.kind,
                        api_key: key,
                        model: m.id,
                        timeout_secs: reg.defaults.timeout_secs,
                        max_tokens: m.max_tokens,
                        temperature: m.temperature,
                        reasoning_effort: if explicit {
                            opt_string(sel.reasoning_effort)
                        } else {
                            or_else(opt_string(sel.reasoning_effort), m.reasoning_effort)
                        },
                        service_label: if explicit {
                            opt_string(sel.service_label)
                        } else {
                            or_else(opt_string(sel.service_label), m.service_label)
                        },
                        native_web_search: m.native_web_search && m.web_search_supported,
                        anthropic_version: p.anthropic_version,
                        base_url: p.base_url,
                    },
                ),
            },
        },
    }
}

fn or_else_text(a: &Option<String>, b: &Option<String>) -> (r: Option<String>)
    ensures
        opt_string(r) == or_else(opt_string(*a), opt_string(*b)),
{
    match a {
        Some(x) => Some(clone_text(x)),
        None => clone_opt_text(b),
    }
}

pub fn rig_config_from_registry_selection<T: Copy, P>(
    registry: &AgentProviderRegistry<T, P>,
    selection: &RigAgentConfigSelection,
) -> (r: Result<RigAgentConfig<T>, RigAgentConfigError>)
    ensures
        match (r, selected_config(*registry, *selection)) {
            (Ok(c), Ok(v)) => rig_config_view(c) == v,
            (Err(e), Err(v)) => e.message@ == v,
            _ => false,
        },
{
    let pid = match &selection.provider_id {
        Some(p) => p.as_str(),
        None => registry.active_provider_id.as_str(),
    };
    let mid = match &selection.model_id {
        Some(m) => m.as_str(),
        None => registry.active_model_id.as_str(),
    };
    let provider = match registry.provider(pid) {
        Some(p) => p,
        None => return Err(RigAgentConfigError { message: "active provider is missing".to_owned() }),
    };
    let model = match find_model_in(&provider.models, mid) {
        Some(m) => m,
        None => return Err(RigAgentConfigError { message: "active model is missing".to_owned() }),
    };
    let api_key = match &provider.api_key {
        Some(k) => clone_text(k),
        None => {
            return Err(error_of(surround("provider API key env `", &chars_of(provider.api_key_env.as_str()), "` is not set")));
        },
    };
    let explicit = selection.provider_id.is_some() || selection.model_id.is_some();
    Ok(RigAgentConfig {
        provider_id: clone_text(&provider.id),
        provider_kind: provider.kind,
        api_key,
        model: clone_text(&model.id),
        timeout_secs: registry.defaults.timeout_secs,
        max_tokens: model.max_tokens,
        temperature: model.temperature,
        reasoning_effort: if explicit {
            clone_opt_text(&selection.reasoning_effort)
        } else {
            or_else_text(&selection.reasoning_effort, &model.reasoning_effort)
        },
        service_label: if explicit {
            clone_opt_text(&selection.service_label)
        } else {
            or_else_text(&selection.service_label, &model.service_label)
        },
        native_web_search: model.native_web_search && model.web_search_supported,
        anthropic_version: clone_opt_text(&provider.anthropic_version),
        base_url: clone_opt_text(&provider.base_url),
    })
}

// ---------------------------------------------------------------------------
// The configuration file

/// The agent configuration file with several providers.
pub struct AgentsConfigFile<T, P> {
    pub active_provider: String,
    pub active_model: String,
    pub defaults: Option<AgentConfigDefaultsFile<T>>,
    pub providers: Vec<AgentProviderFile<T>>,
    pub active_web_search: Option<String>,
    pub web_search_providers: Vec<WebSearchProviderFile<P>>,
}

/// A registry by its views.
pub struct RegistryView<T, P> {
    pub active_provider_id: Seq<char>,
    pub active_model_id: Seq<char>,
    pub defaults: AgentConfigDefaults<T>,
    pub providers: Seq<ProviderView<T>>,
    pub active_web_search_id: Option<Seq<char>>,
    pub web_search_providers: Seq<WebSearchProviderView<P>>,
}

pub open spec fn registry_view<T, P>(r: AgentProviderRegistry<T, P>) -> RegistryView<T, P> {
    RegistryView {
        active_provider_id: r.active_provider_id@,
        active_model_id: r.active_model_id@,
        defaults: r.defaults,
        providers: provider_views(r.providers@),
        active_web_search_id: opt_string(r.active_web_search_id),
        web_search_providers: web_search_provider_views(r.web_search_providers@),
    }
}

/// The registry a configuration file describes in an environment: the
/// defaults, the providers, the search providers, the active provider and
/// model (trimmed, not blank) resolved in that order; then the active model
/// must exist, the active provider must have a key, and a named active
/// search provider must exist.
pub open spec fn registry_of<T, P>(
    f: AgentsConfigFile<T, P>,
    env: Seq<(Seq<char>, Seq<char>)>,
    fallback_temperature: T,
) -> Result<RegistryView<T, P>, Seq<char>> {
    let defaults = defaults_of(f.defaults, fallback_temperature);
    match configured_providers(f.providers@, defaults, env) {
        Err(e) => Err(e),
        Ok(providers) => {
            let active_web_search = non_empty_spec(opt_string(f.active_web_search));
            match configured_web_search_providers(f.web_search_providers@) {
                Err(e) => Err(e),
                Ok(web) => match require_non_empty_spec("active_provider"@, f.active_provider@) {
                    Err(e) => Err(e),
                    Ok(ap) => match require_non_empty_spec("active_model"@, f.active_model@) {
                        Err(e) => Err(e),
                        Ok(am) => if let Err(e) = active_model_check(providers, ap, am) {
                            Err(e)
                        } else if let Err(e) = active_key_check(providers, ap) {
                            Err(e)
                        } else if let Err(e) = active_web_search_check(web, active_web_search) {
                            Err(e)
                        } else {
                            Ok(
                                RegistryView {
                                    active_provider_id: ap,
                                    active_model_id: am,
                                    defaults,
                                    providers,
                                    active_web_search_id: active_web_search,
                                    web_search_providers: web,
                                },
                            )
                        },
                    },
                },
            }
        },
    }
}

/// The registry of a configuration file; `env` is the process environment
/// as name and value pairs, `fallback_temperature` the temperature used
/// where the file sets none.
pub fn into_registry<T: Copy, P>(file: AgentsConfigFile<T, P>, env: &Vec<(String, String)>, fallback_temperature: T) -> (r:
    Result<AgentProviderRegistry<T, P>, RigAgentConfigError>)
    ensures
        match (r, registry_of(file, env_views(env@), fallback_temperature)) {
            (Ok(g), Ok(v)) => registry_view(g) == v,
            (Err(e), Err(v)) => e.message@ == v,
            _ => false,
        },
{
    let ghost f = file;
    let AgentsConfigFile { active_provider, active_model, defaults, providers, active_web_search, web_search_providers } =
        file;
    let defaults = resolve_defaults(defaults, fallback_temperature);
    let providers = match resolve_providers(&providers, &defaults, env) {
        Ok(p) => p,
        Err(e) => return Err(e),
    };
    let active_web_search_id = non_empty(active_web_search);
    let web_search_providers = match resolve_web_search_providers(web_search_providers) {
        Ok(p) => p,
        Err(e) => return Err(e),
    };
    let active_provider_id = match require_non_empty("active_provider", active_provider) {
        Ok(v) => v,
        Err(e) => return Err(e),
    };
    let active_model_id = match require_non_empty("active_model", active_model) {
        Ok(v) => v,
        Err(e) => return Err(e),
    };
    let registry = AgentProviderRegistry {
        active_provider_id,
        active_model_id,
        defaults,
        providers,
        active_web_search_id,
        web_search_providers,
    };
    if let Err(e) = validate_active_model(&registry) {
        return Err(e);
    }
    if let Err(e) = validate_active_provider_key(&registry) {
        return Err(e);
    }
    if let Err(e) = validate_active_web_search(&registry) {
        return Err(e);
    }
    Ok(registry)
}


// ---------------------------------------------------------------------------
// Single-provider configurations

/// The older configuration file with one OpenAI key.
pub struct LegacyRigAgentConfigFile<T> {
    pub api_key: String,
    pub model: Option<String>,
    pub timeout_secs: Option<u64>,
    pub max_tokens: Option<u64>,
    pub temperature: Option<T>,
    pub reasoning_effort: Option<String>,
    pub native_web_search: Option<bool>,
}

/// The settings of the older file: its key, which must not be empty, on
/// the OpenAI Responses API; the model `gpt-5.2`, 120 seconds, 8192 tokens,
/// the given temperature and web search unless the file sets them; the
/// reasoning effort trimmed.
pub open spec fn legacy_config<T>(f: LegacyRigAgentConfigFile<T>, fallback_temperature: T) -> Result<RigConfigView<T>, Seq<char>> {
    if f.api_key@.len() == 0 {
        Err("api_key is empty"@)
    } else {
        Ok(
            RigConfigView {
                provider_id: "openai"@,
                provider_kind: AgentProviderKind::OpenAiResponses,
                api_key: f.api_key@,
                model: match opt_string(f.model) {
                    Some(m) => m,
                    None => "gpt-5.2"@,
                },
                timeout_secs: match f.timeout_secs {
                    Some(v) => v,
                    None => 120,
                },
                max_tokens: match f.max_tokens {
                    Some(v) => v,
                    None => 8192,
                },
                temperature: match f.temperature {
                    Some(t) => t,
                    None => fallback_temperature,
                },
                reasoning_effort: non_empty_spec(opt_string(f.reasoning_effort)),
                service_label: None,
                native_web_search: match f.native_web_search {
                    Some(b) => b,
                    None => true,
                },
                anthropic_version: None,
                base_url: None,
            },
        )
    }
}

pub fn legacy_into_config<T: Copy>(file: LegacyRigAgentConfigFile<T>, fallback_temperature: T) -> (r: Result<
    RigAgentConfig<T>,
    RigAgentConfigError,
>)
    ensures
        match (r, legacy_config(file, fallback_temperature)) {
            (Ok(c), Ok(v)) => rig_config_view(c) == v,
            (Err(e), Err(v)) => e.message@ == v,
            _ => false,
        },
{
    let ghost f = file;
    let LegacyRigAgentConfigFile { api_key, model, timeout_secs, max_tokens, temperature, reasoning_effort, native_web_search } =
        file;
    if chars_of(api_key.as_str()).len() == 0 {
        return Err(RigAgentConfigError { message: "api_key is empty".to_owned() });
    }
    Ok(RigAgentConfig {
        provider_id: "openai".to_owned(),
        provider_kind: AgentProviderKind::OpenAiResponses,
        api_key,
        model: match model {
            Some(m) => m,
            None => default_model(),
        },
        timeout_secs: match timeout_secs {
            Some(v) => v,
            None => 120,
        },
        max_tokens: match max_tokens {
            Some(v) => v,
            None => 8192,
        },
        temperature: match temperature {
            Some(t) => t,
            None => fallback_temperature,
        },
        reasoning_effort: non_empty(reasoning_effort),
        service_label: None,
        native_web_search: match native_web_search {
            Some(b) => b,
            None => true,
        },
        anthropic_version: None,
        base_url: None,
    })
}

/// A flag variable is on when its trimmed value is `1`, `true`, `yes` or
/// `on`, in any ASCII case.
pub open spec fn flag_on(value: Seq<char>) -> bool {
    let v = lower_seq(trim(value));
    v == "1"@ || v == "true"@ || v == "yes"@ || v == "on"@
}

fn flag_on_exec(value: &str) -> (r: bool)
    ensures
        r == flag_on(value@),
{
    let v = lower_exec(&trim_exec(&chars_of(value)));
    eq_lit(&v, "1") || eq_lit(&v, "true") || eq_lit(&v, "yes") || eq_lit(&v, "on")
}

/// A number variable's value where it parses, else the default.
pub open spec fn number_or(v: Option<Seq<char>>, default: u64) -> u64 {
    match v {
        Some(t) => match parse_u64(t) {
            Some(n) => n,
            None => default,
        },
        None => default,
    }
}

/// The settings of a run from the environment alone: the OpenAI key
/// (`BUDN_AGENT_OPENAI_API_KEY`, else `OPENAI_API_KEY`), none when it is
/// unset or empty; `BUDN_AGENT_MODEL`, else `gpt-5.2`; the timeout and
/// token limits where they parse, else 120 and 8192; the temperature read
/// from `BUDN_AGENT_TEMPERATURE` where it parsed, else the fallback; the
/// reasoning effort trimmed; web search on unless
/// `BUDN_AGENT_NATIVE_WEB_SEARCH` is set to something that is not on.
pub open spec fn env_config<T>(env: Seq<(Seq<char>, Seq<char>)>, temperature: Option<T>, fallback_temperature: T) -> Option<
    RigConfigView<T>,
> {
    let key = match env_lookup(env, "BUDN_AGENT_OPENAI_API_KEY"@) {
        Some(k) => Some(k),
        None => env_lookup(env, "OPENAI_API_KEY"@),
    };
    match key {
        None => None,
        Some(k) => if k.len() == 0 {
            None
        } else {
            Some(
                RigConfigView {
                    provider_id: "openai"@,
                    provider_kind: AgentProviderKind::OpenAiResponses,
                    api_key: k,
                    model: match env_lookup(env, "BUDN_AGENT_MODEL"@) {
                        Some(m) => m,
                        None => "gpt-5.2"@,
                    },
                    timeout_secs: number_or(env_lookup(env, "BUDN_AGENT_TIMEOUT_SECS"@), 120),
                    max_tokens: number_or(env_lookup(env, "BUDN_AGENT_MAX_TOKENS"@), 8192),
                    temperature: match temperature {
                        Some(t) => t,
                        None => fallback_temperature,
                    },
                    reasoning_effort: non_empty_spec(env_lookup(env, "BUDN_AGENT_REASONING_EFFORT"@)),
                    service_label: None,
                    native_web_search: match env_lookup(env, "BUDN_AGENT_NATIVE_WEB_SEARCH"@) {
                        Some(v) => flag_on(v),
                        None => true,
                    },
                    anthropic_version: None,
                    base_url: None,
                },
            )
        },
    }
}

fn number_var(env: &Vec<(String, String)>, name: &str, default: u64) -> (r: u64)
    ensures
        r == number_or(env_lookup(env_views(env@), name@), default),
{
    match env_var(env, name) {
        Some(t) => match parse_u64_exec(&chars_of(t.as_str())) {
            Some(n) => n,
            None => default,
        },
        None => default,
    }
}

/// The settings of a run from the environment, given as name and value
/// pairs; `temperature` is what `BUDN_AGENT_TEMPERATURE` parsed to, if it
/// did.
pub fn config_from_env<T: Copy>(env: &Vec<(String, String)>, temperature: Option<T>, fallback_temperature: T) -> (r:
    Option<RigAgentConfig<T>>)
    ensures
        match (r, env_config(env_views(env@), temperature, fallback_temperature)) {
            (Some(c), Some(v)) => rig_config_view(c) == v,
            (None, None) => true,
            _ => false,
        },
{
    let key = match env_var(env, "BUDN_AGENT_OPENAI_API_KEY") {
        Some(k) => k,
        None => match env_var(env, "OPENAI_API_KEY") {
            Some(k) => k,
            None => return None,
        },
    };
    if chars_of(key.as_str()).len() == 0 {
        return None;
    }
    Some(RigAgentConfig {
        provider_id: "openai".to_owned(),
        provider_kind: AgentProviderKind::OpenAiResponses,
        api_key: key,
        model: match env_var(env, "BUDN_AGENT_MODEL") {
            Some(m) => m,
            None => default_model(),
        },
        timeout_secs: number_var(env, "BUDN_AGENT_TIMEOUT_SECS", 120),
        max_tokens: number_var(env, "BUDN_AGENT_MAX_TOKENS", 8192),
        temperature: match temperature {
            Some(t) => t,
            None => fallback_temperature,
        },
        reasoning_effort: non_empty(env_var(env, "BUDN_AGENT_REASONING_EFFORT")),
        service_label: None,
        native_web_search: match env_var(env, "BUDN_AGENT_NATIVE_WEB_SEARCH") {
            Some(v) => flag_on_exec(v.as_str()),
            None => true,
        },
        anthropic_version: None,
        base_url: None,
    })
}

/// The registry of a single OpenAI provider with one model, as the
/// environment describes it: active, with model discovery not yet run and
/// the standard defaults.
pub open spec fn openai_registry<T, P>(api_key: Seq<char>, model: ModelView<T>, default_temperature: T) -> RegistryView<T, P> {
    let defaults = AgentConfigDefaults {
        timeout_secs: 120,
        max_tokens: 8192,
        temperature: default_temperature,
        native_web_search: true,
        discover_models: true,
    };
    RegistryView {
        active_provider_id: "openai"@,
        active_model_id: model.id,
        defaults,
        providers: seq![
            ProviderView {
                id: "openai"@,
                kind: AgentProviderKind::OpenAiResponses,
                api_key: Some(api_key),
                api_key_env: "BUDN_AGENT_OPENAI_API_KEY"@,
                anthropic_version: None,
                base_url: None,
                discover_models: true,
                model_discovery_status: ModelDiscoveryStatus::NotStarted,
                defaults,
                models: seq![model],
            },
        ],
        active_web_search_id: None,
        web_search_providers: Seq::<WebSearchProviderView<P>>::empty(),
    }
}

pub fn registry_from_openai_model<T: Copy, P>(api_key: String, model: ResolvedAgentModel<T>, default_temperature: T) -> (r:
    AgentProviderRegistry<T, P>)
    ensures
        registry_view(r) == openai_registry::<T, P>(api_key@, model_view(model), default_temperature),
{
    let defaults = AgentConfigDefaults {
        timeout_secs: 120,
        max_tokens: 8192,
        temperature: default_temperature,
        native_web_search: true,
        discover_models: true,
    };
    let active_model_id = clone_text(&model.id);
    let ghost mv = model_view(model);
    let models = vec![model];
    let providers = vec![
        ResolvedAgentProvider {
            id: "openai".to_owned(),
            kind: AgentProviderKind::OpenAiResponses,
            api_key: Some(api_key),
            api_key_env: "BUDN_AGENT_OPENAI_API_KEY".to_owned(),
            anthropic_version: None,
            base_url: None,
            discover_models: true,
            model_discovery_status: ModelDiscoveryStatus::NotStarted,
            defaults,
            models,
        },
    ];
    let r = AgentProviderRegistry {
        active_provider_id: "openai".to_owned(),
        active_model_id,
        defaults,
        providers,
        active_web_search_id: None,
        web_search_providers: Vec::new(),
    };
    proof {
        assert(model_views(r.providers@[0].models@) =~= seq![mv]);
        assert(provider_views(r.providers@) =~= openai_registry::<T, P>(api_key@, mv, default_temperature).providers);
        assert(web_search_provider_views(r.web_search_providers@) =~= Seq::<WebSearchProviderView<P>>::empty());
    }
    r
}

/// The registry the environment describes: its one model named after the
/// configured model, with the run's limits and web search.
pub fn registry_from_env<T: Copy, P>(env: &Vec<(String, String)>, temperature: Option<T>, fallback_temperature: T) -> (r:
    Option<AgentProviderRegistry<T, P>>)
    ensures
        match (r, env_config(env_views(env@), temperature, fallback_temperature)) {
            (Some(g), Some(c)) => registry_view(g) == openai_registry::<T, P>(
                c.api_key,
                ModelView {
                    id: c.model,
                    label: Some(c.model),
                    max_tokens: c.max_tokens,
                    temperature: c.temperature,
                    reasoning_effort: c.reasoning_effort,
                    service_label: None,
                    native_web_search: c.native_web_search,
                    web_search_supported: true,
                    web_search_unsupported_reason: None,
                    source: AgentModelSource::Manual,
                    explicit: none_explicit(),
                },
                fallback_temperature,
            ),
            (None, None) => true,
            _ => false,
        },
{
    let config = match config_from_env(env, temperature, fallback_temperature) {
        Some(c) => c,
        None => return None,
    };
    let model = ResolvedAgentModel {
        id: clone_text(&config.model),
        label: Some(clone_text(&config.model)),
        max_tokens: config.max_tokens,
        temperature: config.temperature,
        reasoning_effort: clone_opt_text(&config.reasoning_effort),
        service_label: None,
        native_web_search: config.native_web_search,
        web_search_supported: true,
        web_search_unsupported_reason: None,
        source: AgentModelSource::Manual,
        explicit: no_explicit_fields(),
    };
    Some(registry_from_openai_model(config.api_key, model, fallback_temperature))
}

proof fn lemma_found_provider_listed<T>(ps: Seq<ProviderView<T>>, id: Seq<char>)
    ensures
        find_provider(ps, id) matches Some(p) ==> p.id == id && exists|i: int| 0 <= i < ps.len() && #[trigger] ps[i] == p,
    decreases ps.len(),
{
    if ps.len() > 0 && ps[0].id != id {
        lemma_found_provider_listed(ps.drop_first(), id);
        if let Some(p) = find_provider(ps.drop_first(), id) {
            let i = choose|i: int| 0 <= i < ps.drop_first().len() && #[trigger] ps.drop_first()[i] == p;
            assert(ps[i + 1] == p);
        }
    }
}

proof fn lemma_found_model_listed<T>(ms: Seq<ModelView<T>>, id: Seq<char>)
    ensures
        find_model(ms, id) matches Some(m) ==> m.id == id && exists|j: int| 0 <= j < ms.len() && #[trigger] ms[j] == m,
    decreases ms.len(),
{
    if ms.len() > 0 && ms[0].id != id {
        lemma_found_model_listed(ms.drop_first(), id);
        if let Some(m) = find_model(ms.drop_first(), id) {
            let j = choose|j: int| 0 <= j < ms.drop_first().len() && #[trigger] ms.drop_first()[j] == m;
            assert(ms[j + 1] == m);
        }
    }
}

/// Native web search is only asked of a model that supports it: a run
/// configuration with native web search names a provider of the registry
/// with a model of that id that both wants and supports it; and where the
/// model the selection picks wants and supports it, the configuration asks
/// for it.
pub proof fn law_native_web_search_needs_support<T, P>(reg: AgentProviderRegistry<T, P>, sel: RigAgentConfigSelection)
    ensures
        selected_config(reg, sel) matches Ok(c) ==> (c.native_web_search ==> exists|i: int, j: int|
            0 <= i < provider_views(reg.providers@).len() && provider_views(reg.providers@)[i].id == c.provider_id && 0 <= j
                < provider_views(reg.providers@)[i].models.len() && #[trigger] provider_views(reg.providers@)[i].models[j].id
                == c.model && provider_views(reg.providers@)[i].models[j].web_search_supported
                && provider_views(reg.providers@)[i].models[j].native_web_search),
        selected_config(reg, sel) matches Ok(c) ==> (find_provider(provider_views(reg.providers@), c.provider_id) matches Some(
            p,
        ) && find_model(p.models, c.model) matches Some(m) && (m.native_web_search && m.web_search_supported
            ==> c.native_web_search) && p.api_key == Some(c.api_key) && p.kind == c.provider_kind && m.max_tokens
            == c.max_tokens && m.temperature == c.temperature && c.timeout_secs == reg.defaults.timeout_secs),
        selected_config(reg, sel) matches Ok(c) ==> (sel.provider_id matches Some(q) ==> c.provider_id == q@) && (
        sel.model_id matches Some(q) ==> c.model == q@),
{
    let ps = provider_views(reg.providers@);
    let pid = match opt_string(sel.provider_id) {
        Some(p) => p,
        None => reg.active_provider_id@,
    };
    let mid = match opt_string(sel.model_id) {
        Some(m) => m,
        None => reg.active_model_id@,
    };
    lemma_found_provider_listed(ps, pid);
    if let Some(p) = find_provider(ps, pid) {
        lemma_found_model_listed(p.models, mid);
        if let Some(m) = find_model(p.models, mid) {
            let i = choose|i: int| 0 <= i < ps.len() && #[trigger] ps[i] == p;
            let j = choose|j: int| 0 <= j < p.models.len() && #[trigger] p.models[j] == m;
            assert(ps[i].models[j] == m);
        }
    }
}

} // verus!
