//! The registry as resources: `urn:llm:config`, what is configured, and `urn:llm:models`,
//! the inventory of models and what they can do.

use crate::annotate::{backend_iri, backend_of};
use crate::answer::{asks_form, json_answer, structured, wants, Answer, AnswerView};
use crate::config::{
    any_discovering, discovers, Caps, CapsView, OpenAiConfig, OpenAiConfigView, Registry,
    RegistryView,
};
use crate::discover::{
    completing_comes_to_its_outcome, discovery_goes_on, effective_from, effective_next,
    effective_outcome, effective_registry, effective_run, looking_left, looking_stage,
    providers_left, resume_effective, EffectiveState, EffectiveStateView, EffectiveStep,
    EffectiveStepView,
};
use crate::json::{
    bool_or_null, json_bytes, json_null, json_of, json_opt_bool, json_opt_natural,
    json_opt_text, json_text, json_texts, json_write, natural_or_null, text_list, text_or_null,
    JsonView, Members,
};
use crate::listing::Server;
use crate::net::{reply_view, scopes_of, HttpCall, HttpCallView, HttpReply};
use crate::turtle::{inventory_turtle, write_turtle};
use vstd::prelude::*;
use vstd::string::*;
use vstd::utf8::encode_utf8;

verus! {

// ---- urn:llm:config ----------------------------------------------------------------

/// What is shown of a key: that there is one.
pub open spec fn masked(api_key: Option<Seq<char>>) -> JsonView {
    match api_key {
        Some(_) => JsonView::Text("***"@),
        None => JsonView::Null,
    }
}

/// What is reported of one provider's configuration.
pub open spec fn reported(config: OpenAiConfigView) -> JsonView {
    JsonView::Object(
        Map::<Seq<char>, JsonView>::empty().insert(
            "base_url"@,
            JsonView::Text(config.base_url),
        ).insert("model"@, text_or_null(config.default_model)).insert(
            "api_key"@,
            masked(config.api_key),
        ),
    )
}

/// The providers by name, each as it is reported.
pub open spec fn reported_all(providers: Seq<OpenAiConfigView>) -> Map<Seq<char>, JsonView>
    decreases providers.len(),
{
    if providers.len() == 0 {
        Map::empty()
    } else {
        reported_all(providers.drop_last()).insert(
            providers.last().provider,
            reported(providers.last()),
        )
    }
}

/// The registry as `urn:llm:config` reports it.
pub open spec fn config_report(registry: RegistryView) -> JsonView {
    JsonView::Object(
        Map::<Seq<char>, JsonView>::empty().insert(
            "default"@,
            JsonView::Text(registry.default),
        ).insert("providers"@, JsonView::Object(reported_all(registry.providers))),
    )
}

/// `urn:llm:config`: the registry, keys redacted so that the resource never leaks one.
#[derive(Debug)]
pub struct ConfigEndpoint {
    pub registry: Registry,
}

impl View for ConfigEndpoint {
    type V = RegistryView;

    open spec fn view(&self) -> RegistryView {
        self.registry@
    }
}

fn report_provider(config: &OpenAiConfig) -> (value: serde_json::Value)
    ensures
        json_of(value) == reported(config@),
{
    let key = match &config.api_key {
        Some(_) => json_text("***"),
        None => json_null(),
    };
    let mut members = Members::new();
    members.put("base_url", json_text(config.base_url.as_str()));
    members.put("model", json_opt_text(&config.default_model));
    members.put("api_key", key);
    members.object()
}

impl ConfigEndpoint {
    /// The resource over `registry`.
    pub fn new(registry: Registry) -> (endpoint: ConfigEndpoint)
        ensures
            endpoint@ == registry@,
    {
        ConfigEndpoint { registry }
    }

    /// The registry as it is configured. Nothing is asked of any server, so the answer is
    /// cacheable.
    pub fn report(&self) -> (answer: Answer)
        ensures
            answer@ == json_answer(json_bytes(config_report(self@)), true),
    {
        let providers = &self.registry.providers;
        let ghost all = self@.providers;
        let mut entries = Members::new();
        let mut i: usize = 0;
        while i < providers.len()
            invariant
                i <= providers.len(),
                all == providers.deep_view(),
                entries@ == reported_all(all.take(i as int)),
            decreases providers.len() - i,
        {
            assert(all.take(i + 1).drop_last() =~= all.take(i as int));
            assert(all.take(i + 1).last() == providers@[i as int]@);
            entries.put(providers[i].provider.as_str(), report_provider(&providers[i]));
            i = i + 1;
        }
        assert(all.take(i as int) =~= all);
        let mut members = Members::new();
        members.put("default", json_text(self.registry.default.as_str()));
        members.put("providers", entries.object());
        structured(json_write(&members.object()), true)
    }
}

/// Whether two rows of providers are alike in what is reported: names, servers, models, and
/// whether there is a key.
pub open spec fn same_reported(
    left: Seq<OpenAiConfigView>,
    right: Seq<OpenAiConfigView>,
) -> bool {
    left.len() == right.len() && forall|i: int|
        0 <= i < left.len() ==> {
            &&& (#[trigger] left[i]).provider == right[i].provider
            &&& left[i].base_url == right[i].base_url
            &&& left[i].default_model == right[i].default_model
            &&& left[i].api_key is Some <==> right[i].api_key is Some
        }
}

/// Keys are redacted: what is reported depends on names, servers, models and whether there is
/// a key, and not on what any key is, nor on any profile.
pub proof fn keys_are_redacted(left: RegistryView, right: RegistryView)
    requires
        left.default == right.default,
        same_reported(left.providers, right.providers),
    ensures
        config_report(left) == config_report(right),
{
    reports_ignore_keys(left.providers, right.providers);
}

proof fn reports_ignore_keys(left: Seq<OpenAiConfigView>, right: Seq<OpenAiConfigView>)
    requires
        same_reported(left, right),
    ensures
        reported_all(left) == reported_all(right),
    decreases left.len(),
{
    if left.len() > 0 {
        assert forall|i: int| 0 <= i < left.drop_last().len() implies #[trigger] left.drop_last()[i]
            == left[i] && right.drop_last()[i] == right[i] by {}
        reports_ignore_keys(left.drop_last(), right.drop_last());
        assert(left[left.len() - 1] == left.last());
    }
}

// ---- the inventory as JSON ---------------------------------------------------------

/// A profile as JSON.
pub open spec fn caps_json(caps: CapsView) -> JsonView {
    JsonView::Object(
        Map::<Seq<char>, JsonView>::empty().insert(
            "context"@,
            natural_or_null(caps.context),
        ).insert("modalities"@, text_list(caps.modalities)).insert(
            "tools"@,
            bool_or_null(caps.tools),
        ).insert("json"@, bool_or_null(caps.json)).insert("cost"@, text_or_null(caps.cost)).insert(
            "vendor"@,
            text_or_null(caps.vendor),
        ).insert("batchAt"@, natural_or_null(caps.batch_at)).insert(
            "params"@,
            text_or_null(caps.params),
        ),
    )
}

/// A provider's entry in the inventory.
pub open spec fn inventory_entry(config: OpenAiConfigView) -> JsonView {
    JsonView::Object(
        Map::<Seq<char>, JsonView>::empty().insert(
            "backend"@,
            JsonView::Text(backend_iri(config.provider)),
        ).insert("model"@, text_or_null(config.default_model)).insert(
            "base_url"@,
            JsonView::Text(config.base_url),
        ).insert("caps"@, caps_json(config.caps)),
    )
}

/// The providers by name, each as its entry.
pub open spec fn inventory_entries(providers: Seq<OpenAiConfigView>) -> Map<Seq<char>, JsonView>
    decreases providers.len(),
{
    if providers.len() == 0 {
        Map::empty()
    } else {
        inventory_entries(providers.drop_last()).insert(
            providers.last().provider,
            inventory_entry(providers.last()),
        )
    }
}

/// The inventory as JSON.
pub open spec fn inventory_json(registry: RegistryView) -> JsonView {
    JsonView::Object(
        Map::<Seq<char>, JsonView>::empty().insert(
            "default"@,
            JsonView::Text(registry.default),
        ).insert("models"@, JsonView::Object(inventory_entries(registry.providers))),
    )
}

fn write_caps(caps: &Caps) -> (value: serde_json::Value)
    ensures
        json_of(value) == caps_json(caps@),
{
    let mut members = Members::new();
    members.put("context", json_opt_natural(caps.context));
    members.put("modalities", json_texts(&caps.modalities));
    members.put("tools", json_opt_bool(caps.tools));
    members.put("json", json_opt_bool(caps.json));
    members.put("cost", json_opt_text(&caps.cost));
    members.put("vendor", json_opt_text(&caps.vendor));
    members.put("batchAt", json_opt_natural(caps.batch_at));
    members.put("params", json_opt_text(&caps.params));
    members.object()
}

fn write_entry(config: &OpenAiConfig) -> (value: serde_json::Value)
    ensures
        json_of(value) == inventory_entry(config@),
{
    let backend = backend_of(config.provider.as_str());
    let mut members = Members::new();
    members.put("backend", json_text(backend.as_str()));
    members.put("model", json_opt_text(&config.default_model));
    members.put("base_url", json_text(config.base_url.as_str()));
    members.put("caps", write_caps(&config.caps));
    members.object()
}

// ---- urn:llm:models ----------------------------------------------------------------

/// The inventory in the form that is asked for: Turtle, or else JSON.
pub open spec fn inventory_answer(
    registry: RegistryView,
    form: Option<Seq<char>>,
    cacheable: bool,
) -> AnswerView {
    if asks_form(form, "turtle"@) {
        AnswerView {
            media: "text/turtle"@,
            body: encode_utf8(inventory_turtle(registry)),
            cacheable,
        }
    } else {
        json_answer(json_bytes(inventory_json(registry)), cacheable)
    }
}

/// What reporting the inventory waits for.
#[derive(Debug)]
pub struct ModelsState {
    pub form: Option<String>,
    pub discovery: EffectiveState,
}

/// [`ModelsState`] over sequences.
#[verifier::ext_equal]
pub struct ModelsStateView {
    pub form: Option<Seq<char>>,
    pub discovery: EffectiveStateView,
}

impl View for ModelsState {
    type V = ModelsStateView;

    open spec fn view(&self) -> ModelsStateView {
        ModelsStateView { form: self.form.deep_view(), discovery: self.discovery@ }
    }
}

/// What reporting the inventory wants next.
#[derive(Debug)]
pub enum ModelsStep {
    /// Send the request, and hand back what came of it.
    Send { call: HttpCall, state: ModelsState },
    /// The inventory.
    Done(Answer),
}

/// [`ModelsStep`] over sequences.
#[verifier::ext_equal]
pub enum ModelsStepView {
    Send { call: HttpCallView, state: ModelsStateView },
    Done(AnswerView),
}

impl View for ModelsStep {
    type V = ModelsStepView;

    open spec fn view(&self) -> ModelsStepView {
        match self {
            ModelsStep::Send { call, state } => ModelsStepView::Send {
                call: call@,
                state: state@,
            },
            ModelsStep::Done(answer) => ModelsStepView::Done(answer@),
        }
    }
}

/// A step of completing the registry as one of reporting it. The answer is cacheable while
/// every provider pins a model.
pub open spec fn models_by(
    registry: RegistryView,
    form: Option<Seq<char>>,
    step: EffectiveStepView,
) -> ModelsStepView {
    match step {
        EffectiveStepView::Send { call, state } => ModelsStepView::Send {
            call,
            state: ModelsStateView { form, discovery: state },
        },
        EffectiveStepView::Done(effective) => ModelsStepView::Done(
            inventory_answer(effective, form, !discovers(registry)),
        ),
    }
}

/// `urn:llm:models`: the annotated inventory, every configured backend with its model and
/// what is declared and discovered of it.
#[derive(Debug)]
pub struct ModelsEndpoint {
    pub registry: Registry,
}

impl View for ModelsEndpoint {
    type V = RegistryView;

    open spec fn view(&self) -> RegistryView {
        self.registry@
    }
}

impl ModelsEndpoint {
    /// The resource over `registry`.
    pub fn new(registry: Registry) -> (endpoint: ModelsEndpoint)
        ensures
            endpoint@ == registry@,
    {
        ModelsEndpoint { registry }
    }

    /// The inventory as JSON.
    pub fn as_json(registry: &Registry) -> (value: serde_json::Value)
        ensures
            json_of(value) == inventory_json(registry@),
    {
        let providers = &registry.providers;
        let ghost all = registry@.providers;
        let mut entries = Members::new();
        let mut i: usize = 0;
        while i < providers.len()
            invariant
                i <= providers.len(),
                all == providers.deep_view(),
                entries@ == inventory_entries(all.take(i as int)),
            decreases providers.len() - i,
        {
            assert(all.take(i + 1).drop_last() =~= all.take(i as int));
            assert(all.take(i + 1).last() == providers@[i as int]@);
            entries.put(providers[i].provider.as_str(), write_entry(&providers[i]));
            i = i + 1;
        }
        assert(all.take(i as int) =~= all);
        let mut members = Members::new();
        members.put("default", json_text(registry.default.as_str()));
        members.put("models", entries.object());
        members.object()
    }

    /// The inventory as a trait graph in Turtle.
    pub fn as_turtle(registry: &Registry) -> (text: String)
        ensures
            text@ == inventory_turtle(registry@),
    {
        write_turtle(registry)
    }

    fn answer(&self, effective: &Registry, form: &Option<String>) -> (answer: Answer)
        ensures
            answer@ == inventory_answer(effective@, form.deep_view(), !discovers(self@)),
    {
        let cacheable = !any_discovering(&self.registry);
        if wants(form, "turtle") {
            let text = Self::as_turtle(effective);
            Answer {
                media: "text/turtle".to_owned(),
                body: text.as_str().as_bytes_vec(),
                cacheable,
            }
        } else {
            structured(json_write(&Self::as_json(effective)), cacheable)
        }
    }

    fn discovered(&self, form: Option<String>, step: EffectiveStep) -> (next: ModelsStep)
        ensures
            next@ == models_by(self@, form.deep_view(), step@),
    {
        match step {
            EffectiveStep::Send { call, state } => ModelsStep::Send {
                call,
                state: ModelsState { form, discovery: state },
            },
            EffectiveStep::Done(effective) => ModelsStep::Done(self.answer(&effective, &form)),
        }
    }

    /// Begin to report the inventory: declared profiles with gaps filled from the servers.
    pub fn report(&self, capability: &ikigai_core::Capability, form: Option<String>) -> (step:
        ModelsStep)
        ensures
            step@ == models_by(
                self@,
                form.deep_view(),
                effective_from(self@, scopes_of(*capability), 0),
            ),
    {
        self.discovered(form, effective_registry(&self.registry, capability))
    }

    /// Go on reporting the inventory, given what came back for the last request.
    pub fn resume(
        &self,
        capability: &ikigai_core::Capability,
        state: ModelsState,
        reply: Result<HttpReply, String>,
    ) -> (step: ModelsStep)
        ensures
            step@ == models_by(
                self@,
                state@.form,
                effective_next(state@.discovery, scopes_of(*capability), reply_view(reply)),
            ),
    {
        self.discovered(state.form, resume_effective(state.discovery, capability, reply))
    }
}

// ---- whole conversations -----------------------------------------------------------

/// The step of completing the registry that a step of reporting it stands for.
pub open spec fn models_discovery(step: ModelsStepView) -> EffectiveStepView {
    match step {
        ModelsStepView::Send { call, state } => EffectiveStepView::Send {
            call,
            state: state.discovery,
        },
        ModelsStepView::Done(_) => EffectiveStepView::Done(
            RegistryView { default: Seq::empty(), providers: Seq::empty() },
        ),
    }
}

/// Where reporting the inventory ends when it is carried through with the servers, its next
/// request being the one at `at`.
pub open spec fn models_run(
    step: ModelsStepView,
    registry: RegistryView,
    scopes: Option<Set<Seq<char>>>,
    server: Server,
    at: nat,
) -> AnswerView
    decreases
            providers_left(models_discovery(step)),
            looking_stage(models_discovery(step)),
            looking_left(models_discovery(step)),
    via models_run_ends
{
    match step {
        ModelsStepView::Done(answer) => answer,
        ModelsStepView::Send { call, state } => models_run(
            models_by(
                registry,
                state.form,
                effective_next(state.discovery, scopes, server(at, call)),
            ),
            registry,
            scopes,
            server,
            at + 1,
        ),
    }
}

#[via_fn]
proof fn models_run_ends(
    step: ModelsStepView,
    registry: RegistryView,
    scopes: Option<Set<Seq<char>>>,
    server: Server,
    at: nat,
) {
    if let ModelsStepView::Send { call, state } = step {
        discovery_goes_on(call, state.discovery, scopes, server(at, call));
    }
}

proof fn reporting_follows_discovery(
    step: EffectiveStepView,
    registry: RegistryView,
    form: Option<Seq<char>>,
    scopes: Option<Set<Seq<char>>>,
    server: Server,
    at: nat,
)
    ensures
        models_run(models_by(registry, form, step), registry, scopes, server, at)
            == inventory_answer(
            effective_run(step, scopes, server, at).0,
            form,
            !discovers(registry),
        ),
    decreases providers_left(step), looking_stage(step), looking_left(step),
{
    if let EffectiveStepView::Send { call, state } = step {
        discovery_goes_on(call, state, scopes, server(at, call));
        reporting_follows_discovery(
            effective_next(state, scopes, server(at, call)),
            registry,
            form,
            scopes,
            server,
            at + 1,
        );
    }
}

/// Carried through with any servers, reporting the inventory ends, and answers with the
/// completed registry; cacheable if and only if every provider pins a model.
pub proof fn reporting_comes_to_its_outcome(
    registry: RegistryView,
    form: Option<Seq<char>>,
    scopes: Option<Set<Seq<char>>>,
    server: Server,
    at: nat,
)
    ensures
        models_run(
            models_by(registry, form, effective_from(registry, scopes, 0)),
            registry,
            scopes,
            server,
            at,
        ) == inventory_answer(
            effective_outcome(registry, scopes, server, at, 0).0,
            form,
            !discovers(registry),
        ),
        inventory_answer(
            effective_outcome(registry, scopes, server, at, 0).0,
            form,
            !discovers(registry),
        ).cacheable == !discovers(registry),
{
    completing_comes_to_its_outcome(registry, scopes, server, at);
    reporting_follows_discovery(
        effective_from(registry, scopes, 0),
        registry,
        form,
        scopes,
        server,
        at,
    );
}

// ---- what the reports promise ------------------------------------------------------

/// Whether a value states an optional text: the text, or `null`.
pub open spec fn states_text(value: JsonView, text: Option<Seq<char>>) -> bool {
    match value {
        JsonView::Text(stated) => text == Some(stated),
        JsonView::Null => text is None,
        _ => false,
    }
}

/// Whether a value states an optional number: the number, or `null`.
pub open spec fn states_number(value: JsonView, number: Option<u64>) -> bool {
    match value {
        JsonView::Natural(stated) => number == Some(stated),
        JsonView::Null => number is None,
        _ => false,
    }
}

/// Whether a value states an optional flag: the flag, or `null`.
pub open spec fn states_flag(value: JsonView, flag: Option<bool>) -> bool {
    match value {
        JsonView::Bool(stated) => flag == Some(stated),
        JsonView::Null => flag is None,
        _ => false,
    }
}

/// Whether a provider is the last of its name.
pub open spec fn is_last_named(providers: Seq<OpenAiConfigView>, place: int) -> bool {
    &&& 0 <= place < providers.len()
    &&& forall|i: int|
        place < i < providers.len() ==> (#[trigger] providers[i]).provider
            != providers[place].provider
}

/// Whether a value is the configuration of a provider, its key masked: the server, the model
/// or `null`, and three stars for a key or `null` for none.
pub open spec fn states_config(value: JsonView, config: OpenAiConfigView) -> bool {
    &&& value matches JsonView::Object(members)
    &&& members.dom() == set!["base_url"@, "model"@, "api_key"@]
    &&& members["base_url"@] == JsonView::Text(config.base_url)
    &&& states_text(members["model"@], config.default_model)
    &&& states_text(
        members["api_key"@],
        if config.api_key is Some {
            Some("***"@)
        } else {
            None
        },
    )
}

/// Whether a value is a profile, trait by trait, `null` for what is not known.
pub open spec fn states_caps(value: JsonView, caps: CapsView) -> bool {
    &&& value matches JsonView::Object(members)
    &&& members.dom() == set![
        "context"@,
        "modalities"@,
        "tools"@,
        "json"@,
        "cost"@,
        "vendor"@,
        "batchAt"@,
        "params"@,
    ]
    &&& states_number(members["context"@], caps.context)
    &&& members["modalities"@] matches JsonView::List(items) && items.len()
        == caps.modalities.len() && forall|i: int|
        0 <= i < items.len() ==> #[trigger] items[i] == JsonView::Text(caps.modalities[i])
    &&& states_flag(members["tools"@], caps.tools)
    &&& states_flag(members["json"@], caps.json)
    &&& states_text(members["cost"@], caps.cost)
    &&& states_text(members["vendor"@], caps.vendor)
    &&& states_number(members["batchAt"@], caps.batch_at)
    &&& states_text(members["params"@], caps.params)
}

/// Whether a value is a provider's entry in the inventory: its backend, model, server and
/// profile.
pub open spec fn states_entry(value: JsonView, config: OpenAiConfigView) -> bool {
    &&& value matches JsonView::Object(members)
    &&& members.dom() == set!["backend"@, "model"@, "base_url"@, "caps"@]
    &&& members["backend"@] == JsonView::Text("urn:llm:"@ + config.provider + ":ask"@)
    &&& states_text(members["model"@], config.default_model)
    &&& members["base_url"@] == JsonView::Text(config.base_url)
    &&& states_caps(members["caps"@], config.caps)
}

/// Whether a value has each provider under its name, the last of a name where several have
/// it, and nothing else, each stated as `stated` says.
pub open spec fn has_each_by_name(
    value: JsonView,
    providers: Seq<OpenAiConfigView>,
    stated: spec_fn(JsonView, OpenAiConfigView) -> bool,
) -> bool {
    &&& value matches JsonView::Object(members)
    &&& forall|place: int| #[trigger]
        is_last_named(providers, place) ==> members.contains_key(providers[place].provider)
            && stated(members[providers[place].provider], providers[place])
    &&& forall|name: Seq<char>| #[trigger]
        members.contains_key(name) ==> exists|place: int| #[trigger]
            is_last_named(providers, place) && providers[place].provider == name
}

proof fn a_config_is_stated(config: OpenAiConfigView)
    ensures
        states_config(reported(config), config),
{
    reveal_strlit("base_url");
    reveal_strlit("model");
    reveal_strlit("api_key");
    assert("base_url"@.len() == 8 && "model"@.len() == 5 && "api_key"@.len() == 7);
    assert(reported(config)->Object_0.dom() =~= set!["base_url"@, "model"@, "api_key"@]);
}

proof fn a_profile_is_stated(caps: CapsView)
    ensures
        states_caps(caps_json(caps), caps),
{
    reveal_strlit("context");
    reveal_strlit("modalities");
    reveal_strlit("tools");
    reveal_strlit("json");
    reveal_strlit("cost");
    reveal_strlit("vendor");
    reveal_strlit("batchAt");
    reveal_strlit("params");
    assert("context"@.len() == 7 && "modalities"@.len() == 10 && "tools"@.len() == 5 && "json"@.len()
        == 4 && "cost"@.len() == 4 && "vendor"@.len() == 6 && "batchAt"@.len() == 7
        && "params"@.len() == 6);
    assert("context"@[0] == 'c' && "batchAt"@[0] == 'b' && "json"@[0] == 'j' && "cost"@[0] == 'c'
        && "vendor"@[0] == 'v' && "params"@[0] == 'p');
    assert(caps_json(caps)->Object_0.dom() =~= set![
        "context"@,
        "modalities"@,
        "tools"@,
        "json"@,
        "cost"@,
        "vendor"@,
        "batchAt"@,
        "params"@,
    ]);
}

proof fn an_entry_is_stated(config: OpenAiConfigView)
    ensures
        states_entry(inventory_entry(config), config),
{
    a_profile_is_stated(config.caps);
    reveal_strlit("backend");
    reveal_strlit("model");
    reveal_strlit("base_url");
    reveal_strlit("caps");
    assert("backend"@.len() == 7 && "model"@.len() == 5 && "base_url"@.len() == 8 && "caps"@.len()
        == 4);
    assert(inventory_entry(config)->Object_0.dom() =~= set![
        "backend"@,
        "model"@,
        "base_url"@,
        "caps"@,
    ]);
}

proof fn the_last_of_a_name_goes_on(providers: Seq<OpenAiConfigView>, place: int)
    requires
        providers.len() > 0,
    ensures
        is_last_named(providers, place) <==> place == providers.len() - 1 || (is_last_named(
            providers.drop_last(),
            place,
        ) && providers[place].provider != providers.last().provider),
{
    let head = providers.drop_last();
    let last = providers.len() - 1;
    assert(providers[last] == providers.last());
    if is_last_named(head, place) && providers[place].provider != providers.last().provider {
        assert forall|i: int| place < i < providers.len() implies (
        #[trigger] providers[i]).provider != providers[place].provider by {
            if i < last {
                assert(head[i] == providers[i]);
            }
        }
    }
    if is_last_named(providers, place) && place < last {
        assert forall|i: int| place < i < head.len() implies (#[trigger] head[i]).provider
            != head[place].provider by {
            assert(head[i] == providers[i]);
        }
    }
}

proof fn each_is_there_by_name(
    providers: Seq<OpenAiConfigView>,
    members: Map<Seq<char>, JsonView>,
    more: JsonView,
    stated: spec_fn(JsonView, OpenAiConfigView) -> bool,
)
    requires
        providers.len() > 0,
        has_each_by_name(JsonView::Object(members), providers.drop_last(), stated),
        stated(more, providers.last()),
    ensures
        has_each_by_name(
            JsonView::Object(members.insert(providers.last().provider, more)),
            providers,
            stated,
        ),
{
    let head = providers.drop_last();
    let name = providers.last().provider;
    let all = members.insert(name, more);
    let last = providers.len() - 1;
    assert forall|place: int| #[trigger] is_last_named(providers, place) implies all.contains_key(
        providers[place].provider,
    ) && stated(all[providers[place].provider], providers[place]) by {
        the_last_of_a_name_goes_on(providers, place);
        if place < last {
            assert(is_last_named(head, place));
            assert(head[place] == providers[place]);
        } else {
            assert(providers[place] == providers.last());
        }
    }
    assert forall|other: Seq<char>| #[trigger] all.contains_key(other) implies exists|place: int|
        #[trigger] is_last_named(providers, place) && providers[place].provider == other by {
        if other == name {
            the_last_of_a_name_goes_on(providers, last);
            assert(providers[last] == providers.last());
            assert(is_last_named(providers, last));
        } else {
            let before = JsonView::Object(members);
            assert(has_each_by_name(before, head, stated));
            assert(before->Object_0.contains_key(other));
            let place = choose|place: int| #[trigger]
                is_last_named(head, place) && head[place].provider == other;
            assert(head[place] == providers[place]);
            the_last_of_a_name_goes_on(providers, place);
            assert(is_last_named(providers, place));
        }
    }
}

proof fn reports_have_each_by_name(providers: Seq<OpenAiConfigView>)
    ensures
        has_each_by_name(
            JsonView::Object(reported_all(providers)),
            providers,
            |value: JsonView, config: OpenAiConfigView| states_config(value, config),
        ),
        has_each_by_name(
            JsonView::Object(inventory_entries(providers)),
            providers,
            |value: JsonView, config: OpenAiConfigView| states_entry(value, config),
        ),
    decreases providers.len(),
{
    if providers.len() > 0 {
        reports_have_each_by_name(providers.drop_last());
        a_config_is_stated(providers.last());
        an_entry_is_stated(providers.last());
        each_is_there_by_name(
            providers,
            reported_all(providers.drop_last()),
            reported(providers.last()),
            |value: JsonView, config: OpenAiConfigView| states_config(value, config),
        );
        each_is_there_by_name(
            providers,
            inventory_entries(providers.drop_last()),
            inventory_entry(providers.last()),
            |value: JsonView, config: OpenAiConfigView| states_entry(value, config),
        );
    }
}

/// Whether a value is a report: the default, and under `key` each provider by its name.
pub open spec fn is_report(
    value: JsonView,
    key: Seq<char>,
    registry: RegistryView,
    stated: spec_fn(JsonView, OpenAiConfigView) -> bool,
) -> bool {
    &&& value matches JsonView::Object(members)
    &&& members.dom() == set!["default"@, key]
    &&& members["default"@] == JsonView::Text(registry.default)
    &&& has_each_by_name(members[key], registry.providers, stated)
}

/// Whether a value reports the configuration of a registry.
pub open spec fn is_config_report(value: JsonView, registry: RegistryView) -> bool {
    is_report(
        value,
        "providers"@,
        registry,
        |value: JsonView, config: OpenAiConfigView| states_config(value, config),
    )
}

/// Whether a value reports the inventory of a registry.
pub open spec fn is_inventory_report(value: JsonView, registry: RegistryView) -> bool {
    is_report(
        value,
        "models"@,
        registry,
        |value: JsonView, config: OpenAiConfigView| states_entry(value, config),
    )
}

/// The configuration is reported as it is: the default, and each provider under its name with
/// its server and its model, and of a key only that there is one.
pub proof fn the_configuration_is_reported_as_it_is(endpoint: &ConfigEndpoint, answer: Answer)
    requires
        call_ensures(ConfigEndpoint::report, (endpoint,), answer),
    ensures
        answer@.media == "application/json"@,
        answer@.cacheable,
        exists|value: JsonView|
            answer@.body == json_bytes(value) && #[trigger] is_config_report(value, endpoint@),
{
    let value = config_report(endpoint@);
    reveal_strlit("default");
    reveal_strlit("providers");
    assert("default"@.len() == 7 && "providers"@.len() == 9);
    reports_have_each_by_name(endpoint@.providers);
    assert(value->Object_0.dom() =~= set!["default"@, "providers"@]);
    assert(is_config_report(value, endpoint@));
}

/// Whether an answer is the inventory of a registry: its trait graph in Turtle where that is
/// asked for, and else JSON with the default, and each provider under its name with its
/// backend, model, server and profile.
pub open spec fn is_inventory(
    answer: AnswerView,
    registry: RegistryView,
    form: Option<Seq<char>>,
) -> bool {
    if asks_form(form, "turtle"@) {
        answer.media == "text/turtle"@ && answer.body == encode_utf8(inventory_turtle(registry))
    } else {
        answer.media == "application/json"@ && exists|value: JsonView|
            answer.body == json_bytes(value) && #[trigger] is_inventory_report(value, registry)
    }
}

proof fn an_inventory_is_stated(registry: RegistryView)
    ensures
        is_inventory_report(inventory_json(registry), registry),
{
    reveal_strlit("default");
    reveal_strlit("models");
    assert("default"@.len() == 7 && "models"@.len() == 6);
    reports_have_each_by_name(registry.providers);
    assert(inventory_json(registry)->Object_0.dom() =~= set!["default"@, "models"@]);
}

/// The inventory, carried through with any servers, is that of the registry as the servers
/// complete it, in the form asked for; cacheable while every provider pins a model.
pub proof fn the_inventory_is_of_the_completed_registry(
    endpoint: &ModelsEndpoint,
    capability: &ikigai_core::Capability,
    form: Option<String>,
    step: ModelsStep,
    server: Server,
    at: nat,
)
    requires
        call_ensures(ModelsEndpoint::report, (endpoint, capability, form), step),
    ensures
        ({
            let scopes = scopes_of(*capability);
            let effective = effective_run(
                effective_from(endpoint@, scopes, 0),
                scopes,
                server,
                at,
            ).0;
            let answer = models_run(step@, endpoint@, scopes, server, at);
            &&& is_inventory(answer, effective, form.deep_view())
            &&& answer.cacheable <==> forall|i: int|
                0 <= i < endpoint@.providers.len() ==> (
                #[trigger] endpoint@.providers[i]).default_model is Some
        }),
{
    let scopes = scopes_of(*capability);
    let start = effective_from(endpoint@, scopes, 0);
    reporting_follows_discovery(start, endpoint@, form.deep_view(), scopes, server, at);
    an_inventory_is_stated(effective_run(start, scopes, server, at).0);
}

/// A registry is written out as it is, and a reply carries reporting it on: from where it
/// stood, with what the server answered, it comes to the end it was coming to.
pub proof fn a_reply_carries_reporting_on(
    endpoint: &ModelsEndpoint,
    registry: &Registry,
    value: serde_json::Value,
    text: String,
    capability: &ikigai_core::Capability,
    call: HttpCallView,
    state: ModelsState,
    reply: Result<HttpReply, String>,
    next: ModelsStep,
    server: Server,
    at: nat,
)
    requires
        call_ensures(ModelsEndpoint::as_json, (registry,), value),
        call_ensures(ModelsEndpoint::as_turtle, (registry,), text),
        call_ensures(ModelsEndpoint::resume, (endpoint, capability, state, reply), next),
        server(at, call) == reply_view(reply),
    ensures
        is_inventory_report(json_of(value), registry@),
        text@ == inventory_turtle(registry@),
        models_run(
            ModelsStepView::Send { call, state: state@ },
            endpoint@,
            scopes_of(*capability),
            server,
            at,
        ) == models_run(next@, endpoint@, scopes_of(*capability), server, at + 1),
{
    an_inventory_is_stated(registry@);
}

} // verus!
