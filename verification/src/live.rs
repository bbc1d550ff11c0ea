//! What a provider is right now: `urn:llm:<provider>:model`, the model it serves,
//! `urn:llm:<provider>:installed`, the models it could serve, and `urn:llm:<provider>:up`,
//! whether it answers at all.

use crate::annotate::iri_of;
use crate::answer::{
    answer_view, asks_form, json_answer, plain, structured, text_answer, wants, Answer,
    AnswerView,
};
use crate::config::{OpenAiConfig, OpenAiConfigView};
use crate::discover::{
    resolve_left, resolve_model, resolve_next, resolve_outcome, resolve_run, resolve_stage,
    resolve_start, resolving_comes_to_its_outcome, resume_resolve, ResolveStep, ResolveStepView,
};
use crate::error::{Error, ErrorView};
use crate::json::{
    json_all, json_bytes, json_list, json_of, json_opt_natural, json_text, json_texts,
    json_write, natural_or_null, text_list, JsonView, Members,
};
use crate::listing::{
    a_listing_comes_to_its_outcome, installed_models, installed_view, listing_left,
    listing_next, listing_outcome, listing_plan, listing_run, listing_stage, listing_start,
    resume_listing, ListingState, ListingStateView, ListingStep, ListingStepView, Server,
};
use crate::models::{
    first_supporting, is_first_to_chat, keep_supporting, supporting, the_first_supporting_is_the_first,
    InstalledModel, InstalledModelView,
};
use crate::net::{
    get, get_call, grants_no_net, reach, reply_view, require_net, scopes_of, HttpCall,
    HttpCallView, HttpReply, HttpReplyView, Method,
};
use crate::text::{join, joined};
use vstd::prelude::*;
use vstd::string::*;
use vstd::utf8::encode_utf8;

verus! {

// ---- urn:llm:<provider>:model ------------------------------------------------------

/// The IRI of a provider's identity.
pub open spec fn model_iri(provider: Seq<char>) -> Seq<char> {
    "urn:llm:"@ + provider + ":model"@
}

/// What asking for a provider's identity wants next.
#[derive(Debug)]
pub enum ModelStep {
    /// Send the request, and hand back what came of it.
    Send { call: HttpCall, state: ListingState },
    /// The model's id, or why there is none.
    Done(Result<Answer, Error>),
}

/// [`ModelStep`] over sequences.
#[verifier::ext_equal]
pub enum ModelStepView {
    Send { call: HttpCallView, state: ListingStateView },
    Done(Result<AnswerView, ErrorView>),
}

impl View for ModelStep {
    type V = ModelStepView;

    open spec fn view(&self) -> ModelStepView {
        match self {
            ModelStep::Send { call, state } => ModelStepView::Send { call: call@, state: state@ },
            ModelStep::Done(answer) => ModelStepView::Done(answer_view(*answer)),
        }
    }
}

/// A step of looking for a model as one of naming it. A discovered id is a live fact, and
/// not cacheable.
pub open spec fn identity_by(step: ResolveStepView) -> ModelStepView {
    match step {
        ResolveStepView::Send { call, state } => ModelStepView::Send { call, state },
        ResolveStepView::Done(Ok(found)) => ModelStepView::Done(Ok(text_answer(found.0, false))),
        ResolveStepView::Done(Err(error)) => ModelStepView::Done(Err(error)),
    }
}

/// The first step of naming a provider's model: a pinned id is the answer, cacheable and
/// without a request; else the server is asked.
pub open spec fn identity_start(
    config: OpenAiConfigView,
    scopes: Option<Set<Seq<char>>>,
) -> ModelStepView {
    match config.default_model {
        Some(model) => ModelStepView::Done(Ok(text_answer(model, true))),
        None => identity_by(resolve_start(config, scopes, model_iri(config.provider))),
    }
}

/// `urn:llm:<provider>:model`: the id of the model serving this provider, for those who fold
/// true model identity into what they derive.
#[derive(Debug)]
pub struct ModelEndpoint {
    pub config: OpenAiConfig,
}

impl View for ModelEndpoint {
    type V = OpenAiConfigView;

    open spec fn view(&self) -> OpenAiConfigView {
        self.config@
    }
}

fn name_found(step: ResolveStep) -> (next: ModelStep)
    ensures
        next@ == identity_by(step@),
{
    match step {
        ResolveStep::Send { call, state } => ModelStep::Send { call, state },
        ResolveStep::Done(found) => match found {
            Ok((model, _)) => ModelStep::Done(Ok(plain(model.as_str(), false))),
            Err(error) => ModelStep::Done(Err(error)),
        },
    }
}

impl ModelEndpoint {
    /// The resource of the provider that `config` configures.
    pub fn new(config: OpenAiConfig) -> (endpoint: ModelEndpoint)
        ensures
            endpoint@ == config@,
    {
        ModelEndpoint { config }
    }

    fn who(&self) -> (iri: String)
        ensures
            iri@ == model_iri(self@.provider),
    {
        iri_of(self.config.provider.as_str(), ":model")
    }

    /// Begin to name the model.
    pub fn identify(&self, capability: &ikigai_core::Capability) -> (step: ModelStep)
        ensures
            step@ == identity_start(self@, scopes_of(*capability)),
    {
        match &self.config.default_model {
            Some(model) => ModelStep::Done(Ok(plain(model.as_str(), true))),
            None => {
                let who = self.who();
                name_found(resolve_model(&self.config, capability, who.as_str()))
            },
        }
    }

    /// Go on naming the model, given what came back for the last request.
    pub fn resume(&self, state: ListingState, reply: Result<HttpReply, String>) -> (step:
        ModelStep)
        ensures
            step@ == identity_by(
                resolve_next(self@, model_iri(self@.provider), state@, reply_view(reply)),
            ),
    {
        let who = self.who();
        name_found(resume_resolve(&self.config, who.as_str(), state, reply))
    }
}

/// How far naming the model has come.
pub open spec fn identity_stage(step: ModelStepView) -> nat {
    match step {
        ModelStepView::Send { call, state } => listing_stage(ListingStepView::Send { call, state }),
        ModelStepView::Done(_) => 0,
    }
}

/// The models left to ask about.
pub open spec fn identity_left(step: ModelStepView) -> int {
    match step {
        ModelStepView::Send { call, state } => listing_left(ListingStepView::Send { call, state }),
        ModelStepView::Done(_) => 0,
    }
}

/// Where naming the model ends when it is carried through with the server, its next request
/// being the one at `at`.
pub open spec fn identity_run(
    step: ModelStepView,
    config: OpenAiConfigView,
    server: Server,
    at: nat,
) -> Result<AnswerView, ErrorView>
    decreases identity_stage(step), identity_left(step),
{
    match step {
        ModelStepView::Done(answer) => answer,
        ModelStepView::Send { call, state } => identity_run(
            identity_by(
                resolve_next(config, model_iri(config.provider), state, server(at, call)),
            ),
            config,
            server,
            at + 1,
        ),
    }
}

proof fn naming_follows_resolving(
    step: ResolveStepView,
    config: OpenAiConfigView,
    server: Server,
    at: nat,
)
    ensures
        identity_run(identity_by(step), config, server, at) == (match resolve_run(
            step,
            config,
            model_iri(config.provider),
            server,
            at,
        ).0 {
            Ok(found) => Ok(text_answer(found.0, false)),
            Err(error) => Err(error),
        }),
    decreases resolve_stage(step), resolve_left(step),
{
    if let ResolveStepView::Send { call, state } = step {
        naming_follows_resolving(
            resolve_next(config, model_iri(config.provider), state, server(at, call)),
            config,
            server,
            at + 1,
        );
    }
}

/// The identity of a provider, carried through with any server: a pinned id verbatim and
/// cacheable, or else the id its server serves now, never cacheable, or an error.
pub proof fn naming_comes_to_its_outcome(
    config: OpenAiConfigView,
    scopes: Option<Set<Seq<char>>>,
    server: Server,
    at: nat,
)
    ensures
        identity_run(identity_start(config, scopes), config, server, at) == (
        match config.default_model {
            Some(model) => Ok(text_answer(model, true)),
            None => match resolve_outcome(
                config,
                scopes,
                model_iri(config.provider),
                server,
                at,
            ).0 {
                Ok(found) => Ok(text_answer(found.0, false)),
                Err(error) => Err(error),
            },
        }),
{
    if config.default_model is None {
        let who = model_iri(config.provider);
        resolving_comes_to_its_outcome(config, scopes, who, server, at);
        naming_follows_resolving(resolve_start(config, scopes, who), config, server, at);
    }
}

// ---- urn:llm:<provider>:installed --------------------------------------------------

/// The models that can serve what is asked for, if anything is.
pub open spec fn kept(models: Seq<InstalledModelView>, supports: Option<Seq<char>>) -> Seq<
    InstalledModelView,
> {
    match supports {
        Some(what) => supporting(models, what),
        None => models,
    }
}

/// A model as JSON.
pub open spec fn model_json(model: InstalledModelView) -> JsonView {
    JsonView::Object(
        Map::<Seq<char>, JsonView>::empty().insert("model"@, JsonView::Text(model.model)).insert(
            "size"@,
            natural_or_null(model.size),
        ).insert("capabilities"@, text_list(model.capabilities)),
    )
}

/// The models in the form that is asked for: a list with details as JSON, or else their ids,
/// one to a line. A live fact, and not cacheable.
pub open spec fn installed_answer(
    models: Seq<InstalledModelView>,
    form: Option<Seq<char>>,
) -> AnswerView {
    if asks_form(form, "json"@) {
        json_answer(
            json_bytes(
                JsonView::List(models.map_values(|model: InstalledModelView| model_json(model))),
            ),
            false,
        )
    } else {
        text_answer(
            joined(models.map_values(|model: InstalledModelView| model.model), "\n"@),
            false,
        )
    }
}

/// What a listing is answered by.
pub open spec fn inventory_of(
    listing: Result<Seq<InstalledModelView>, ErrorView>,
    supports: Option<Seq<char>>,
    form: Option<Seq<char>>,
) -> Result<AnswerView, ErrorView> {
    match listing {
        Ok(models) => Ok(installed_answer(kept(models, supports), form)),
        Err(error) => Err(error),
    }
}

/// What answering with the installed models waits for.
#[derive(Debug)]
pub struct InstalledState {
    pub supports: Option<String>,
    pub form: Option<String>,
    pub listing: ListingState,
}

/// [`InstalledState`] over sequences.
#[verifier::ext_equal]
pub struct InstalledStateView {
    pub supports: Option<Seq<char>>,
    pub form: Option<Seq<char>>,
    pub listing: ListingStateView,
}

impl View for InstalledState {
    type V = InstalledStateView;

    open spec fn view(&self) -> InstalledStateView {
        InstalledStateView {
            supports: self.supports.deep_view(),
            form: self.form.deep_view(),
            listing: self.listing@,
        }
    }
}

/// What answering with the installed models wants next.
#[derive(Debug)]
pub enum InstalledStep {
    /// Send the request, and hand back what came of it.
    Send { call: HttpCall, state: InstalledState },
    /// The models, or why there is no listing.
    Done(Result<Answer, Error>),
}

/// [`InstalledStep`] over sequences.
#[verifier::ext_equal]
pub enum InstalledStepView {
    Send { call: HttpCallView, state: InstalledStateView },
    Done(Result<AnswerView, ErrorView>),
}

impl View for InstalledStep {
    type V = InstalledStepView;

    open spec fn view(&self) -> InstalledStepView {
        match self {
            InstalledStep::Send { call, state } => InstalledStepView::Send {
                call: call@,
                state: state@,
            },
            InstalledStep::Done(answer) => InstalledStepView::Done(answer_view(*answer)),
        }
    }
}

/// A step of a listing as one of answering with it.
pub open spec fn installed_by(
    supports: Option<Seq<char>>,
    form: Option<Seq<char>>,
    step: ListingStepView,
) -> InstalledStepView {
    match step {
        ListingStepView::Send { call, state } => InstalledStepView::Send {
            call,
            state: InstalledStateView { supports, form, listing: state },
        },
        ListingStepView::Done(listing) => InstalledStepView::Done(
            inventory_of(listing, supports, form),
        ),
    }
}

/// `urn:llm:<provider>:installed`: what the provider can actually serve right now.
#[derive(Debug)]
pub struct InstalledEndpoint {
    pub config: OpenAiConfig,
}

impl View for InstalledEndpoint {
    type V = OpenAiConfigView;

    open spec fn view(&self) -> OpenAiConfigView {
        self.config@
    }
}

fn write_model(model: &InstalledModel) -> (value: serde_json::Value)
    ensures
        json_of(value) == model_json(model@),
{
    let mut members = Members::new();
    members.put("model", json_text(model.model.as_str()));
    members.put("size", json_opt_natural(model.size));
    members.put("capabilities", json_texts(&model.capabilities));
    members.object()
}

fn write_models(models: &Vec<InstalledModel>) -> (value: serde_json::Value)
    ensures
        json_of(value) == JsonView::List(
            models.deep_view().map_values(|model: InstalledModelView| model_json(model)),
        ),
{
    let mut items: Vec<serde_json::Value> = Vec::new();
    let mut i: usize = 0;
    while i < models.len()
        invariant
            i <= models.len(),
            items@.len() == i,
            forall|k: int| 0 <= k < i ==> json_of(#[trigger] items@[k]) == model_json(models@[k]@),
        decreases models.len() - i,
    {
        items.push(write_model(&models[i]));
        i = i + 1;
    }
    assert(json_all(items@) =~= models.deep_view().map_values(
        |model: InstalledModelView| model_json(model),
    ));
    json_list(items)
}

fn write_names(models: &Vec<InstalledModel>) -> (text: String)
    ensures
        text@ == joined(
            models.deep_view().map_values(|model: InstalledModelView| model.model),
            "\n"@,
        ),
{
    let mut names: Vec<String> = Vec::new();
    let mut i: usize = 0;
    while i < models.len()
        invariant
            i <= models.len(),
            names@.len() == i,
            forall|k: int| 0 <= k < i ==> (#[trigger] names@[k])@ == models@[k]@.model,
        decreases models.len() - i,
    {
        names.push(models[i].model.clone());
        i = i + 1;
    }
    assert(names.deep_view() =~= models.deep_view().map_values(
        |model: InstalledModelView| model.model,
    ));
    join(&names, "\n")
}

/// What a listing is answered by: the models that can serve what is asked for, in the form
/// that is asked for.
pub fn answer_listing(
    listing: Result<Vec<InstalledModel>, Error>,
    supports: &Option<String>,
    form: &Option<String>,
) -> (answer: Result<Answer, Error>)
    ensures
        answer_view(answer) == inventory_of(
            installed_view(listing),
            supports.deep_view(),
            form.deep_view(),
        ),
{
    match listing {
        Err(error) => Err(error),
        Ok(models) => {
            let models = match supports {
                Some(what) => keep_supporting(&models, what.as_str()),
                None => models,
            };
            if wants(form, "json") {
                Ok(structured(json_write(&write_models(&models)), false))
            } else {
                let names = write_names(&models);
                Ok(plain(names.as_str(), false))
            }
        },
    }
}

fn answer_listed(supports: Option<String>, form: Option<String>, step: ListingStep) -> (next:
    InstalledStep)
    ensures
        next@ == installed_by(supports.deep_view(), form.deep_view(), step@),
{
    match step {
        ListingStep::Send { call, state } => InstalledStep::Send {
            call,
            state: InstalledState { supports, form, listing: state },
        },
        ListingStep::Done(listing) => InstalledStep::Done(
            answer_listing(listing, &supports, &form),
        ),
    }
}

impl InstalledEndpoint {
    /// The resource of the provider that `config` configures.
    pub fn new(config: OpenAiConfig) -> (endpoint: InstalledEndpoint)
        ensures
            endpoint@ == config@,
    {
        InstalledEndpoint { config }
    }

    /// Begin to list the models, only those that support a capability if one is named.
    pub fn list(
        &self,
        capability: &ikigai_core::Capability,
        supports: Option<String>,
        form: Option<String>,
    ) -> (step: InstalledStep)
        ensures
            step@ == installed_by(
                supports.deep_view(),
                form.deep_view(),
                listing_start(listing_plan(self@, scopes_of(*capability))),
            ),
    {
        answer_listed(supports, form, installed_models(&self.config, capability))
    }

    /// Go on listing, given what came back for the last request.
    pub fn resume(&self, state: InstalledState, reply: Result<HttpReply, String>) -> (step:
        InstalledStep)
        ensures
            step@ == installed_by(
                state@.supports,
                state@.form,
                listing_next(state@.listing, reply_view(reply)),
            ),
    {
        answer_listed(state.supports, state.form, resume_listing(state.listing, reply))
    }
}

/// The step of a listing that a step of answering with it stands for.
pub open spec fn listing_of(step: InstalledStepView) -> ListingStepView {
    match step {
        InstalledStepView::Send { call, state } => ListingStepView::Send {
            call,
            state: state.listing,
        },
        InstalledStepView::Done(_) => ListingStepView::Done(Ok(Seq::empty())),
    }
}

/// Where answering with the installed models ends when it is carried through with the
/// server, its next request being the one at `at`.
pub open spec fn installed_run(step: InstalledStepView, server: Server, at: nat) -> Result<
    AnswerView,
    ErrorView,
>
    decreases listing_stage(listing_of(step)), listing_left(listing_of(step)),
{
    match step {
        InstalledStepView::Done(answer) => answer,
        InstalledStepView::Send { call, state } => installed_run(
            installed_by(
                state.supports,
                state.form,
                listing_next(state.listing, server(at, call)),
            ),
            server,
            at + 1,
        ),
    }
}

proof fn answering_follows_listing(
    step: ListingStepView,
    supports: Option<Seq<char>>,
    form: Option<Seq<char>>,
    server: Server,
    at: nat,
)
    ensures
        installed_run(installed_by(supports, form, step), server, at) == inventory_of(
            listing_run(step, server, at).0,
            supports,
            form,
        ),
    decreases listing_stage(step), listing_left(step),
{
    if let ListingStepView::Send { call, state } = step {
        answering_follows_listing(
            listing_next(state, server(at, call)),
            supports,
            form,
            server,
            at + 1,
        );
    }
}

/// Carried through with any server, listing the installed models ends, and answers with
/// what the provider can serve; never cacheable.
pub proof fn listing_installed_comes_to_its_outcome(
    config: OpenAiConfigView,
    scopes: Option<Set<Seq<char>>>,
    supports: Option<Seq<char>>,
    form: Option<Seq<char>>,
    server: Server,
    at: nat,
)
    ensures
        installed_run(
            installed_by(supports, form, listing_start(listing_plan(config, scopes))),
            server,
            at,
        ) == inventory_of(
            listing_outcome(listing_plan(config, scopes), server, at).0,
            supports,
            form,
        ),
        inventory_of(
            listing_outcome(listing_plan(config, scopes), server, at).0,
            supports,
            form,
        ) matches Ok(answer) ==> !answer.cacheable,
{
    let plan = listing_plan(config, scopes);
    a_listing_comes_to_its_outcome(plan, server, at);
    answering_follows_listing(listing_start(plan), supports, form, server, at);
}

// ---- urn:llm:<provider>:up ---------------------------------------------------------

/// The IRI of a provider's liveness.
pub open spec fn up_iri(provider: Seq<char>) -> Seq<char> {
    "urn:llm:"@ + provider + ":up"@
}

/// The request that finds out whether a provider is up, where the capability allows it.
pub open spec fn up_request(
    config: OpenAiConfigView,
    scopes: Option<Set<Seq<char>>>,
) -> Result<HttpCallView, ErrorView> {
    match reach(scopes, config.base_url, "models"@, up_iri(config.provider)) {
        Ok(url) => Ok(get_call(url)),
        Err(error) => Err(error),
    }
}

/// Whether a provider that answered like this is up. One that cannot be reached is not.
pub open spec fn is_up(reply: Result<HttpReplyView, Seq<char>>) -> bool {
    reply matches Ok(reply) && reply.status < 400
}

/// Liveness as an answer: a live fact, and not cacheable.
pub open spec fn up_answer(reply: Result<HttpReplyView, Seq<char>>) -> AnswerView {
    if is_up(reply) {
        text_answer("true"@, false)
    } else {
        text_answer("false"@, false)
    }
}

/// `urn:llm:<provider>:up`: whether the provider answers a cheap request.
#[derive(Debug)]
pub struct UpEndpoint {
    pub config: OpenAiConfig,
}

impl View for UpEndpoint {
    type V = OpenAiConfigView;

    open spec fn view(&self) -> OpenAiConfigView {
        self.config@
    }
}

impl UpEndpoint {
    /// The resource of the provider that `config` configures.
    pub fn new(config: OpenAiConfig) -> (endpoint: UpEndpoint)
        ensures
            endpoint@ == config@,
    {
        UpEndpoint { config }
    }

    /// The request to send. A capability that cannot reach the host is an error, and not a
    /// provider that is down.
    pub fn check(&self, capability: &ikigai_core::Capability) -> (call: Result<HttpCall, Error>)
        ensures
            match call {
                Ok(call) => up_request(self@, scopes_of(*capability)) == Ok::<
                    HttpCallView,
                    ErrorView,
                >(call@),
                Err(error) => up_request(self@, scopes_of(*capability)) == Err::<
                    HttpCallView,
                    ErrorView,
                >(error@),
            },
            grants_no_net(scopes_of(*capability)) ==> call is Err,
    {
        let who = iri_of(self.config.provider.as_str(), ":up");
        match require_net(capability, self.config.base_url.as_str(), "models", who.as_str()) {
            Ok(url) => Ok(get(url.as_str())),
            Err(error) => Err(error),
        }
    }

    /// The answer, given what came back.
    pub fn verdict(&self, reply: &Result<HttpReply, String>) -> (answer: Answer)
        ensures
            answer@ == up_answer(reply_view(*reply)),
    {
        let alive = match reply {
            Ok(reply) => reply.status < 400,
            Err(_) => false,
        };
        if alive {
            plain("true", false)
        } else {
            plain("false", false)
        }
    }
}

/// Denied is not down: where the capability does not allow the host there is an error and
/// no request; where it does, a server that cannot be reached is answered `false`.
pub proof fn denied_is_not_down(
    config: OpenAiConfigView,
    scopes: Option<Set<Seq<char>>>,
    message: Seq<char>,
)
    ensures
        up_request(config, scopes) is Err <==> reach(
            scopes,
            config.base_url,
            "models"@,
            up_iri(config.provider),
        ) is Err,
        up_answer(Err(message)) == text_answer("false"@, false),
{
}

// ---- what the live resources promise -----------------------------------------------

/// The models that can serve what is named, in order: those whose capabilities name it or are
/// unknown; all of them where nothing is named.
pub open spec fn serving(models: Seq<InstalledModelView>, what: Option<Seq<char>>) -> Seq<
    InstalledModelView,
> {
    models.filter(
        |model: InstalledModelView|
            what is None || model.capabilities.len() == 0 || model.capabilities.contains(
                what->0,
            ),
    )
}

/// Whether a value is the JSON of a model: its id, its size or `null`, and its capabilities.
pub open spec fn is_model_json(value: JsonView, model: InstalledModelView) -> bool {
    &&& value matches JsonView::Object(members)
    &&& members.dom() == set!["model"@, "size"@, "capabilities"@]
    &&& members["model"@] == JsonView::Text(model.model)
    &&& members["size"@] == (match model.size {
        Some(size) => JsonView::Natural(size),
        None => JsonView::Null,
    })
    &&& members["capabilities"@] matches JsonView::List(items) && items.len()
        == model.capabilities.len() && forall|i: int|
        0 <= i < items.len() ==> #[trigger] items[i] == JsonView::Text(model.capabilities[i])
}

/// Whether an answer is a list of models: where JSON is asked for one object for each, in
/// order; else their ids, one to a line.
pub open spec fn lists_models(
    answer: AnswerView,
    models: Seq<InstalledModelView>,
    form: Option<Seq<char>>,
) -> bool {
    if asks_form(form, "json"@) {
        answer.media == "application/json"@ && exists|items: Seq<JsonView>|
            #![trigger json_bytes(JsonView::List(items))]
            answer.body == json_bytes(JsonView::List(items)) && items.len() == models.len()
                && forall|i: int|
                0 <= i < items.len() ==> is_model_json(#[trigger] items[i], models[i])
    } else {
        answer.media == "text/plain"@ && exists|ids: Seq<Seq<char>>|
            #![trigger joined(ids, "\n"@)]
            answer.body == encode_utf8(joined(ids, "\n"@)) && ids.len() == models.len()
                && forall|i: int| 0 <= i < ids.len() ==> #[trigger] ids[i] == models[i].model
    }
}

proof fn model_json_is_one(model: InstalledModelView)
    ensures
        is_model_json(model_json(model), model),
{
    reveal_strlit("model");
    reveal_strlit("size");
    reveal_strlit("capabilities");
    assert("model"@.len() == 5 && "size"@.len() == 4 && "capabilities"@.len() == 12);
    assert(model_json(model)->Object_0.dom() =~= set!["model"@, "size"@, "capabilities"@]);
}

proof fn keeping_is_serving(models: Seq<InstalledModelView>, what: Option<Seq<char>>)
    ensures
        kept(models, what) == serving(models, what),
    decreases models.len(),
{
    reveal(Seq::filter);
    if models.len() > 0 {
        keeping_is_serving(models.drop_last(), what);
        if what is None {
            assert(models =~= models.drop_last().push(models.last()));
        }
    } else {
        assert(kept(models, what) =~= serving(models, what));
    }
}

/// What is installed is answered by the models that can serve what is named, in order and
/// nothing else, whatever the form: the answer with a filter is the one that those alone
/// would be given without.
pub proof fn a_filter_keeps_what_can_serve(
    models: Vec<InstalledModel>,
    some: Vec<InstalledModel>,
    what: &Option<String>,
    form: &Option<String>,
    filtered: Result<Answer, Error>,
    unfiltered: Result<Answer, Error>,
)
    requires
        call_ensures(answer_listing, (Ok(models), what, form), filtered),
        call_ensures(answer_listing, (Ok(some), &None::<String>, form), unfiltered),
        some.deep_view() == serving(models.deep_view(), what.deep_view()),
    ensures
        answer_view(filtered) matches Ok(answer) && lists_models(
            answer,
            serving(models.deep_view(), what.deep_view()),
            form.deep_view(),
        ) && !answer.cacheable,
        answer_view(filtered) == answer_view(unfiltered),
{
    let all = models.deep_view();
    keeping_is_serving(all, what.deep_view());
    models_are_listed(serving(all, what.deep_view()), form.deep_view());
}

proof fn models_are_listed(models: Seq<InstalledModelView>, form: Option<Seq<char>>)
    ensures
        lists_models(installed_answer(models, form), models, form),
{
    let items = models.map_values(|model: InstalledModelView| model_json(model));
    let ids = models.map_values(|model: InstalledModelView| model.model);
    assert forall|i: int| 0 <= i < items.len() implies is_model_json(
        #[trigger] items[i],
        models[i],
    ) by {
        model_json_is_one(models[i]);
    }
}

/// Carried through with any server, what is installed is answered by the models that the
/// provider lists and that can serve what is named, or by why there is no listing.
pub proof fn what_is_installed_is_what_can_serve(
    endpoint: &InstalledEndpoint,
    capability: &ikigai_core::Capability,
    what: Option<String>,
    form: Option<String>,
    step: InstalledStep,
    server: Server,
    at: nat,
)
    requires
        call_ensures(InstalledEndpoint::list, (endpoint, capability, what, form), step),
    ensures
        ({
            let plan = listing_plan(endpoint@, scopes_of(*capability));
            match (
                listing_run(listing_start(plan), server, at).0,
                installed_run(step@, server, at),
            ) {
                (Ok(models), Ok(answer)) => lists_models(
                    answer,
                    serving(models, what.deep_view()),
                    form.deep_view(),
                ) && !answer.cacheable,
                (Err(error), end) => end == Err::<AnswerView, ErrorView>(error),
                (Ok(_), Err(_)) => false,
            }
        }),
{
    let plan = listing_plan(endpoint@, scopes_of(*capability));
    answering_follows_listing(
        listing_start(plan),
        what.deep_view(),
        form.deep_view(),
        server,
        at,
    );
    if let Ok(models) = listing_run(listing_start(plan), server, at).0 {
        keeping_is_serving(models, what.deep_view());
        models_are_listed(serving(models, what.deep_view()), form.deep_view());
    }
}

/// A reply carries naming a model and listing the installed ones on: from where they stood,
/// with what the server answered, they come to the end they were coming to.
pub proof fn replies_carry_the_live_resources_on(
    naming: &ModelEndpoint,
    listing: &InstalledEndpoint,
    call: HttpCallView,
    looking: ListingState,
    waiting: InstalledState,
    reply: Result<HttpReply, String>,
    named: ModelStep,
    listed: InstalledStep,
    server: Server,
    at: nat,
)
    requires
        call_ensures(ModelEndpoint::resume, (naming, looking, reply), named),
        call_ensures(InstalledEndpoint::resume, (listing, waiting, reply), listed),
        server(at, call) == reply_view(reply),
    ensures
        identity_run(ModelStepView::Send { call, state: looking@ }, naming@, server, at)
            == identity_run(named@, naming@, server, at + 1),
        installed_run(InstalledStepView::Send { call, state: waiting@ }, server, at)
            == installed_run(listed@, server, at + 1),
{
}

/// Whether an answer is a text, whether it may be cached or not.
pub open spec fn says(answer: AnswerView, text: Seq<char>, cacheable: bool) -> bool {
    answer.media == "text/plain"@ && answer.body == encode_utf8(text) && answer.cacheable
        == cacheable
}

/// Which model a provider is: the one it pins, cacheable; else the first that can chat of
/// what its server lists, not cacheable, or an error where it lists none.
pub proof fn a_provider_is_the_model_it_serves(
    endpoint: &ModelEndpoint,
    capability: &ikigai_core::Capability,
    step: ModelStep,
    server: Server,
    at: nat,
)
    requires
        call_ensures(ModelEndpoint::identify, (endpoint, capability), step),
    ensures
        ({
            let plan = listing_plan(endpoint@, scopes_of(*capability));
            let end = identity_run(step@, endpoint@, server, at);
            match endpoint@.default_model {
                Some(model) => end matches Ok(answer) && says(answer, model, true),
                None => match (listing_run(listing_start(plan), server, at).0, end) {
                    (Ok(models), Ok(answer)) => exists|place: int| #[trigger]
                        is_first_to_chat(models, place) && says(answer, models[place].model, false),
                    (Ok(models), Err(_)) => forall|place: int| !#[trigger] is_first_to_chat(models, place),
                    (Err(_), end) => end is Err,
                },
            }
        }),
{
    let scopes = scopes_of(*capability);
    let plan = listing_plan(endpoint@, scopes);
    naming_comes_to_its_outcome(endpoint@, scopes, server, at);
    a_listing_comes_to_its_outcome(plan, server, at);
    if let Ok(models) = listing_run(listing_start(plan), server, at).0 {
        the_first_supporting_is_the_first(models, "completion"@);
        if let Some(place) = first_supporting(models, "completion"@) {
            assert(is_first_to_chat(models, place));
        }
    }
}

/// A provider is up where it answers a bare GET of its models with no error status, and
/// answers `false` where it does not, neither cacheable; where the capability does not reach
/// it there is an error, and nothing to send.
pub proof fn a_provider_that_answers_is_up(
    endpoint: &UpEndpoint,
    capability: &ikigai_core::Capability,
    call: Result<HttpCall, Error>,
    reply: &Result<HttpReply, String>,
    answer: Answer,
)
    requires
        call_ensures(UpEndpoint::check, (endpoint, capability), call),
        call_ensures(UpEndpoint::verdict, (endpoint, reply), answer),
    ensures
        match (
            reach(
                scopes_of(*capability),
                endpoint@.base_url,
                "models"@,
                "urn:llm:"@ + endpoint@.provider + ":up"@,
            ),
            call,
        ) {
            (Ok(url), Ok(call)) => call@.method == Method::Get && call@.url == url
                && call@.headers.len() == 0 && call@.body.len() == 0,
            (Err(expected), Err(error)) => error@ == expected,
            _ => false,
        },
        says(
            answer@,
            match reply_view(*reply) {
                Ok(reply) => if reply.status < 400 {
                    "true"@
                } else {
                    "false"@
                },
                Err(_) => "false"@,
            },
            false,
        ),
{
}

} // verus!
