//! What a provider can serve right now: the conversation that lists its models.
//!
//! The library never sends anything itself. Listing is a machine: it says which request
//! to send, and is handed what came back, until it is done.

use crate::annotate::iri_of;
use crate::config::{ungoverned, OpenAiConfig, OpenAiConfigView};
use crate::error::{Error, ErrorView};
use crate::json::{
    json_array, json_bytes, json_field, json_in, json_of, json_parse, json_text, JsonView,
    Members,
};
use crate::models::{
    by_size, entries, held, items_of, listed_model, listed_models, listings_map_their_entries,
    placed_by_size, read_listing, read_tags, read_texts, servers_state_no_governance, size_key,
    sizes_ascend, smallest_first, sorting_keeps_every_model, tagged_model, tagged_models,
    texts_in, InstalledModel, InstalledModelView,
};
use crate::net::{
    allow_native, get, get_call, grants_no_net, post_call, post_json, reach, reach_native,
    reply_view, require_net, scopes_of, HttpCall, HttpCallView, HttpReply, HttpReplyView,
    Method,
};
use crate::text::{decimal, is_text, write_natural};
use vstd::prelude::*;
use vstd::string::*;

verus! {

// ---- the plan ----------------------------------------------------------------------

/// Where a listing may go, as the capability allows.
#[derive(Debug)]
pub struct ListingPlan {
    pub provider: String,
    /// Ollama's `/api/tags`, for a provider that declares this vendor.
    pub tags: Option<String>,
    /// Ollama's `/api/show`.
    pub show: Option<String>,
    /// The OpenAI-compatible listing.
    pub models: Result<String, Error>,
}

/// [`ListingPlan`] over sequences.
#[verifier::ext_equal]
pub struct ListingPlanView {
    pub provider: Seq<char>,
    pub tags: Option<Seq<char>>,
    pub show: Option<Seq<char>>,
    pub models: Result<Seq<char>, ErrorView>,
}

impl View for ListingPlan {
    type V = ListingPlanView;

    open spec fn view(&self) -> ListingPlanView {
        ListingPlanView {
            provider: self.provider@,
            tags: self.tags.deep_view(),
            show: self.show.deep_view(),
            models: match self.models {
                Ok(url) => Ok(url@),
                Err(error) => Err(error@),
            },
        }
    }
}

/// The name under which a listing complains.
pub open spec fn installed_iri(provider: Seq<char>) -> Seq<char> {
    "urn:llm:"@ + provider + ":installed"@
}

/// Where a listing of this provider may go. Only a provider that declares the vendor
/// `ollama` is taken to have Ollama's native API.
pub open spec fn listing_plan(
    config: OpenAiConfigView,
    scopes: Option<Set<Seq<char>>>,
) -> ListingPlanView {
    ListingPlanView {
        provider: config.provider,
        tags: if config.caps.vendor == Some("ollama"@) {
            reach_native(scopes, config.base_url, "tags"@)
        } else {
            None
        },
        show: if config.caps.vendor == Some("ollama"@) {
            reach_native(scopes, config.base_url, "show"@)
        } else {
            None
        },
        models: reach(scopes, config.base_url, "models"@, installed_iri(config.provider)),
    }
}

fn plan_listing(config: &OpenAiConfig, capability: &ikigai_core::Capability) -> (plan: ListingPlan)
    ensures
        plan@ == listing_plan(config@, scopes_of(*capability)),
        grants_no_net(scopes_of(*capability)) ==> plan.tags is None && plan.models is Err,
{
    let native = is_text(&config.caps.vendor, "ollama");
    let tags = if native {
        allow_native(capability, config.base_url.as_str(), "tags")
    } else {
        None
    };
    let show = if native {
        allow_native(capability, config.base_url.as_str(), "show")
    } else {
        None
    };
    let who = iri_of(config.provider.as_str(), ":installed");
    let models = require_net(capability, config.base_url.as_str(), "models", who.as_str());
    ListingPlan { provider: config.provider.clone(), tags, show, models }
}

// ---- reading replies ---------------------------------------------------------------

/// The JSON that a reply brings: none where nothing came back, the status is an error or
/// the body is no JSON.
pub open spec fn good_json(reply: Result<HttpReplyView, Seq<char>>) -> Option<JsonView> {
    match reply {
        Ok(reply) => if reply.status >= 400 {
            None
        } else {
            match json_in(reply.body) {
                Ok(content) => Some(content),
                Err(_) => None,
            }
        },
        Err(_) => None,
    }
}

/// The JSON that a reply brings, if it brings any.
pub(crate) fn read_good_json(reply: &Result<HttpReply, String>) -> (value: Option<
    serde_json::Value,
>)
    ensures
        match value {
            Some(value) => good_json(reply_view(*reply)) == Some(json_of(value)),
            None => good_json(reply_view(*reply)) is None,
        },
{
    match reply {
        Ok(reply) => if reply.status >= 400 {
            None
        } else {
            match json_parse(reply.body.as_slice()) {
                Ok(value) => Some(value),
                Err(_) => None,
            }
        },
        Err(_) => None,
    }
}

/// The models that a reply to `/api/tags` names, if it names any.
pub open spec fn models_tagged(reply: Result<HttpReplyView, Seq<char>>) -> Option<
    Seq<InstalledModelView>,
> {
    match good_json(reply) {
        Some(content) => {
            let models = tagged_models(items_of(content.field("models"@)));
            if models.len() > 0 {
                Some(models)
            } else {
                None
            }
        },
        None => None,
    }
}

/// The model with the capabilities that a reply to `/api/show` reports of it. A reply
/// that reports none leaves them unknown.
pub open spec fn with_shown(
    model: InstalledModelView,
    reply: Result<HttpReplyView, Seq<char>>,
) -> InstalledModelView {
    match good_json(reply) {
        Some(content) => match content.field("capabilities"@).list() {
            Some(items) => InstalledModelView { capabilities: texts_in(items), ..model },
            None => model,
        },
        None => model,
    }
}

/// The error that a request was not answered.
pub open spec fn transport_error(message: Seq<char>) -> ErrorView {
    ErrorView::Endpoint("llm transport error: "@ + message)
}

/// The error that a request was not answered.
pub(crate) fn transport_failure(message: &str) -> (error: Error)
    ensures
        error@ == transport_error(message@),
{
    let mut text = "llm transport error: ".to_owned();
    text.append(message);
    Error::Endpoint(text)
}

/// What a reply to the OpenAI-compatible listing comes to: the models in the server's
/// order, or why there is no listing.
pub open spec fn models_listed(
    provider: Seq<char>,
    reply: Result<HttpReplyView, Seq<char>>,
) -> Result<Seq<InstalledModelView>, ErrorView> {
    match reply {
        Err(message) => Err(transport_error(message)),
        Ok(reply) => if reply.status >= 400 {
            Err(
                ErrorView::Endpoint(
                    installed_iri(provider) + ": provider returned "@ + decimal(
                        reply.status as nat,
                    ),
                ),
            )
        } else {
            match json_in(reply.body) {
                Err(message) => Err(
                    ErrorView::Endpoint("llm: model list was not JSON: "@ + message),
                ),
                Ok(content) => Ok(listed_models(items_of(content.field("data"@)))),
            }
        },
    }
}

/// The models over sequences.
pub open spec fn installed_view(listing: Result<Vec<InstalledModel>, Error>) -> Result<
    Seq<InstalledModelView>,
    ErrorView,
> {
    match listing {
        Ok(models) => Ok(models.deep_view()),
        Err(error) => Err(error@),
    }
}

fn read_models_reply(provider: &str, reply: &Result<HttpReply, String>) -> (listing: Result<
    Vec<InstalledModel>,
    Error,
>)
    ensures
        installed_view(listing) == models_listed(provider@, reply_view(*reply)),
{
    match reply {
        Err(message) => Err(transport_failure(message.as_str())),
        Ok(reply) => if reply.status >= 400 {
            let mut text = iri_of(provider, ":installed");
            text.append(": provider returned ");
            let status = write_natural(reply.status as u64);
            text.append(status.as_str());
            Err(Error::Endpoint(text))
        } else {
            match json_parse(reply.body.as_slice()) {
                Err(message) => {
                    let mut text = "llm: model list was not JSON: ".to_owned();
                    text.append(message.as_str());
                    Err(Error::Endpoint(text))
                },
                Ok(value) => Ok(read_listing(&value)),
            }
        },
    }
}

// ---- the machine -------------------------------------------------------------------

/// What a listing waits for.
#[derive(Debug)]
pub enum ListingState {
    /// The reply to `/api/tags`.
    Tags { plan: ListingPlan },
    /// The reply to `/api/show` about the model at `next`.
    Shows { url: String, models: Vec<InstalledModel>, next: usize },
    /// The reply to the OpenAI-compatible listing.
    Models { provider: String },
}

/// [`ListingState`] over sequences.
#[verifier::ext_equal]
pub enum ListingStateView {
    Tags { plan: ListingPlanView },
    Shows { url: Seq<char>, models: Seq<InstalledModelView>, next: int },
    Models { provider: Seq<char> },
}

impl View for ListingState {
    type V = ListingStateView;

    open spec fn view(&self) -> ListingStateView {
        match self {
            ListingState::Tags { plan } => ListingStateView::Tags { plan: plan@ },
            ListingState::Shows { url, models, next } => ListingStateView::Shows {
                url: url@,
                models: models.deep_view(),
                next: *next as int,
            },
            ListingState::Models { provider } => ListingStateView::Models { provider: provider@ },
        }
    }
}

/// What a listing wants next.
#[derive(Debug)]
pub enum ListingStep {
    /// Send the request, and hand back what came of it.
    Send { call: HttpCall, state: ListingState },
    /// The models, smallest first where sizes are known, or why there is no listing.
    Done(Result<Vec<InstalledModel>, Error>),
}

/// [`ListingStep`] over sequences.
#[verifier::ext_equal]
pub enum ListingStepView {
    Send { call: HttpCallView, state: ListingStateView },
    Done(Result<Seq<InstalledModelView>, ErrorView>),
}

impl View for ListingStep {
    type V = ListingStepView;

    open spec fn view(&self) -> ListingStepView {
        match self {
            ListingStep::Send { call, state } => ListingStepView::Send {
                call: call@,
                state: state@,
            },
            ListingStep::Done(listing) => ListingStepView::Done(installed_view(*listing)),
        }
    }
}

/// The request that asks Ollama about one model.
pub open spec fn show_call(url: Seq<char>, model: Seq<char>) -> HttpCallView {
    post_call(
        url,
        JsonView::Object(Map::<Seq<char>, JsonView>::empty().insert("model"@, JsonView::Text(model))),
    )
}

/// The step that asks for the OpenAI-compatible listing.
pub open spec fn models_step(plan: ListingPlanView) -> ListingStepView {
    match plan.models {
        Ok(url) => ListingStepView::Send {
            call: get_call(url),
            state: ListingStateView::Models { provider: plan.provider },
        },
        Err(error) => ListingStepView::Done(Err(error)),
    }
}

/// The step that asks about the model at `next`, or ends the listing behind the last.
pub open spec fn shows_step(
    show: Option<Seq<char>>,
    models: Seq<InstalledModelView>,
    next: int,
) -> ListingStepView {
    match show {
        Some(url) if 0 <= next < models.len() => ListingStepView::Send {
            call: show_call(url, models[next].model),
            state: ListingStateView::Shows { url, models, next },
        },
        _ => ListingStepView::Done(Ok(models)),
    }
}

/// The first step of a listing.
pub open spec fn listing_start(plan: ListingPlanView) -> ListingStepView {
    match plan.tags {
        Some(url) => ListingStepView::Send {
            call: get_call(url),
            state: ListingStateView::Tags { plan },
        },
        None => models_step(plan),
    }
}

/// The step after a reply.
pub open spec fn listing_next(
    state: ListingStateView,
    reply: Result<HttpReplyView, Seq<char>>,
) -> ListingStepView {
    match state {
        ListingStateView::Tags { plan } => match models_tagged(reply) {
            Some(models) => shows_step(plan.show, by_size(models), 0),
            None => models_step(plan),
        },
        ListingStateView::Shows { url, models, next } => if 0 <= next < models.len() {
            shows_step(Some(url), models.update(next, with_shown(models[next], reply)), next + 1)
        } else {
            ListingStepView::Done(Ok(models))
        },
        ListingStateView::Models { provider } => ListingStepView::Done(
            models_listed(provider, reply),
        ),
    }
}

/// The request that asks Ollama about one model.
pub(crate) fn show_request(url: &str, model: &str) -> (call: HttpCall)
    ensures
        call@ == show_call(url@, model@),
{
    let mut members = Members::new();
    members.put("model", json_text(model));
    post_json(url, &members.object())
}

fn ask_models(plan: ListingPlan) -> (step: ListingStep)
    ensures
        step@ == models_step(plan@),
{
    match plan.models {
        Ok(url) => ListingStep::Send {
            call: get(url.as_str()),
            state: ListingState::Models { provider: plan.provider },
        },
        Err(error) => ListingStep::Done(Err(error)),
    }
}

fn ask_show(show: Option<String>, models: Vec<InstalledModel>, next: usize) -> (step: ListingStep)
    ensures
        step@ == shows_step(show.deep_view(), models.deep_view(), next as int),
{
    match show {
        Some(url) => if next < models.len() {
            assert(models.deep_view()[next as int].model == models@[next as int].model@);
            let call = show_request(url.as_str(), models[next].model.as_str());
            ListingStep::Send { call, state: ListingState::Shows { url, models, next } }
        } else {
            ListingStep::Done(Ok(models))
        },
        None => ListingStep::Done(Ok(models)),
    }
}

fn add_shown(model: &mut InstalledModel, reply: &Result<HttpReply, String>)
    ensures
        final(model)@ == with_shown(old(model)@, reply_view(*reply)),
{
    if let Some(value) = read_good_json(reply) {
        if let Some(items) = json_array(json_field(&value, "capabilities")) {
            model.capabilities = read_texts(items);
        }
    }
}

fn read_tags_reply(reply: &Result<HttpReply, String>) -> (models: Option<Vec<InstalledModel>>)
    ensures
        match models {
            Some(models) => models_tagged(reply_view(*reply)) == Some(models.deep_view()),
            None => models_tagged(reply_view(*reply)) is None,
        },
{
    match read_good_json(reply) {
        Some(value) => {
            let models = read_tags(&value);
            if models.len() > 0 {
                assert(models.deep_view().len() > 0);
                Some(models)
            } else {
                assert(models.deep_view().len() == 0);
                None
            }
        },
        None => None,
    }
}

/// Begin to list what a provider can serve. A declared vendor `ollama` is asked by its
/// native API, which reports sizes; anything else, and Ollama where that fails, by the
/// OpenAI-compatible listing. Without a grant of the network nothing is sent.
pub fn installed_models(config: &OpenAiConfig, capability: &ikigai_core::Capability) -> (step:
    ListingStep)
    ensures
        step@ == listing_start(listing_plan(config@, scopes_of(*capability))),
        grants_no_net(scopes_of(*capability)) ==> (step@ matches ListingStepView::Done(listing)
            && listing is Err),
{
    let plan = plan_listing(config, capability);
    match &plan.tags {
        Some(url) => {
            let call = get(url.as_str());
            ListingStep::Send { call, state: ListingState::Tags { plan } }
        },
        None => ask_models(plan),
    }
}

/// Go on with a listing, given what came back for its last request.
pub fn resume_listing(state: ListingState, reply: Result<HttpReply, String>) -> (step: ListingStep)
    ensures
        step@ == listing_next(state@, reply_view(reply)),
{
    match state {
        ListingState::Tags { plan } => match read_tags_reply(&reply) {
            Some(models) => ask_show(plan.show, smallest_first(&models), 0),
            None => ask_models(plan),
        },
        ListingState::Shows { url, models, next } => if next < models.len() {
            let ghost before = models.deep_view();
            let mut models = models;
            assert(before[next as int] == models@[next as int]@);
            add_shown(&mut models[next], &reply);
            assert(models.deep_view() =~= before.update(
                next as int,
                with_shown(before[next as int], reply_view(reply)),
            ));
            ask_show(Some(url), models, next + 1)
        } else {
            ListingStep::Done(Ok(models))
        },
        ListingState::Models { provider } => ListingStep::Done(
            read_models_reply(provider.as_str(), &reply),
        ),
    }
}

// ---- whole conversations -----------------------------------------------------------

/// A server, by what it answers to the request that is sent at a given place in the row
/// of all requests.
pub type Server = spec_fn(nat, HttpCallView) -> Result<HttpReplyView, Seq<char>>;

/// How far a listing has come: its stages, then the models left to ask about.
pub open spec fn listing_stage(step: ListingStepView) -> nat {
    match step {
        ListingStepView::Send { state: ListingStateView::Tags { .. }, .. } => 2,
        ListingStepView::Send { .. } => 1,
        ListingStepView::Done(_) => 0,
    }
}

/// The models left to ask about.
pub open spec fn listing_left(step: ListingStepView) -> int {
    match step {
        ListingStepView::Send { state: ListingStateView::Shows { models, next, .. }, .. } => if 0
            <= next <= models.len() {
            models.len() - next
        } else {
            0
        },
        _ => 0,
    }
}

/// Where a listing ends when it is carried through with a server, its next request being
/// the one at `at`; and the place behind its last request.
pub open spec fn listing_run(step: ListingStepView, server: Server, at: nat) -> (
    Result<Seq<InstalledModelView>, ErrorView>,
    nat,
)
    decreases listing_stage(step), listing_left(step),
{
    match step {
        ListingStepView::Done(listing) => (listing, at),
        ListingStepView::Send { call, state } => listing_run(
            listing_next(state, server(at, call)),
            server,
            at + 1,
        ),
    }
}

/// The OpenAI-compatible listing, asked for at `at`.
pub open spec fn models_outcome(plan: ListingPlanView, server: Server, at: nat) -> (
    Result<Seq<InstalledModelView>, ErrorView>,
    nat,
) {
    match plan.models {
        Ok(url) => (models_listed(plan.provider, server(at, get_call(url))), at + 1),
        Err(error) => (Err(error), at),
    }
}

/// Each model with what Ollama shows of it, the first asked about at `at`.
pub open spec fn all_shown(
    models: Seq<InstalledModelView>,
    url: Seq<char>,
    server: Server,
    at: nat,
) -> Seq<InstalledModelView> {
    Seq::new(
        models.len(),
        |i: int| with_shown(models[i], server((at + i) as nat, show_call(url, models[i].model))),
    )
}

/// What a provider can serve: where its native listing may be reached and names models,
/// those, smallest first, each with what Ollama shows of it; else the models of the
/// OpenAI-compatible listing.
pub open spec fn listing_outcome(plan: ListingPlanView, server: Server, at: nat) -> (
    Result<Seq<InstalledModelView>, ErrorView>,
    nat,
) {
    match plan.tags {
        None => models_outcome(plan, server, at),
        Some(tags) => match models_tagged(server(at, get_call(tags))) {
            None => models_outcome(plan, server, at + 1),
            Some(models) => match plan.show {
                None => (Ok(by_size(models)), at + 1),
                Some(show) => (
                    Ok(all_shown(by_size(models), show, server, at + 1)),
                    at + 1 + by_size(models).len(),
                ),
            },
        },
    }
}

// ---- what listings promise ---------------------------------------------------------

/// Carried through with any server, a listing ends, and comes to its outcome.
pub proof fn a_listing_comes_to_its_outcome(plan: ListingPlanView, server: Server, at: nat)
    ensures
        listing_run(listing_start(plan), server, at) == listing_outcome(plan, server, at),
{
    reveal_with_fuel(listing_run, 3);
    if let Some(tags) = plan.tags {
        if let Some(models) = models_tagged(server(at, get_call(tags))) {
            if let Some(show) = plan.show {
                shows_run(by_size(models), 0, show, server, at + 1);
                assert(shown_from(by_size(models), 0, show, server, at + 1) =~= all_shown(
                    by_size(models),
                    show,
                    server,
                    at + 1,
                ));
            }
        }
    }
}

/// The models from `next` on with what Ollama shows of them, the one at `next` asked
/// about at `at`.
spec fn shown_from(
    models: Seq<InstalledModelView>,
    next: int,
    url: Seq<char>,
    server: Server,
    at: nat,
) -> Seq<InstalledModelView> {
    Seq::new(
        models.len(),
        |i: int|
            if i < next {
                models[i]
            } else {
                with_shown(
                    models[i],
                    server((at + i - next) as nat, show_call(url, models[i].model)),
                )
            },
    )
}

proof fn shows_run(
    models: Seq<InstalledModelView>,
    next: int,
    url: Seq<char>,
    server: Server,
    at: nat,
)
    requires
        0 <= next <= models.len(),
    ensures
        listing_run(shows_step(Some(url), models, next), server, at) == (
            Ok::<Seq<InstalledModelView>, ErrorView>(shown_from(models, next, url, server, at)),
            (at + models.len() - next) as nat,
        ),
    decreases models.len() - next,
{
    if next == models.len() {
        assert(shown_from(models, next, url, server, at) =~= models);
    } else {
        let reply = server(at, show_call(url, models[next].model));
        let after = models.update(next, with_shown(models[next], reply));
        shows_run(after, next + 1, url, server, at + 1);
        assert forall|i: int| next < i < models.len() implies #[trigger] after[i] == models[i] by {}
        assert(shown_from(after, next + 1, url, server, at + 1) =~= shown_from(
            models,
            next,
            url,
            server,
            at,
        ));
        assert(listing_run(shows_step(Some(url), models, next), server, at) == listing_run(
            listing_next(ListingStateView::Shows { url, models, next }, reply),
            server,
            at + 1,
        ));
    }
}

/// A URL of the provider's own that the capability allows a listing to ask.
pub open spec fn listing_url(
    config: OpenAiConfigView,
    scopes: Option<Set<Seq<char>>>,
    url: Seq<char>,
) -> bool {
    ||| reach_native(scopes, config.base_url, "tags"@) == Some(url)
    ||| reach_native(scopes, config.base_url, "show"@) == Some(url)
    ||| reach(scopes, config.base_url, "models"@, installed_iri(config.provider)) == Ok::<
        Seq<char>,
        ErrorView,
    >(url)
}

/// Whether a state is one of a listing of this provider under this capability.
pub open spec fn lists_provider(
    config: OpenAiConfigView,
    scopes: Option<Set<Seq<char>>>,
    state: ListingStateView,
) -> bool {
    match state {
        ListingStateView::Tags { plan } => plan == listing_plan(config, scopes),
        ListingStateView::Shows { url, .. } => listing_plan(config, scopes).show == Some(url),
        ListingStateView::Models { provider } => provider == config.provider,
    }
}

/// Whether a step keeps to the provider: what it sends goes to a URL of the provider's own
/// that the capability allows, and carries a body only to a declared Ollama.
pub open spec fn keeps_to_provider(
    config: OpenAiConfigView,
    scopes: Option<Set<Seq<char>>>,
    step: ListingStepView,
) -> bool {
    match step {
        ListingStepView::Send { call, state } => {
            &&& lists_provider(config, scopes, state)
            &&& listing_url(config, scopes, call.url)
            &&& call.method == Method::Get ==> call.body.len() == 0
            &&& call.method == Method::Post ==> config.caps.vendor == Some("ollama"@)
        },
        ListingStepView::Done(_) => true,
    }
}

/// A listing keeps to its provider: every request goes to a URL of the provider's own that
/// the capability allows, and no vendor but a declared `ollama` is sent a model's name.
pub proof fn a_listing_keeps_to_its_provider(
    config: OpenAiConfigView,
    scopes: Option<Set<Seq<char>>>,
)
    ensures
        keeps_to_provider(config, scopes, listing_start(listing_plan(config, scopes))),
        forall|state: ListingStateView, reply: Result<HttpReplyView, Seq<char>>|
            lists_provider(config, scopes, state) ==> keeps_to_provider(
                config,
                scopes,
                #[trigger] listing_next(state, reply),
            ),
{
}

/// Smallest first: whatever the server answers, no listed model stands behind a larger
/// one, unknown sizes last.
pub proof fn listings_are_smallest_first(plan: ListingPlanView, server: Server, at: nat)
    ensures
        listing_outcome(plan, server, at).0 matches Ok(models) ==> forall|i: int, j: int|
            #![trigger models[i], models[j]]
            0 <= i < j < models.len() ==> size_key(models[i]) <= size_key(models[j]),
{
    if let Some(tags) = plan.tags {
        if let Some(models) = models_tagged(server(at, get_call(tags))) {
            sizes_ascend(models);
            if let Some(show) = plan.show {
                let sorted = by_size(models);
                let shown = all_shown(sorted, show, server, at + 1);
                assert forall|i: int, j: int|
                    #![trigger shown[i], shown[j]]
                    0 <= i < j < shown.len() implies size_key(shown[i]) <= size_key(shown[j]) by {
                    assert(size_key(sorted[i]) <= size_key(sorted[j]));
                }
            }
        } else {
            listed_sizes_are_unknown(plan, server, at + 1);
        }
    } else {
        listed_sizes_are_unknown(plan, server, at);
    }
}

proof fn listed_sizes_are_unknown(plan: ListingPlanView, server: Server, at: nat)
    ensures
        models_outcome(plan, server, at).0 matches Ok(models) ==> forall|i: int|
            0 <= i < models.len() ==> (#[trigger] models[i]).size is None,
{
    if let Ok(url) = plan.models {
        if let Ok(reply) = server(at, get_call(url)) {
            if let Ok(content) = json_in(reply.body) {
                listed_entries(items_of(content.field("data"@)));
            }
        }
    }
}

proof fn listed_entries(items: Seq<JsonView>)
    ensures
        forall|i: int|
            0 <= i < listed_models(items).len() ==> {
                &&& (#[trigger] listed_models(items)[i]).size is None
                &&& advertises_no_governance(listed_models(items)[i])
            },
    decreases items.len(),
{
    if items.len() > 0 {
        listed_entries(items.drop_last());
        servers_state_no_governance(items.last());
    }
}

proof fn tagged_entries(items: Seq<JsonView>)
    ensures
        forall|i: int|
            0 <= i < tagged_models(items).len() ==> (
            #[trigger] tagged_models(items)[i]).advertised is None,
    decreases items.len(),
{
    if items.len() > 0 {
        tagged_entries(items.drop_last());
    }
}

/// What is advertised of the model, if anything, states no cost, vendor or load shape.
pub open spec fn advertises_no_governance(model: InstalledModelView) -> bool {
    model.advertised matches Some(caps) ==> ungoverned(caps)
}

proof fn placing_keeps_governance(models: Seq<InstalledModelView>, model: InstalledModelView)
    requires
        forall|i: int| 0 <= i < models.len() ==> advertises_no_governance(#[trigger] models[i]),
        advertises_no_governance(model),
    ensures
        forall|i: int|
            0 <= i < placed_by_size(models, model).len() ==> advertises_no_governance(
                #[trigger] placed_by_size(models, model)[i],
            ),
    decreases models.len(),
{
    if models.len() > 0 && size_key(models.last()) > size_key(model) {
        placing_keeps_governance(models.drop_last(), model);
        let placed = placed_by_size(models, model);
        assert forall|i: int| 0 <= i < placed.len() implies advertises_no_governance(
            #[trigger] placed[i],
        ) by {
            if i < placed.len() - 1 {
                assert(placed[i] == placed_by_size(models.drop_last(), model)[i]);
            } else {
                assert(placed[i] == models[models.len() - 1]);
            }
        }
    }
}

proof fn sorting_keeps_governance(models: Seq<InstalledModelView>)
    requires
        forall|i: int| 0 <= i < models.len() ==> advertises_no_governance(#[trigger] models[i]),
    ensures
        forall|i: int|
            0 <= i < by_size(models).len() ==> advertises_no_governance(
                #[trigger] by_size(models)[i],
            ),
    decreases models.len(),
{
    if models.len() > 0 {
        sorting_keeps_governance(models.drop_last());
        placing_keeps_governance(by_size(models.drop_last()), models.last());
    }
}

/// No listing, whatever the server answers, states a cost, a vendor or a load shape of any
/// model.
pub proof fn listings_state_no_governance(plan: ListingPlanView, server: Server, at: nat)
    ensures
        listing_outcome(plan, server, at).0 matches Ok(models) ==> forall|i: int|
            0 <= i < models.len() ==> advertises_no_governance(#[trigger] models[i]),
{
    if let Ok(url) = plan.models {
        if let Ok(reply) = server(at, get_call(url)) {
            if let Ok(content) = json_in(reply.body) {
                listed_entries(items_of(content.field("data"@)));
            }
        }
        if let Ok(reply) = server(at + 1, get_call(url)) {
            if let Ok(content) = json_in(reply.body) {
                listed_entries(items_of(content.field("data"@)));
            }
        }
    }
    if let Some(tags) = plan.tags {
        if let Some(models) = models_tagged(server(at, get_call(tags))) {
            let content = good_json(server(at, get_call(tags)))->0;
            tagged_entries(items_of(content.field("models"@)));
            sorting_keeps_governance(models);
        }
    }
}

// ---- what a server's word comes to -------------------------------------------------

/// Whether a call is a bare GET of a URL.
pub open spec fn is_get(call: HttpCallView, url: Seq<char>) -> bool {
    call.method == Method::Get && call.url == url && call.headers.len() == 0 && call.body.len()
        == 0
}

/// Whether a call asks Ollama about a model: a POST of JSON that names it and nothing else.
pub open spec fn asks_about(call: HttpCallView, url: Seq<char>, model: Seq<char>) -> bool {
    &&& call.method == Method::Post
    &&& call.url == url
    &&& call.headers == seq![("Content-Type"@, "application/json"@)]
    &&& exists|members: Map<Seq<char>, JsonView>|
        call.body == #[trigger] json_bytes(JsonView::Object(members)) && members.dom() == set![
            "model"@,
        ] && members["model"@] == JsonView::Text(model)
}

pub(crate) proof fn calls_are_what_they_say(url: Seq<char>, model: Seq<char>)
    ensures
        is_get(get_call(url), url),
        asks_about(show_call(url, model), url, model),
{
    let members = Map::<Seq<char>, JsonView>::empty().insert("model"@, JsonView::Text(model));
    assert(members.dom() =~= set!["model"@]);
    assert(show_call(url, model).body == json_bytes(JsonView::Object(members)));
}

/// The content that a reply brings: none where nothing came back, the status is an error or
/// the body is no JSON.
pub open spec fn content_of(reply: Result<HttpReplyView, Seq<char>>) -> Option<JsonView> {
    if reply is Ok && reply->Ok_0.status < 400 && json_in(reply->Ok_0.body) is Ok {
        Some(json_in(reply->Ok_0.body)->Ok_0)
    } else {
        None
    }
}

/// Whether a listing is what an OpenAI-compatible server says to the request at `at`: its
/// models in its order, where it answers with JSON and no error status; else an error.
pub open spec fn is_servers_list(
    listing: Result<Seq<InstalledModelView>, ErrorView>,
    url: Seq<char>,
    server: Server,
    at: nat,
) -> bool {
    exists|call: HttpCallView|
        #![trigger is_get(call, url)]
        is_get(call, url) && match content_of(server(at, call)) {
            Some(content) => listing == Ok::<Seq<InstalledModelView>, ErrorView>(
                entries(held(content, "data"@)).filter_map(
                    |entry: JsonView| listed_model(entry),
                ),
            ),
            None => listing is Err,
        }
}

/// What Ollama says a model can do: the texts among the `capabilities` of its reply; unknown
/// where it lists none.
pub open spec fn abilities_in(reply: Result<HttpReplyView, Seq<char>>) -> Seq<Seq<char>> {
    match content_of(reply) {
        Some(content) => entries(held(content, "capabilities"@)).filter_map(
            |item: JsonView|
                match item {
                    JsonView::Text(text) => Some(text),
                    _ => None,
                },
        ),
        None => Seq::empty(),
    }
}

/// Whether models are those of a row, in an order that has no known size behind a larger one
/// or an unknown one, each with what Ollama says it can do, the first asked about at `at`.
pub open spec fn are_shown_in_order(
    models: Seq<InstalledModelView>,
    named: Seq<InstalledModelView>,
    show: Option<Seq<char>>,
    server: Server,
    at: nat,
) -> bool {
    exists|sorted: Seq<InstalledModelView>| {
        &&& #[trigger] sorted.to_multiset() == named.to_multiset()
        &&& models.len() == sorted.len()
        &&& forall|i: int, j: int|
            #![trigger sorted[i], sorted[j]]
            0 <= i < j < sorted.len() ==> match (sorted[i].size, sorted[j].size) {
                (Some(before), Some(after)) => before <= after,
                (None, Some(after)) => after == u64::MAX,
                (_, None) => true,
            }
        &&& forall|i: int|
            0 <= i < sorted.len() ==> is_shown(
                #[trigger] models[i],
                sorted[i],
                show,
                server,
                (at + i) as nat,
            )
    }
}

/// Whether `after` is a model with what Ollama says it can do, asked about at `at`; the model
/// as it was where Ollama may not be asked.
pub open spec fn is_shown(
    after: InstalledModelView,
    before: InstalledModelView,
    show: Option<Seq<char>>,
    server: Server,
    at: nat,
) -> bool {
    match show {
        Some(url) => exists|call: HttpCallView| #[trigger]
            asks_about(call, url, before.model) && after == (InstalledModelView {
                capabilities: abilities_in(server(at, call)),
                ..before
            }),
        None => after == before,
    }
}

proof fn texts_are_filtered(items: Seq<JsonView>)
    ensures
        texts_in(items) == items.filter_map(
            |item: JsonView|
                match item {
                    JsonView::Text(text) => Some(text),
                    _ => None,
                },
        ),
    decreases items.len(),
{
    if items.len() > 0 {
        texts_are_filtered(items.drop_last());
        if let JsonView::Text(text) = items.last() {
            let head = texts_in(items.drop_last());
            assert(head.push(text) =~= head + seq![text]);
        }
    }
}

proof fn nothing_is_filtered()
    ensures
        Seq::<JsonView>::empty().filter_map(
            |item: JsonView|
                match item {
                    JsonView::Text(text) => Some(text),
                    _ => None,
                },
        ) == Seq::<Seq<char>>::empty(),
{
}

proof fn shown_is_what_is_said(
    model: InstalledModelView,
    reply: Result<HttpReplyView, Seq<char>>,
)
    requires
        model.capabilities.len() == 0,
    ensures
        with_shown(model, reply) == (InstalledModelView {
            capabilities: abilities_in(reply),
            ..model
        }),
{
    nothing_is_filtered();
    assert(model.capabilities =~= Seq::<Seq<char>>::empty());
    if let Some(content) = content_of(reply) {
        texts_are_filtered(entries(held(content, "capabilities"@)));
    }
}

proof fn models_outcome_is_the_servers_list(
    plan: ListingPlanView,
    url: Seq<char>,
    server: Server,
    at: nat,
)
    requires
        plan.models == Ok::<Seq<char>, ErrorView>(url),
    ensures
        is_servers_list(models_outcome(plan, server, at).0, url, server, at),
{
    let call = get_call(url);
    calls_are_what_they_say(url, url);
    assert(is_get(call, url));
    if let Some(content) = content_of(server(at, call)) {
        listings_map_their_entries(entries(held(content, "data"@)));
    }
}

proof fn tagged_abilities_are_unknown(items: Seq<JsonView>)
    ensures
        forall|i: int|
            0 <= i < tagged_models(items).len() ==> (
            #[trigger] tagged_models(items)[i]).capabilities.len() == 0,
    decreases items.len(),
{
    if items.len() > 0 {
        tagged_abilities_are_unknown(items.drop_last());
    }
}

proof fn tags_are_shown_in_order(
    content: JsonView,
    show: Option<Seq<char>>,
    server: Server,
    at: nat,
)
    ensures
        ({
            let named = entries(held(content, "models"@)).filter_map(
                |entry: JsonView| tagged_model(entry),
            );
            let sorted = by_size(tagged_models(items_of(content.field("models"@))));
            let models = match show {
                Some(url) => all_shown(sorted, url, server, at),
                None => sorted,
            };
            &&& named == tagged_models(items_of(content.field("models"@)))
            &&& are_shown_in_order(models, named, show, server, at)
        }),
{
    let items = entries(held(content, "models"@));
    let named = items.filter_map(|entry: JsonView| tagged_model(entry));
    listings_map_their_entries(items);
    sorting_keeps_every_model(named);
    sizes_ascend(named);
    tagged_abilities_are_unknown(items);
    let sorted = by_size(named);
    assert forall|i: int| 0 <= i < sorted.len() implies (
    #[trigger] sorted[i]).capabilities.len() == 0 by {
        broadcast use vstd::seq_lib::group_to_multiset_ensures;

        assert(sorted.contains(sorted[i]));
        assert(sorted.to_multiset().count(sorted[i]) > 0);
        assert(named.contains(sorted[i]));
    }
    let models = match show {
        Some(url) => all_shown(sorted, url, server, at),
        None => sorted,
    };
    assert forall|i: int, j: int|
        #![trigger sorted[i], sorted[j]]
        0 <= i < j < sorted.len() implies match (sorted[i].size, sorted[j].size) {
        (Some(before), Some(after)) => before <= after,
        (None, Some(after)) => after == u64::MAX,
        (_, None) => true,
    } by {
        assert(size_key(sorted[i]) <= size_key(sorted[j]));
    }
    assert forall|i: int| 0 <= i < sorted.len() implies is_shown(
        #[trigger] models[i],
        sorted[i],
        show,
        server,
        (at + i) as nat,
    ) by {
        if let Some(url) = show {
            let call = show_call(url, sorted[i].model);
            calls_are_what_they_say(url, sorted[i].model);
            shown_is_what_is_said(sorted[i], server((at + i) as nat, call));
            assert(asks_about(call, url, sorted[i].model));
        }
    }
    assert(sorted.to_multiset() == named.to_multiset());
}

/// What a provider serves is what its server says. A provider that declares the vendor
/// `ollama`, and whose native listing may be reached and names models, serves those, smallest
/// first, each with what it is said it can do; any other serves what its OpenAI-compatible
/// listing names, in the server's order, where the capability allows that.
pub proof fn a_listing_is_the_servers_word(
    config: &OpenAiConfig,
    capability: &ikigai_core::Capability,
    step: ListingStep,
    server: Server,
    at: nat,
)
    requires
        call_ensures(installed_models, (config, capability), step),
    ensures
        ({
            let scopes = scopes_of(*capability);
            let listing = listing_run(step@, server, at).0;
            let native = config@.caps.vendor == Some("ollama"@);
            let tags = reach_native(scopes, config@.base_url, "tags"@);
            let show = reach_native(scopes, config@.base_url, "show"@);
            let plain = reach(
                scopes,
                config@.base_url,
                "models"@,
                "urn:llm:"@ + config@.provider + ":installed"@,
            );
            if native && tags is Some {
                exists|call: HttpCallView|
                    #![trigger is_get(call, tags->0)]
                    is_get(call, tags->0) && {
                        let named = match content_of(server(at, call)) {
                            Some(content) => entries(held(content, "models"@)).filter_map(
                                |entry: JsonView| tagged_model(entry),
                            ),
                            None => Seq::empty(),
                        };
                        if named.len() > 0 {
                            listing matches Ok(models) && are_shown_in_order(
                                models,
                                named,
                                show,
                                server,
                                at + 1,
                            )
                        } else {
                            match plain {
                                Ok(url) => is_servers_list(listing, url, server, at + 1),
                                Err(error) => listing == Err::<
                                    Seq<InstalledModelView>,
                                    ErrorView,
                                >(error),
                            }
                        }
                    }
            } else {
                match plain {
                    Ok(url) => is_servers_list(listing, url, server, at),
                    Err(error) => listing == Err::<Seq<InstalledModelView>, ErrorView>(error),
                }
            }
        }),
{
    let scopes = scopes_of(*capability);
    let plan = listing_plan(config@, scopes);
    a_listing_comes_to_its_outcome(plan, server, at);
    if let Ok(url) = plan.models {
        models_outcome_is_the_servers_list(plan, url, server, at);
        models_outcome_is_the_servers_list(plan, url, server, at + 1);
    }
    if let Some(tags) = plan.tags {
        let call = get_call(tags);
        calls_are_what_they_say(tags, tags);
        assert(is_get(call, tags));
        if let Some(content) = content_of(server(at, call)) {
            tags_are_shown_in_order(content, plan.show, server, at + 1);
        }
    }
}

/// A reply carries a listing on: from where it stood, with what the server answered, it comes
/// to the end it was coming to.
pub proof fn a_reply_carries_a_listing_on(
    call: HttpCallView,
    state: ListingState,
    reply: Result<HttpReply, String>,
    next: ListingStep,
    server: Server,
    at: nat,
)
    requires
        call_ensures(resume_listing, (state, reply), next),
        server(at, call) == reply_view(reply),
    ensures
        listing_run(ListingStepView::Send { call, state: state@ }, server, at) == listing_run(
            next@,
            server,
            at + 1,
        ),
{
}

} // verus!
