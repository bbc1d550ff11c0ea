//! Discovery: the model a server serves, and the registry with its gaps filled.

use crate::config::{
    declared_wins, merge_declared_wins, Caps, CapsView, OpenAiConfig, OpenAiConfigView,
    Registry, RegistryView,
};
use crate::error::{Error, ErrorView};
use crate::listing::{
    a_listing_comes_to_its_outcome, a_listing_keeps_to_its_provider, asks_about,
    calls_are_what_they_say, content_of, good_json,
    installed_models, installed_view, keeps_to_provider, listing_left, listing_next,
    listing_outcome, listing_plan, listing_run, listing_stage, listing_start, listing_url,
    lists_provider, listings_state_no_governance, read_good_json, resume_listing, show_call,
    show_request, ListingState, ListingStateView, ListingStep, ListingStepView, Server,
};
use crate::models::{
    find_supporting, first_supporting, is_first_to_chat, read_shown, servers_state_no_governance, shown_caps,
    supports, the_first_supporting_is_the_first, InstalledModel, InstalledModelView,
};
use crate::needs::NeedView;
use crate::net::{
    allow_native, grants_no_net, net_allowed, reach_native, reply_view, scopes_of, HttpCall,
    HttpCallView, HttpReply, HttpReplyView, Method,
};
use crate::select::meets;
use crate::text::is_text;
use vstd::prelude::*;
use vstd::string::*;

verus! {

// ---- the model a provider serves ---------------------------------------------------

/// A model, and what its server advertises about it.
pub type FoundView = (Seq<char>, Option<CapsView>);

/// What looking for a model came to, over sequences.
pub open spec fn found_view(found: Result<(String, Option<Caps>), Error>) -> Result<
    FoundView,
    ErrorView,
> {
    match found {
        Ok((model, advertised)) => Ok((model@, advertised.deep_view())),
        Err(error) => Err(error@),
    }
}

/// The beginning of every complaint that discovery failed. It names the server.
pub open spec fn undiscovered(who: Seq<char>, base_url: Seq<char>) -> Seq<char> {
    who + ": could not discover a model at `"@ + base_url
        + "` — this provider declares no `model`, and "@
}

/// The model that a listing of the server's models offers: the first that can chat, or
/// why there is none.
pub open spec fn model_from(
    config: OpenAiConfigView,
    who: Seq<char>,
    listing: Result<Seq<InstalledModelView>, ErrorView>,
) -> Result<FoundView, ErrorView> {
    match listing {
        Err(error) => Err(
            ErrorView::Endpoint(
                undiscovered(who, config.base_url) + "listing the server's models failed: "@
                    + error.message(),
            ),
        ),
        Ok(models) => match first_supporting(models, "completion"@) {
            Some(place) => Ok((models[place].model, models[place].advertised)),
            None => Err(
                ErrorView::Endpoint(
                    undiscovered(who, config.base_url)
                        + "the server listed no chat-capable model"@,
                ),
            ),
        },
    }
}

/// What looking for a model wants next.
#[derive(Debug)]
pub enum ResolveStep {
    /// Send the request, and hand back what came of it.
    Send { call: HttpCall, state: ListingState },
    /// The model and what the server advertises about it, or why there is none.
    Done(Result<(String, Option<Caps>), Error>),
}

/// [`ResolveStep`] over sequences.
#[verifier::ext_equal]
pub enum ResolveStepView {
    Send { call: HttpCallView, state: ListingStateView },
    Done(Result<FoundView, ErrorView>),
}

impl View for ResolveStep {
    type V = ResolveStepView;

    open spec fn view(&self) -> ResolveStepView {
        match self {
            ResolveStep::Send { call, state } => ResolveStepView::Send {
                call: call@,
                state: state@,
            },
            ResolveStep::Done(found) => ResolveStepView::Done(found_view(*found)),
        }
    }
}

/// A step of the listing as one of looking for a model.
pub open spec fn resolve_by(
    config: OpenAiConfigView,
    who: Seq<char>,
    step: ListingStepView,
) -> ResolveStepView {
    match step {
        ListingStepView::Send { call, state } => ResolveStepView::Send { call, state },
        ListingStepView::Done(listing) => ResolveStepView::Done(model_from(config, who, listing)),
    }
}

/// The first step: a pinned model is the answer, and no request is made; else the server
/// is asked what it serves.
pub open spec fn resolve_start(
    config: OpenAiConfigView,
    scopes: Option<Set<Seq<char>>>,
    who: Seq<char>,
) -> ResolveStepView {
    match config.default_model {
        Some(model) => ResolveStepView::Done(Ok((model, None))),
        None => resolve_by(config, who, listing_start(listing_plan(config, scopes))),
    }
}

/// The step after a reply.
pub open spec fn resolve_next(
    config: OpenAiConfigView,
    who: Seq<char>,
    state: ListingStateView,
    reply: Result<HttpReplyView, Seq<char>>,
) -> ResolveStepView {
    resolve_by(config, who, listing_next(state, reply))
}

fn undiscovered_text(who: &str, base_url: &str) -> (text: String)
    ensures
        text@ == undiscovered(who@, base_url@),
{
    let mut text = who.to_owned();
    text.append(": could not discover a model at `");
    text.append(base_url);
    text.append("` — this provider declares no `model`, and ");
    text
}

/// The model that a listing of the server's models offers: the first that can chat. There
/// is no fallback to another provider: answering from a different backend would defeat
/// every requirement a caller expressed.
pub fn choose_model(
    config: &OpenAiConfig,
    who: &str,
    listing: Result<Vec<InstalledModel>, Error>,
) -> (found: Result<(String, Option<Caps>), Error>)
    ensures
        found_view(found) == model_from(config@, who@, installed_view(listing)),
{
    match listing {
        Err(error) => {
            let mut text = undiscovered_text(who, config.base_url.as_str());
            text.append("listing the server's models failed: ");
            let cause = error.message();
            text.append(cause.as_str());
            Err(Error::Endpoint(text))
        },
        Ok(models) => match find_supporting(&models, "completion") {
            Some(place) => {
                assert(models.deep_view()[place as int] == models@[place as int]@);
                let model = models[place].clone();
                Ok((model.model, model.advertised))
            },
            None => {
                let mut text = undiscovered_text(who, config.base_url.as_str());
                text.append("the server listed no chat-capable model");
                Err(Error::Endpoint(text))
            },
        },
    }
}

fn resolve_listing(config: &OpenAiConfig, who: &str, step: ListingStep) -> (next: ResolveStep)
    ensures
        next@ == resolve_by(config@, who@, step@),
{
    match step {
        ListingStep::Send { call, state } => ResolveStep::Send { call, state },
        ListingStep::Done(listing) => ResolveStep::Done(choose_model(config, who, listing)),
    }
}

/// Begin to find the model a provider serves: the configured one, verbatim and without a
/// request, or else the one its server is serving right now.
pub fn resolve_model(
    config: &OpenAiConfig,
    capability: &ikigai_core::Capability,
    who: &str,
) -> (step: ResolveStep)
    ensures
        step@ == resolve_start(config@, scopes_of(*capability), who@),
        grants_no_net(scopes_of(*capability)) && config@.default_model is None ==> (
        step@ matches ResolveStepView::Done(found) && found is Err),
{
    match &config.default_model {
        Some(model) => ResolveStep::Done(Ok((model.clone(), None))),
        None => resolve_listing(config, who, installed_models(config, capability)),
    }
}

/// Go on looking for a model, given what came back for the last request.
pub fn resume_resolve(
    config: &OpenAiConfig,
    who: &str,
    state: ListingState,
    reply: Result<HttpReply, String>,
) -> (step: ResolveStep)
    ensures
        step@ == resolve_next(config@, who@, state@, reply_view(reply)),
{
    resolve_listing(config, who, resume_listing(state, reply))
}

/// How far looking for a model has come.
pub open spec fn resolve_stage(step: ResolveStepView) -> nat {
    match step {
        ResolveStepView::Send { call, state } => listing_stage(
            ListingStepView::Send { call, state },
        ),
        ResolveStepView::Done(_) => 0,
    }
}

/// The models left to ask about.
pub open spec fn resolve_left(step: ResolveStepView) -> int {
    match step {
        ResolveStepView::Send { call, state } => listing_left(
            ListingStepView::Send { call, state },
        ),
        ResolveStepView::Done(_) => 0,
    }
}

/// Where looking for a model ends when it is carried through with a server, its next
/// request being the one at `at`; and the place behind its last request.
pub open spec fn resolve_run(
    step: ResolveStepView,
    config: OpenAiConfigView,
    who: Seq<char>,
    server: Server,
    at: nat,
) -> (Result<FoundView, ErrorView>, nat)
    decreases resolve_stage(step), resolve_left(step),
{
    match step {
        ResolveStepView::Done(found) => (found, at),
        ResolveStepView::Send { call, state } => resolve_run(
            resolve_next(config, who, state, server(at, call)),
            config,
            who,
            server,
            at + 1,
        ),
    }
}

/// The model a provider serves: the pinned one, or the first that can chat of what its
/// server lists.
pub open spec fn resolve_outcome(
    config: OpenAiConfigView,
    scopes: Option<Set<Seq<char>>>,
    who: Seq<char>,
    server: Server,
    at: nat,
) -> (Result<FoundView, ErrorView>, nat) {
    match config.default_model {
        Some(model) => (Ok((model, None)), at),
        None => {
            let (listing, after) = listing_outcome(listing_plan(config, scopes), server, at);
            (model_from(config, who, listing), after)
        },
    }
}

proof fn resolving_follows_listing(
    step: ListingStepView,
    config: OpenAiConfigView,
    who: Seq<char>,
    server: Server,
    at: nat,
)
    ensures
        resolve_run(resolve_by(config, who, step), config, who, server, at) == (
            model_from(config, who, listing_run(step, server, at).0),
            listing_run(step, server, at).1,
        ),
    decreases listing_stage(step), listing_left(step),
{
    if let ListingStepView::Send { call, state } = step {
        let next = listing_next(state, server(at, call));
        resolving_follows_listing(next, config, who, server, at + 1);
    }
}

/// Carried through with any server, looking for a model ends, and comes to its outcome.
pub proof fn resolving_comes_to_its_outcome(
    config: OpenAiConfigView,
    scopes: Option<Set<Seq<char>>>,
    who: Seq<char>,
    server: Server,
    at: nat,
)
    ensures
        resolve_run(resolve_start(config, scopes, who), config, who, server, at)
            == resolve_outcome(config, scopes, who, server, at),
{
    if config.default_model is None {
        let plan = listing_plan(config, scopes);
        resolving_follows_listing(listing_start(plan), config, who, server, at);
        a_listing_comes_to_its_outcome(plan, server, at);
    }
}

/// A pinned model is the answer verbatim, and finding it makes no request.
pub proof fn a_pinned_model_needs_no_request(
    config: OpenAiConfigView,
    scopes: Option<Set<Seq<char>>>,
    who: Seq<char>,
    model: Seq<char>,
)
    requires
        config.default_model == Some(model),
    ensures
        resolve_start(config, scopes, who) == ResolveStepView::Done(Ok((model, None))),
{
}

/// A complaint that discovery failed names the server that was asked.
pub proof fn a_failed_discovery_names_the_server(
    config: OpenAiConfigView,
    who: Seq<char>,
    listing: Result<Seq<InstalledModelView>, ErrorView>,
)
    ensures
        model_from(config, who, listing) matches Err(error) ==> (error matches ErrorView::Endpoint(
            message,
        ) && undiscovered(who, config.base_url).is_prefix_of(message)),
        listing is Err ==> model_from(config, who, listing) is Err,
{
    if let Err(error) = listing {
        let rest = "listing the server's models failed: "@;
        assert((undiscovered(who, config.base_url) + rest + error.message()).take(
            undiscovered(who, config.base_url).len() as int,
        ) =~= undiscovered(who, config.base_url));
    }
}

/// A discovered model is one the server listed, and it can chat as far as is known.
pub proof fn a_discovered_model_was_listed(
    config: OpenAiConfigView,
    who: Seq<char>,
    models: Seq<InstalledModelView>,
)
    ensures
        model_from(config, who, Ok(models)) matches Ok(found) ==> exists|place: int|
            #![trigger models[place]]
            0 <= place < models.len() && supports(
                models[place],
                "completion"@,
            ) && found == (models[place].model, models[place].advertised),
{
    the_first_supporting_is_the_first(models, "completion"@);
}

// ---- the registry as the servers complete it ---------------------------------------

/// The provider once its server was asked for a model. A server that could not be asked
/// leaves it as it was.
pub open spec fn learned(
    config: OpenAiConfigView,
    found: Result<FoundView, ErrorView>,
) -> OpenAiConfigView {
    match found {
        Ok((model, advertised)) => OpenAiConfigView {
            default_model: Some(model),
            caps: match advertised {
                Some(caps) => declared_wins(config.caps, caps),
                None => config.caps,
            },
            ..config
        },
        Err(_) => config,
    }
}

/// The request that asks Ollama about a provider's model: made only of a declared vendor
/// `ollama`, where the capability allows it and a model is known.
pub open spec fn probe(config: OpenAiConfigView, scopes: Option<Set<Seq<char>>>) -> Option<
    HttpCallView,
> {
    if config.caps.vendor == Some("ollama"@) {
        match (reach_native(scopes, config.base_url, "show"@), config.default_model) {
            (Some(url), Some(model)) => Some(show_call(url, model)),
            _ => None,
        }
    } else {
        None
    }
}

/// The provider once Ollama answered about its model.
pub open spec fn informed(
    config: OpenAiConfigView,
    reply: Result<HttpReplyView, Seq<char>>,
) -> OpenAiConfigView {
    match good_json(reply) {
        Some(content) => OpenAiConfigView {
            caps: declared_wins(config.caps, shown_caps(content)),
            ..config
        },
        None => config,
    }
}

/// The registry with another provider at a place.
pub open spec fn with_provider(
    registry: RegistryView,
    place: int,
    config: OpenAiConfigView,
) -> RegistryView {
    RegistryView { providers: registry.providers.update(place, config), ..registry }
}

/// What completing the registry waits for.
#[derive(Debug)]
pub enum EffectiveState {
    /// A reply of the server of the provider at `place`, which names no model.
    Listing { registry: Registry, place: usize, listing: ListingState },
    /// The reply to `/api/show` about the model of the provider at `place`.
    Showing { registry: Registry, place: usize },
}

/// [`EffectiveState`] over sequences.
#[verifier::ext_equal]
pub enum EffectiveStateView {
    Listing { registry: RegistryView, place: int, listing: ListingStateView },
    Showing { registry: RegistryView, place: int },
}

impl View for EffectiveState {
    type V = EffectiveStateView;

    open spec fn view(&self) -> EffectiveStateView {
        match self {
            EffectiveState::Listing { registry, place, listing } => EffectiveStateView::Listing {
                registry: registry@,
                place: *place as int,
                listing: listing@,
            },
            EffectiveState::Showing { registry, place } => EffectiveStateView::Showing {
                registry: registry@,
                place: *place as int,
            },
        }
    }
}

/// What completing the registry wants next.
#[derive(Debug)]
pub enum EffectiveStep {
    /// Send the request, and hand back what came of it.
    Send { call: HttpCall, state: EffectiveState },
    /// Every provider's declared profile with discovered gaps filled.
    Done(Registry),
}

/// [`EffectiveStep`] over sequences.
#[verifier::ext_equal]
pub enum EffectiveStepView {
    Send { call: HttpCallView, state: EffectiveStateView },
    Done(RegistryView),
}

impl View for EffectiveStep {
    type V = EffectiveStepView;

    open spec fn view(&self) -> EffectiveStepView {
        match self {
            EffectiveStep::Send { call, state } => EffectiveStepView::Send {
                call: call@,
                state: state@,
            },
            EffectiveStep::Done(registry) => EffectiveStepView::Done(registry@),
        }
    }
}

/// The next step with the providers from `place` on to complete.
pub open spec fn effective_from(
    registry: RegistryView,
    scopes: Option<Set<Seq<char>>>,
    place: int,
) -> EffectiveStepView
    decreases registry.providers.len() - place, 2int,
{
    if !(0 <= place < registry.providers.len()) {
        EffectiveStepView::Done(registry)
    } else if registry.providers[place].default_model is None {
        resolved_step(
            registry,
            scopes,
            place,
            resolve_start(registry.providers[place], scopes, "urn:llm:models"@),
        )
    } else {
        probe_from(registry, scopes, place)
    }
}

/// The next step with the provider at `place` to ask about, and those behind it to
/// complete.
pub open spec fn probe_from(
    registry: RegistryView,
    scopes: Option<Set<Seq<char>>>,
    place: int,
) -> EffectiveStepView
    decreases registry.providers.len() - place, 0int,
{
    if !(0 <= place < registry.providers.len()) {
        EffectiveStepView::Done(registry)
    } else {
        match probe(registry.providers[place], scopes) {
            Some(call) => EffectiveStepView::Send {
                call,
                state: EffectiveStateView::Showing { registry, place },
            },
            None => effective_from(registry, scopes, place + 1),
        }
    }
}

/// The next step, given one of looking for the model of the provider at `place`.
pub open spec fn resolved_step(
    registry: RegistryView,
    scopes: Option<Set<Seq<char>>>,
    place: int,
    step: ResolveStepView,
) -> EffectiveStepView
    decreases registry.providers.len() - place, 1int,
{
    match step {
        ResolveStepView::Send { call, state } => EffectiveStepView::Send {
            call,
            state: EffectiveStateView::Listing { registry, place, listing: state },
        },
        ResolveStepView::Done(found) => if 0 <= place < registry.providers.len() {
            probe_from(
                with_provider(registry, place, learned(registry.providers[place], found)),
                scopes,
                place,
            )
        } else {
            EffectiveStepView::Done(registry)
        },
    }
}

/// The step after a reply.
pub open spec fn effective_next(
    state: EffectiveStateView,
    scopes: Option<Set<Seq<char>>>,
    reply: Result<HttpReplyView, Seq<char>>,
) -> EffectiveStepView {
    match state {
        EffectiveStateView::Listing { registry, place, listing } => if 0 <= place
            < registry.providers.len() {
            resolved_step(
                registry,
                scopes,
                place,
                resolve_next(registry.providers[place], "urn:llm:models"@, listing, reply),
            )
        } else {
            EffectiveStepView::Done(registry)
        },
        EffectiveStateView::Showing { registry, place } => if 0 <= place
            < registry.providers.len() {
            effective_from(
                with_provider(registry, place, informed(registry.providers[place], reply)),
                scopes,
                place + 1,
            )
        } else {
            EffectiveStepView::Done(registry)
        },
    }
}

fn learn(config: &mut OpenAiConfig, found: Result<(String, Option<Caps>), Error>)
    ensures
        final(config)@ == learned(old(config)@, found_view(found)),
{
    if let Ok((model, advertised)) = found {
        config.default_model = Some(model);
        if let Some(caps) = advertised {
            config.caps = merge_declared_wins(&config.caps, caps);
        }
    }
}

fn probe_request(config: &OpenAiConfig, capability: &ikigai_core::Capability) -> (call: Option<
    HttpCall,
>)
    ensures
        match call {
            Some(call) => probe(config@, scopes_of(*capability)) == Some(call@),
            None => probe(config@, scopes_of(*capability)) is None,
        },
        grants_no_net(scopes_of(*capability)) ==> call is None,
{
    if !is_text(&config.caps.vendor, "ollama") {
        return None;
    }
    match allow_native(capability, config.base_url.as_str(), "show") {
        Some(url) => match &config.default_model {
            Some(model) => Some(show_request(url.as_str(), model.as_str())),
            None => None,
        },
        None => None,
    }
}

/// Traits that Ollama shows of a provider's model, merged under the declared ones. Any
/// failure leaves the declared profile standing.
fn inform(config: &mut OpenAiConfig, reply: &Result<HttpReply, String>)
    ensures
        final(config)@ == informed(old(config)@, reply_view(*reply)),
{
    if let Some(shown) = read_good_json(reply) {
        config.caps = merge_declared_wins(&config.caps, read_shown(&shown));
    }
}

fn advance(registry: Registry, capability: &ikigai_core::Capability, from: usize) -> (step:
    EffectiveStep)
    ensures
        step@ == effective_from(registry@, scopes_of(*capability), from as int),
        grants_no_net(scopes_of(*capability)) ==> step@ == EffectiveStepView::Done(registry@),
{
    let ghost scopes = scopes_of(*capability);
    let ghost goal = effective_from(registry@, scopes, from as int);
    let mut completed = registry;
    let mut place: usize = from;
    while place < completed.providers.len()
        invariant
            scopes == scopes_of(*capability),
            goal == effective_from(registry@, scopes, from as int),
            grants_no_net(scopes) ==> completed@ == registry@,
            goal == effective_from(completed@, scopes, place as int),
        decreases completed.providers.len() - place,
    {
        let ghost before = completed@;
        assert(before.providers[place as int] == completed.providers@[place as int]@);
        if completed.providers[place].default_model.is_none() {
            match resolve_model(&completed.providers[place], capability, "urn:llm:models") {
                ResolveStep::Send { call, state } => {
                    return EffectiveStep::Send {
                        call,
                        state: EffectiveState::Listing {
                            registry: completed,
                            place,
                            listing: state,
                        },
                    };
                },
                ResolveStep::Done(found) => {
                    learn(&mut completed.providers[place], found);
                    assert(completed@ =~= with_provider(
                        before,
                        place as int,
                        learned(before.providers[place as int], found_view(found)),
                    ));
                    assert(grants_no_net(scopes) ==> completed@ =~= before);
                },
            }
        }
        assert(goal == probe_from(completed@, scopes, place as int));
        assert(completed@.providers[place as int] == completed.providers@[place as int]@);
        if let Some(call) = probe_request(&completed.providers[place], capability) {
            return EffectiveStep::Send {
                call,
                state: EffectiveState::Showing { registry: completed, place },
            };
        }
        place = place + 1;
    }
    EffectiveStep::Done(completed)
}

/// Begin to complete a registry: every provider's declared profile with its gaps filled
/// by what its server says. A server that cannot be asked leaves its provider as declared,
/// and the others are completed all the same. Without a grant of the network nothing is
/// sent, and the registry stands as declared.
pub fn effective_registry(registry: &Registry, capability: &ikigai_core::Capability) -> (step:
    EffectiveStep)
    ensures
        step@ == effective_from(registry@, scopes_of(*capability), 0),
        grants_no_net(scopes_of(*capability)) ==> step@ == EffectiveStepView::Done(registry@),
{
    advance(registry.clone(), capability, 0)
}

/// Go on completing a registry, given what came back for the last request.
pub fn resume_effective(
    state: EffectiveState,
    capability: &ikigai_core::Capability,
    reply: Result<HttpReply, String>,
) -> (step: EffectiveStep)
    ensures
        step@ == effective_next(state@, scopes_of(*capability), reply_view(reply)),
{
    match state {
        EffectiveState::Listing { registry, place, listing } => {
            let mut registry = registry;
            if place >= registry.providers.len() {
                return EffectiveStep::Done(registry);
            }
            let ghost before = registry@;
            assert(before.providers[place as int] == registry.providers@[place as int]@);
            match resume_resolve(&registry.providers[place], "urn:llm:models", listing, reply) {
                ResolveStep::Send { call, state } => EffectiveStep::Send {
                    call,
                    state: EffectiveState::Listing { registry, place, listing: state },
                },
                ResolveStep::Done(found) => {
                    learn(&mut registry.providers[place], found);
                    assert(registry@ =~= with_provider(
                        before,
                        place as int,
                        learned(before.providers[place as int], found_view(found)),
                    ));
                    assert(registry@.providers[place as int]
                        == registry.providers@[place as int]@);
                    match probe_request(&registry.providers[place], capability) {
                        Some(call) => EffectiveStep::Send {
                            call,
                            state: EffectiveState::Showing { registry, place },
                        },
                        None => advance(registry, capability, place + 1),
                    }
                },
            }
        },
        EffectiveState::Showing { registry, place } => {
            let mut registry = registry;
            if place >= registry.providers.len() {
                return EffectiveStep::Done(registry);
            }
            let ghost before = registry@;
            assert(before.providers[place as int] == registry.providers@[place as int]@);
            inform(&mut registry.providers[place], &reply);
            assert(registry@ =~= with_provider(
                before,
                place as int,
                informed(before.providers[place as int], reply_view(reply)),
            ));
            advance(registry, capability, place + 1)
        },
    }
}

// ---- whole conversations -----------------------------------------------------------

/// The providers from `place` on; one where there is none at that place.
pub open spec fn count_from(registry: RegistryView, place: int) -> int {
    if 0 <= place < registry.providers.len() {
        registry.providers.len() - place
    } else {
        1
    }
}

/// The providers that a step leaves to complete, the one it is at included.
pub open spec fn providers_left(step: EffectiveStepView) -> int {
    match step {
        EffectiveStepView::Send {
            state: EffectiveStateView::Listing { registry, place, .. },
            ..
        } => count_from(registry, place),
        EffectiveStepView::Send { state: EffectiveStateView::Showing { registry, place }, .. } =>
        count_from(registry, place),
        EffectiveStepView::Done(_) => 0,
    }
}

/// The step of looking for a model that a step stands for, if it does.
pub open spec fn looking(step: EffectiveStepView) -> Option<ResolveStepView> {
    match step {
        EffectiveStepView::Send { call, state: EffectiveStateView::Listing { listing, .. } } =>
        Some(ResolveStepView::Send { call, state: listing }),
        _ => None,
    }
}

/// How far looking for the provider's model has come: nowhere near the end, or done.
pub open spec fn looking_stage(step: EffectiveStepView) -> nat {
    match looking(step) {
        Some(step) => 1 + resolve_stage(step),
        None => 0,
    }
}

/// The models left to ask about.
pub open spec fn looking_left(step: EffectiveStepView) -> int {
    match looking(step) {
        Some(step) => resolve_left(step),
        None => 0,
    }
}

/// Whether a step is behind all providers before `from`.
pub open spec fn is_at_least(step: EffectiveStepView, from: int, count: nat) -> bool {
    match step {
        EffectiveStepView::Send {
            state: EffectiveStateView::Listing { registry, place, .. },
            ..
        } => from <= place < count && registry.providers.len() == count,
        EffectiveStepView::Send { state: EffectiveStateView::Showing { registry, place }, .. } =>
        from <= place < count && registry.providers.len() == count,
        EffectiveStepView::Done(_) => true,
    }
}

proof fn steps_go_on(registry: RegistryView, scopes: Option<Set<Seq<char>>>, place: int)
    requires
        0 <= place,
    ensures
        is_at_least(
            effective_from(registry, scopes, place),
            place,
            registry.providers.len(),
        ),
        is_at_least(probe_from(registry, scopes, place), place, registry.providers.len()),
        place < registry.providers.len() ==> forall|found: Result<FoundView, ErrorView>|
            is_at_least(
                #[trigger] resolved_step(registry, scopes, place, ResolveStepView::Done(found)),
                place,
                registry.providers.len(),
            ),
    decreases registry.providers.len() - place,
{
    if place < registry.providers.len() {
        steps_go_on(registry, scopes, place + 1);
        let start = resolve_start(registry.providers[place], scopes, "urn:llm:models"@);
        assert forall|found: Result<FoundView, ErrorView>| is_at_least(
            #[trigger] resolved_step(registry, scopes, place, ResolveStepView::Done(found)),
            place,
            registry.providers.len(),
        ) by {
            let after = with_provider(
                registry,
                place,
                learned(registry.providers[place], found),
            );
            steps_go_on(after, scopes, place + 1);
        }
        if let ResolveStepView::Done(found) = start {
            assert(is_at_least(
                resolved_step(registry, scopes, place, ResolveStepView::Done(found)),
                place,
                registry.providers.len(),
            ));
        }
    }
}

/// Where completing a registry ends when it is carried through with the servers, its next
/// request being the one at `at`; and the place behind its last request.
pub open spec fn effective_run(
    step: EffectiveStepView,
    scopes: Option<Set<Seq<char>>>,
    server: Server,
    at: nat,
) -> (RegistryView, nat)
    decreases providers_left(step), looking_stage(step), looking_left(step),
    via effective_run_ends
{
    match step {
        EffectiveStepView::Done(registry) => (registry, at),
        EffectiveStepView::Send { call, state } => effective_run(
            effective_next(state, scopes, server(at, call)),
            scopes,
            server,
            at + 1,
        ),
    }
}

#[via_fn]
proof fn effective_run_ends(
    step: EffectiveStepView,
    scopes: Option<Set<Seq<char>>>,
    server: Server,
    at: nat,
) {
    if let EffectiveStepView::Send { call, state } = step {
        discovery_goes_on(call, state, scopes, server(at, call));
    }
}

/// Whether `next` is nearer to the end than `now`: by providers, then by how far looking for
/// a model has come, then by models left to ask about.
pub open spec fn is_nearer(next: EffectiveStepView, now: EffectiveStepView) -> bool {
    ||| 0 <= providers_left(next) < providers_left(now)
    ||| providers_left(next) == providers_left(now) && looking_stage(next) < looking_stage(now)
    ||| providers_left(next) == providers_left(now) && looking_stage(next) == looking_stage(now)
        && 0 <= looking_left(next) < looking_left(now)
}

/// Every reply brings completing a registry nearer to its end.
pub proof fn discovery_goes_on(
    call: HttpCallView,
    state: EffectiveStateView,
    scopes: Option<Set<Seq<char>>>,
    reply: Result<HttpReplyView, Seq<char>>,
)
    ensures
        is_nearer(effective_next(state, scopes, reply), EffectiveStepView::Send { call, state }),
{
    match state {
        EffectiveStateView::Listing { registry, place, listing } => {
            if 0 <= place < registry.providers.len() {
                let next = resolve_next(
                    registry.providers[place],
                    "urn:llm:models"@,
                    listing,
                    reply,
                );
                if let ResolveStepView::Done(found) = next {
                    let after = with_provider(
                        registry,
                        place,
                        learned(registry.providers[place], found),
                    );
                    steps_go_on(after, scopes, place + 1);
                }
            }
        },
        EffectiveStateView::Showing { registry, place } => {
            if 0 <= place < registry.providers.len() {
                let after = with_provider(
                    registry,
                    place,
                    informed(registry.providers[place], reply),
                );
                steps_go_on(after, scopes, place + 1);
            }
        },
    }
}

/// A provider with its gaps filled, its first request being the one at `at`; and the place
/// behind its last request. Its model is looked for where none is pinned, and Ollama is
/// asked about the model.
pub open spec fn completed(
    config: OpenAiConfigView,
    scopes: Option<Set<Seq<char>>>,
    server: Server,
    at: nat,
) -> (OpenAiConfigView, nat) {
    let (named, after) = match config.default_model {
        Some(_) => (config, at),
        None => {
            let (found, after) = resolve_outcome(config, scopes, "urn:llm:models"@, server, at);
            (learned(config, found), after)
        },
    };
    match probe(named, scopes) {
        Some(call) => (informed(named, server(after, call)), after + 1),
        None => (named, after),
    }
}

/// The registry with the providers from `place` on completed, one after the other.
pub open spec fn effective_outcome(
    registry: RegistryView,
    scopes: Option<Set<Seq<char>>>,
    server: Server,
    at: nat,
    place: int,
) -> (RegistryView, nat)
    decreases registry.providers.len() - place,
{
    if !(0 <= place < registry.providers.len()) {
        (registry, at)
    } else {
        let (config, after) = completed(registry.providers[place], scopes, server, at);
        effective_outcome(with_provider(registry, place, config), scopes, server, after, place + 1)
    }
}

proof fn looking_runs(
    registry: RegistryView,
    scopes: Option<Set<Seq<char>>>,
    place: int,
    step: ResolveStepView,
    server: Server,
    at: nat,
)
    requires
        0 <= place < registry.providers.len(),
    ensures
        ({
            let config = registry.providers[place];
            let (found, after) = resolve_run(step, config, "urn:llm:models"@, server, at);
            effective_run(resolved_step(registry, scopes, place, step), scopes, server, at)
                == effective_run(
                probe_from(
                    with_provider(registry, place, learned(config, found)),
                    scopes,
                    place,
                ),
                scopes,
                server,
                after,
            )
        }),
    decreases resolve_stage(step), resolve_left(step),
{
    let config = registry.providers[place];
    match step {
        ResolveStepView::Send { call, state } => {
            let next = resolve_next(config, "urn:llm:models"@, state, server(at, call));
            looking_runs(registry, scopes, place, next, server, at + 1);
        },
        ResolveStepView::Done(found) => {},
    }
}

proof fn completing_runs(
    registry: RegistryView,
    scopes: Option<Set<Seq<char>>>,
    server: Server,
    at: nat,
    place: int,
)
    requires
        0 <= place,
    ensures
        effective_run(effective_from(registry, scopes, place), scopes, server, at)
            == effective_outcome(registry, scopes, server, at, place),
    decreases registry.providers.len() - place,
{
    if place < registry.providers.len() {
        let config = registry.providers[place];
        let who = "urn:llm:models"@;
        let (named, after) = match config.default_model {
            Some(_) => (config, at),
            None => {
                let (found, after) = resolve_outcome(config, scopes, who, server, at);
                (learned(config, found), after)
            },
        };
        let known = with_provider(registry, place, named);
        if config.default_model is None {
            looking_runs(
                registry,
                scopes,
                place,
                resolve_start(config, scopes, who),
                server,
                at,
            );
            resolving_comes_to_its_outcome(config, scopes, who, server, at);
        } else {
            assert(known.providers =~= registry.providers);
        }
        assert(effective_run(effective_from(registry, scopes, place), scopes, server, at)
            == effective_run(probe_from(known, scopes, place), scopes, server, after));
        match probe(named, scopes) {
            Some(call) => {
                let told = with_provider(known, place, informed(named, server(after, call)));
                completing_runs(told, scopes, server, after + 1, place + 1);
                assert(told.providers =~= registry.providers.update(
                    place,
                    informed(named, server(after, call)),
                ));
            },
            None => {
                completing_runs(known, scopes, server, after, place + 1);
            },
        }
    }
}

/// Carried through with any servers, completing a registry ends, and comes to its outcome.
pub proof fn completing_comes_to_its_outcome(
    registry: RegistryView,
    scopes: Option<Set<Seq<char>>>,
    server: Server,
    at: nat,
)
    ensures
        effective_run(effective_from(registry, scopes, 0), scopes, server, at)
            == effective_outcome(registry, scopes, server, at, 0),
{
    completing_runs(registry, scopes, server, at, 0);
}

// ---- what discovery promises -------------------------------------------------------

/// Whether `after` is `before` with gaps filled: what was declared stands, and the cost,
/// the vendor and the load shape are as declared even where nothing was.
pub open spec fn fills_gaps(before: OpenAiConfigView, after: OpenAiConfigView) -> bool {
    &&& after.provider == before.provider
    &&& after.base_url == before.base_url
    &&& after.api_key == before.api_key
    &&& before.default_model is Some ==> after.default_model == before.default_model
    &&& after.caps.cost == before.caps.cost
    &&& after.caps.vendor == before.caps.vendor
    &&& after.caps.batch_at == before.caps.batch_at
    &&& before.caps.context is Some ==> after.caps.context == before.caps.context
    &&& before.caps.modalities.len() > 0 ==> after.caps.modalities == before.caps.modalities
    &&& before.caps.tools is Some ==> after.caps.tools == before.caps.tools
    &&& before.caps.json is Some ==> after.caps.json == before.caps.json
    &&& before.caps.params is Some ==> after.caps.params == before.caps.params
}

proof fn completing_one_fills_gaps(
    config: OpenAiConfigView,
    scopes: Option<Set<Seq<char>>>,
    server: Server,
    at: nat,
)
    ensures
        fills_gaps(config, completed(config, scopes, server, at).0),
{
    if config.default_model is None {
        let plan = listing_plan(config, scopes);
        listings_state_no_governance(plan, server, at);
        if let Ok(models) = listing_outcome(plan, server, at).0 {
            the_first_supporting_is_the_first(models, "completion"@);
        }
    }
    let (named, after) = match config.default_model {
        Some(_) => (config, at),
        None => {
            let (found, after) = resolve_outcome(config, scopes, "urn:llm:models"@, server, at);
            (learned(config, found), after)
        },
    };
    assert(fills_gaps(config, named));
    if let Some(call) = probe(named, scopes) {
        if let Some(content) = good_json(server(after, call)) {
            servers_state_no_governance(content);
        }
    }
}

proof fn completing_fills_gaps(
    registry: RegistryView,
    scopes: Option<Set<Seq<char>>>,
    server: Server,
    at: nat,
    place: int,
)
    requires
        0 <= place,
    ensures
        ({
            let after = effective_outcome(registry, scopes, server, at, place).0;
            &&& after.default == registry.default
            &&& after.providers.len() == registry.providers.len()
            &&& forall|i: int|
                0 <= i < registry.providers.len() ==> fills_gaps(
                    #[trigger] registry.providers[i],
                    after.providers[i],
                )
            &&& forall|i: int|
                0 <= i < place && i < registry.providers.len() ==> #[trigger] after.providers[i]
                    == registry.providers[i]
        }),
    decreases registry.providers.len() - place,
{
    if place < registry.providers.len() {
        let (config, next) = completed(registry.providers[place], scopes, server, at);
        let known = with_provider(registry, place, config);
        completing_one_fills_gaps(registry.providers[place], scopes, server, at);
        completing_fills_gaps(known, scopes, server, next, place + 1);
        let after = effective_outcome(registry, scopes, server, at, place).0;
        assert forall|i: int| 0 <= i < registry.providers.len() implies fills_gaps(
            #[trigger] registry.providers[i],
            after.providers[i],
        ) by {
            assert(fills_gaps(known.providers[i], after.providers[i]));
        }
        assert forall|i: int| 0 <= i < place implies #[trigger] after.providers[i]
            == registry.providers[i] by {
            assert(after.providers[i] == known.providers[i]);
        }
    }
}

/// Discovery fills gaps and nothing else, whatever the servers answer: the same providers
/// in the same order under the same default, no declared value changed, and no cost,
/// vendor or load shape but the declared ones.
pub proof fn discovery_fills_gaps_only(
    registry: RegistryView,
    scopes: Option<Set<Seq<char>>>,
    server: Server,
    at: nat,
)
    ensures
        ({
            let after = effective_outcome(registry, scopes, server, at, 0).0;
            &&& after.default == registry.default
            &&& after.providers.len() == registry.providers.len()
            &&& forall|i: int|
                0 <= i < registry.providers.len() ==> fills_gaps(
                    #[trigger] registry.providers[i],
                    after.providers[i],
                )
        }),
{
    completing_fills_gaps(registry, scopes, server, at, 0);
}

/// A provider that declares no vendor fails every vendor exclusion, whatever its server
/// says about itself: a self-reported owner launders nothing.
pub proof fn a_server_cannot_vouch_for_its_vendor(
    registry: RegistryView,
    scopes: Option<Set<Seq<char>>>,
    server: Server,
    at: nat,
    place: int,
    name: Seq<char>,
)
    requires
        0 <= place < registry.providers.len(),
        registry.providers[place].caps.vendor is None,
    ensures
        !meets(
            effective_outcome(registry, scopes, server, at, 0).0.providers[place],
            NeedView::VendorNot(name),
        ),
{
    discovery_fills_gaps_only(registry, scopes, server, at);
    assert(fills_gaps(
        registry.providers[place],
        effective_outcome(registry, scopes, server, at, 0).0.providers[place],
    ));
}

/// A registry whose providers all pin a model, none of them a declared Ollama, is complete
/// as it is: no request is made.
pub proof fn a_pinned_registry_asks_nothing(
    registry: RegistryView,
    scopes: Option<Set<Seq<char>>>,
    place: int,
)
    requires
        0 <= place,
        forall|i: int|
            0 <= i < registry.providers.len() ==> {
                &&& (#[trigger] registry.providers[i]).default_model is Some
                &&& registry.providers[i].caps.vendor != Some("ollama"@)
            },
    ensures
        effective_from(registry, scopes, place) == EffectiveStepView::Done(registry),
    decreases registry.providers.len() - place,
{
    if place < registry.providers.len() {
        a_pinned_registry_asks_nothing(registry, scopes, place + 1);
        assert(registry.providers[place].default_model is Some);
    }
}

/// A capability that allows no host discovers nothing: no request is made, and the
/// declared profiles stand.
pub proof fn a_denied_capability_discovers_nothing(
    registry: RegistryView,
    scopes: Option<Set<Seq<char>>>,
    place: int,
)
    requires
        0 <= place,
        forall|host: Seq<char>, path: Seq<char>| !#[trigger] net_allowed(scopes, host, path),
    ensures
        effective_from(registry, scopes, place) == EffectiveStepView::Done(registry),
    decreases registry.providers.len() - place,
{
    if place < registry.providers.len() {
        let config = registry.providers[place];
        a_denied_capability_discovers_nothing(registry, scopes, place + 1);
        if config.default_model is None {
            let start = resolve_start(config, scopes, "urn:llm:models"@);
            assert(start is Done);
            let found = start->Done_0;
            assert(found is Err);
            assert(with_provider(registry, place, config).providers =~= registry.providers);
            assert(with_provider(registry, place, learned(config, found)) == registry);
        }
    }
}

/// Whether a state is about a provider that is there, under this capability.
pub open spec fn is_about(state: EffectiveStateView, scopes: Option<Set<Seq<char>>>) -> bool {
    match state {
        EffectiveStateView::Listing { registry, place, listing } => {
            &&& 0 <= place < registry.providers.len()
            &&& lists_provider(registry.providers[place], scopes, listing)
        },
        EffectiveStateView::Showing { registry, place } => 0 <= place < registry.providers.len(),
    }
}

/// Whether what a step sends goes to a URL of the provider's own that the capability
/// allows, and carries a body only to a declared Ollama.
pub open spec fn asks_its_provider(
    step: EffectiveStepView,
    scopes: Option<Set<Seq<char>>>,
) -> bool {
    match step {
        EffectiveStepView::Send { call, state } => {
            let config = match state {
                EffectiveStateView::Listing { registry, place, .. } => registry.providers[place],
                EffectiveStateView::Showing { registry, place } => registry.providers[place],
            };
            &&& is_about(state, scopes)
            &&& listing_url(config, scopes, call.url)
            &&& call.method == Method::Get ==> call.body.len() == 0
            &&& call.method == Method::Post ==> config.caps.vendor == Some("ollama"@)
        },
        EffectiveStepView::Done(_) => true,
    }
}

proof fn steps_ask_their_provider(
    registry: RegistryView,
    scopes: Option<Set<Seq<char>>>,
    place: int,
)
    requires
        0 <= place,
    ensures
        asks_its_provider(effective_from(registry, scopes, place), scopes),
        asks_its_provider(probe_from(registry, scopes, place), scopes),
    decreases registry.providers.len() - place,
{
    if place < registry.providers.len() {
        let config = registry.providers[place];
        a_listing_keeps_to_its_provider(config, scopes);
        steps_ask_their_provider(registry, scopes, place + 1);
        if let ResolveStepView::Done(found) = resolve_start(config, scopes, "urn:llm:models"@) {
            let after = with_provider(registry, place, learned(config, found));
            steps_ask_their_provider(after, scopes, place + 1);
            assert(asks_its_provider(probe_from(after, scopes, place), scopes));
        }
    }
}

/// Discovery asks each server about its own provider only: every request goes to a URL of
/// that provider's own that the capability allows, and no vendor but a declared `ollama`
/// is sent a model's name.
pub proof fn discovery_asks_each_provider_itself(
    registry: RegistryView,
    scopes: Option<Set<Seq<char>>>,
    state: EffectiveStateView,
    reply: Result<HttpReplyView, Seq<char>>,
)
    requires
        is_about(state, scopes),
    ensures
        asks_its_provider(effective_from(registry, scopes, 0), scopes),
        asks_its_provider(effective_next(state, scopes, reply), scopes),
{
    steps_ask_their_provider(registry, scopes, 0);
    match state {
        EffectiveStateView::Listing { registry, place, listing } => {
            let config = registry.providers[place];
            a_listing_keeps_to_its_provider(config, scopes);
            assert(keeps_to_provider(config, scopes, listing_next(listing, reply)));
            if let ResolveStepView::Done(found) = resolve_next(
                config,
                "urn:llm:models"@,
                listing,
                reply,
            ) {
                steps_ask_their_provider(
                    with_provider(registry, place, learned(config, found)),
                    scopes,
                    place,
                );
            }
        },
        EffectiveStateView::Showing { registry, place } => {
            steps_ask_their_provider(
                with_provider(registry, place, informed(registry.providers[place], reply)),
                scopes,
                place + 1,
            );
        },
    }
}

/// The default of a registry plays no part in completing its providers.
pub proof fn discovery_ignores_the_default(
    left: RegistryView,
    right: RegistryView,
    scopes: Option<Set<Seq<char>>>,
    server: Server,
    at: nat,
    place: int,
)
    requires
        0 <= place,
        left.providers == right.providers,
    ensures
        effective_outcome(left, scopes, server, at, place).0.providers == effective_outcome(
            right,
            scopes,
            server,
            at,
            place,
        ).0.providers,
        effective_outcome(left, scopes, server, at, place).1 == effective_outcome(
            right,
            scopes,
            server,
            at,
            place,
        ).1,
    decreases left.providers.len() - place,
{
    if place < left.providers.len() {
        let (config, after) = completed(left.providers[place], scopes, server, at);
        discovery_ignores_the_default(
            with_provider(left, place, config),
            with_provider(right, place, config),
            scopes,
            server,
            after,
            place + 1,
        );
    }
}

/// Whether a provider is one that its server named a model for: a pinned model stays; else
/// it is the first that can chat of what the server lists, with what is advertised of it
/// below what is declared; and where there is none the provider stays as it was.
pub open spec fn is_named(
    named: OpenAiConfigView,
    before: OpenAiConfigView,
    listing: Result<Seq<InstalledModelView>, ErrorView>,
) -> bool {
    let lists_one = listing matches Ok(models) && exists|place: int| #[trigger]
        is_first_to_chat(models, place);
    if before.default_model is Some || !lists_one {
        named == before
    } else {
        listing matches Ok(models) && exists|place: int| #[trigger]
            is_first_to_chat(models, place) && named == (OpenAiConfigView {
                default_model: Some(models[place].model),
                caps: match models[place].advertised {
                    Some(caps) => declared_wins(before.caps, caps),
                    None => before.caps,
                },
                ..before
            })
    }
}

/// Whether a provider is another with what Ollama shows of its model, asked about at `at`,
/// below what is declared: made only of a provider that declares the vendor `ollama` and has
/// a model, where the capability allows it and the reply brings JSON.
pub open spec fn is_informed(
    after: OpenAiConfigView,
    named: OpenAiConfigView,
    scopes: Option<Set<Seq<char>>>,
    server: Server,
    at: nat,
) -> bool {
    match (reach_native(scopes, named.base_url, "show"@), named.default_model) {
        (Some(url), Some(model)) if named.caps.vendor == Some("ollama"@) => exists|
            call: HttpCallView,
        | #[trigger]
            asks_about(call, url, model) && after == (match content_of(server(at, call)) {
                Some(content) => OpenAiConfigView {
                    caps: declared_wins(named.caps, shown_caps(content)),
                    ..named
                },
                None => named,
            }),
        _ => after == named,
    }
}

/// Whether a provider is another as its server completes it, asked first at `at`.
pub open spec fn is_completed(
    after: OpenAiConfigView,
    before: OpenAiConfigView,
    scopes: Option<Set<Seq<char>>>,
    server: Server,
    at: nat,
) -> bool {
    let (listing, behind) = listing_run(
        listing_start(listing_plan(before, scopes)),
        server,
        at,
    );
    exists|named: OpenAiConfigView| #[trigger]
        is_named(named, before, listing) && is_informed(
            after,
            named,
            scopes,
            server,
            if before.default_model is Some {
                at
            } else {
                behind
            },
        )
}

proof fn completing_one_completes_it(
    config: OpenAiConfigView,
    scopes: Option<Set<Seq<char>>>,
    server: Server,
    at: nat,
)
    ensures
        is_completed(completed(config, scopes, server, at).0, config, scopes, server, at),
{
    let plan = listing_plan(config, scopes);
    a_listing_comes_to_its_outcome(plan, server, at);
    let (listing, behind) = listing_run(listing_start(plan), server, at);
    let (named, after) = match config.default_model {
        Some(_) => (config, at),
        None => {
            let (found, after) = resolve_outcome(config, scopes, "urn:llm:models"@, server, at);
            (learned(config, found), after)
        },
    };
    if let Ok(models) = listing {
        the_first_supporting_is_the_first(models, "completion"@);
        if let Some(place) = first_supporting(models, "completion"@) {
            assert(is_first_to_chat(models, place));
        }
    }
    assert(is_named(named, config, listing));
    if let Some(call) = probe(named, scopes) {
        let url = reach_native(scopes, named.base_url, "show"@)->0;
        let model = named.default_model->0;
        calls_are_what_they_say(url, model);
        assert(asks_about(call, url, model));
    }
}

proof fn completing_completes_each(
    registry: RegistryView,
    scopes: Option<Set<Seq<char>>>,
    server: Server,
    at: nat,
    place: int,
    other: int,
)
    requires
        0 <= place <= other < registry.providers.len(),
    ensures
        ({
            let after = effective_outcome(registry, scopes, server, at, place).0;
            exists|from: nat| #[trigger]
                is_completed(
                    after.providers[other],
                    registry.providers[other],
                    scopes,
                    server,
                    from,
                )
        }),
    decreases registry.providers.len() - place,
{
    let (config, next) = completed(registry.providers[place], scopes, server, at);
    let known = with_provider(registry, place, config);
    let after = effective_outcome(registry, scopes, server, at, place).0;
    completing_fills_gaps(known, scopes, server, next, place + 1);
    if other == place {
        completing_one_completes_it(registry.providers[place], scopes, server, at);
        assert(after.providers[place] == known.providers[place]);
        assert(is_completed(
            after.providers[other],
            registry.providers[other],
            scopes,
            server,
            at,
        ));
    } else {
        completing_completes_each(known, scopes, server, next, place + 1, other);
        assert(known.providers[other] == registry.providers[other]);
    }
}

/// The completed registry is the declared one with each provider as its own server completes
/// it: a model where none is pinned, and the traits that its server states where none are
/// declared.
pub proof fn every_server_completes_its_provider(
    registry: &Registry,
    capability: &ikigai_core::Capability,
    step: EffectiveStep,
    server: Server,
    at: nat,
    place: int,
)
    requires
        call_ensures(effective_registry, (registry, capability), step),
        0 <= place < registry@.providers.len(),
    ensures
        ({
            let scopes = scopes_of(*capability);
            let after = effective_run(step@, scopes, server, at).0;
            &&& after.default == registry@.default
            &&& after.providers.len() == registry@.providers.len()
            &&& exists|from: nat| #[trigger]
                is_completed(
                    after.providers[place],
                    registry@.providers[place],
                    scopes,
                    server,
                    from,
                )
        }),
{
    let scopes = scopes_of(*capability);
    completing_comes_to_its_outcome(registry@, scopes, server, at);
    discovery_fills_gaps_only(registry@, scopes, server, at);
    completing_completes_each(registry@, scopes, server, at, 0, place);
}

/// A reply carries completing a registry, and looking for a model, on: from where they stood,
/// with what the server answered, they come to the end they were coming to.
pub proof fn a_reply_carries_discovery_on(
    capability: &ikigai_core::Capability,
    call: HttpCallView,
    state: EffectiveState,
    config: &OpenAiConfig,
    who: &str,
    listing: ListingState,
    reply: Result<HttpReply, String>,
    next: EffectiveStep,
    resolved: ResolveStep,
    server: Server,
    at: nat,
)
    requires
        call_ensures(resume_effective, (state, capability, reply), next),
        call_ensures(resume_resolve, (config, who, listing, reply), resolved),
        server(at, call) == reply_view(reply),
    ensures
        effective_run(
            EffectiveStepView::Send { call, state: state@ },
            scopes_of(*capability),
            server,
            at,
        ) == effective_run(next@, scopes_of(*capability), server, at + 1),
        resolve_run(
            ResolveStepView::Send { call, state: listing@ },
            config@,
            who@,
            server,
            at,
        ) == resolve_run(resolved@, config@, who@, server, at + 1),
{
}

/// The model a provider serves, whoever asks: the pinned one at once, with nothing said of
/// it; else the first that can chat of what the server lists, with what is advertised of it,
/// or an error that says who asked and which server.
pub proof fn a_provider_serves_its_first_chat_model(
    config: &OpenAiConfig,
    capability: &ikigai_core::Capability,
    who: &str,
    step: ResolveStep,
    server: Server,
    at: nat,
)
    requires
        call_ensures(resolve_model, (config, capability, who), step),
    ensures
        ({
            let plan = listing_plan(config@, scopes_of(*capability));
            let end = resolve_run(step@, config@, who@, server, at).0;
            match config@.default_model {
                Some(model) => step@ == ResolveStepView::Done(Ok((model, None))),
                None => match (listing_run(listing_start(plan), server, at).0, end) {
                    (Ok(models), Ok(found)) => exists|place: int| #[trigger]
                        is_first_to_chat(models, place) && found == (
                            models[place].model,
                            models[place].advertised,
                        ),
                    (Ok(models), Err(_)) => forall|place: int|
                        !#[trigger] is_first_to_chat(models, place),
                    (Err(_), end) => end is Err,
                },
            }
        }),
        ({
            let end = resolve_run(step@, config@, who@, server, at).0;
            end matches Err(error) ==> (error matches ErrorView::Endpoint(message) && (who@
                + ": could not discover a model at `"@ + config@.base_url + "`"@).is_prefix_of(
                message,
            ))
        }),
{
    let scopes = scopes_of(*capability);
    let plan = listing_plan(config@, scopes);
    resolving_comes_to_its_outcome(config@, scopes, who@, server, at);
    a_listing_comes_to_its_outcome(plan, server, at);
    let listing = listing_run(listing_start(plan), server, at).0;
    a_failed_discovery_names_the_server(config@, who@, listing);
    if let Ok(models) = listing {
        the_first_supporting_is_the_first(models, "completion"@);
        if let Some(place) = first_supporting(models, "completion"@) {
            assert(is_first_to_chat(models, place));
        }
    }
    if let Err(ErrorView::Endpoint(message)) = resolve_run(
        step@,
        config@,
        who@,
        server,
        at,
    ).0 {
        let start = who@ + ": could not discover a model at `"@ + config@.base_url + "`"@;
        let whole = undiscovered(who@, config@.base_url);
        reveal_strlit("`");
        reveal_strlit("` — this provider declares no `model`, and ");
        assert(start.is_prefix_of(whole));
        assert(whole.is_prefix_of(message));
        assert(start =~= message.take(start.len() as int));
    }
}

} // verus!
