//! Which backend answers: `urn:llm:ask`, which routes a request to one, and
//! `urn:llm:select`, which says which one that would be.

use crate::annotate::{backend_iri, backend_of};
use crate::answer::{
    answer_view, asks_form, json_answer, plain, structured, text_answer, wants, Answer,
    AnswerView,
};
use crate::config::{
    any_discovering, discovers, OpenAiConfig, OpenAiConfigView, Registry, RegistryView,
};
use crate::discover::{
    completing_comes_to_its_outcome, discovery_fills_gaps_only, discovery_goes_on,
    discovery_ignores_the_default,
    effective_from, effective_next, effective_outcome, effective_registry, effective_run,
    fills_gaps, looking_left, looking_stage, providers_left, resume_effective, EffectiveState,
    EffectiveStateView, EffectiveStep, EffectiveStepView,
};
use crate::error::{Error, ErrorView};
use crate::json::{
    json_bytes, json_of, json_opt_natural, json_opt_text, json_text, json_write,
    natural_or_null, text_or_null, JsonView, Members,
};
use crate::listing::Server;
use crate::needs::{
    a_term_asks_what_it_says, an_expression_asks_for_each_of_its_terms, holds_term, is_bare,
    need_in, needs_in, parse_needs, tiers, NeedView,
};
use crate::net::{reply_view, scopes_of, HttpCall, HttpCallView, HttpReply};
use crate::select::{
    an_excluded_vendor_never_wins, fits, is_tier, no_match, no_match_error, select,
    the_policy_picks_what_nothing_beats, the_winner_declares_what_is_asked,
    the_winner_is_the_cheapest_that_fits, winner, winning_place, wins,
};
use crate::text::{decimal, written_in_digits};
use vstd::prelude::*;
use vstd::string::*;
use vstd::utf8::encode_utf8;

verus! {

// ---- choosing ----------------------------------------------------------------------

/// The provider that an expression selects from a registry, or why there is none, on
/// behalf of `who`.
pub open spec fn chosen(
    registry: RegistryView,
    needs: Seq<char>,
    who: Seq<char>,
) -> Result<OpenAiConfigView, ErrorView> {
    match needs_in(needs) {
        Err(error) => Err(error),
        Ok(list) => match winner(registry, list) {
            Some(provider) => Ok(provider),
            None => Err(no_match(who, needs, registry)),
        },
    }
}

/// The provider that an expression selects from a registry, or why there is none, on
/// behalf of `who`.
pub fn choose_provider<'a>(registry: &'a Registry, needs: &str, who: &str) -> (provider: Result<
    &'a OpenAiConfig,
    Error,
>)
    ensures
        match provider {
            Ok(provider) => chosen(registry@, needs@, who@) == Ok::<OpenAiConfigView, ErrorView>(
                provider@,
            ),
            Err(error) => chosen(registry@, needs@, who@) == Err::<OpenAiConfigView, ErrorView>(
                error@,
            ),
        },
{
    match parse_needs(needs) {
        Err(error) => Err(error),
        Ok(list) => match select(registry, &list) {
            Some(provider) => Ok(provider),
            None => Err(no_match_error(who, needs, registry)),
        },
    }
}

// ---- urn:llm:ask -------------------------------------------------------------------

/// The parser's message about a text that is no absolute IRI.
pub uninterp spec fn iri_fault(text: Seq<char>) -> Option<Seq<char>>;

/// `ikigai_core::Iri::parse`, by its failure: none of a text that is an absolute IRI, and
/// else the parser's message, a function of the text.
#[verifier::external_body]
pub(crate) fn iri_error(text: &str) -> (fault: Option<String>)
    ensures
        fault.deep_view() == iri_fault(text@),
{
    ikigai_core::Iri::parse(text).err().map(|error| error.to_string())
}

/// The IRI of the backend of that name, or why there is none.
pub open spec fn target(provider: Seq<char>) -> Result<Seq<char>, ErrorView> {
    match iri_fault(backend_iri(provider)) {
        None => Ok(backend_iri(provider)),
        Some(message) => Err(
            ErrorView::Endpoint("urn:llm:ask: bad provider `"@ + provider + "`: "@ + message),
        ),
    }
}

/// A target over sequences.
pub open spec fn target_view(iri: Result<String, Error>) -> Result<Seq<char>, ErrorView> {
    match iri {
        Ok(iri) => Ok(iri@),
        Err(error) => Err(error@),
    }
}

/// The IRI of the backend of that name, or why there is none.
pub fn backend_target(provider: &str) -> (iri: Result<String, Error>)
    ensures
        target_view(iri) == target(provider@),
{
    let iri = backend_of(provider);
    match iri_error(iri.as_str()) {
        None => Ok(iri),
        Some(message) => {
            let mut text = "urn:llm:ask: bad provider `".to_owned();
            text.append(provider);
            text.append("`: ");
            text.append(message.as_str());
            Err(Error::Endpoint(text))
        },
    }
}

/// Where requirements route a request, given the completed registry.
pub open spec fn routed(effective: RegistryView, needs: Seq<char>) -> Result<
    Seq<char>,
    ErrorView,
> {
    match chosen(effective, needs, "urn:llm:ask"@) {
        Ok(provider) => target(provider.provider),
        Err(error) => Err(error),
    }
}

/// What routing waits for.
#[derive(Debug)]
pub struct RouteState {
    pub needs: String,
    pub discovery: EffectiveState,
}

/// [`RouteState`] over sequences.
#[verifier::ext_equal]
pub struct RouteStateView {
    pub needs: Seq<char>,
    pub discovery: EffectiveStateView,
}

impl View for RouteState {
    type V = RouteStateView;

    open spec fn view(&self) -> RouteStateView {
        RouteStateView { needs: self.needs@, discovery: self.discovery@ }
    }
}

/// What routing wants next.
#[derive(Debug)]
pub enum RouteStep {
    /// Send the request, and hand back what came of it.
    Send { call: HttpCall, state: RouteState },
    /// The IRI to ask in place of `urn:llm:ask`, with every argument unchanged.
    Done(Result<String, Error>),
}

/// [`RouteStep`] over sequences.
#[verifier::ext_equal]
pub enum RouteStepView {
    Send { call: HttpCallView, state: RouteStateView },
    Done(Result<Seq<char>, ErrorView>),
}

impl View for RouteStep {
    type V = RouteStepView;

    open spec fn view(&self) -> RouteStepView {
        match self {
            RouteStep::Send { call, state } => RouteStepView::Send { call: call@, state: state@ },
            RouteStep::Done(iri) => RouteStepView::Done(target_view(*iri)),
        }
    }
}

/// A step of completing the registry as one of routing by requirements.
pub open spec fn route_by(needs: Seq<char>, step: EffectiveStepView) -> RouteStepView {
    match step {
        EffectiveStepView::Send { call, state } => RouteStepView::Send {
            call,
            state: RouteStateView { needs, discovery: state },
        },
        EffectiveStepView::Done(effective) => RouteStepView::Done(routed(effective, needs)),
    }
}

/// The first step of routing: an explicit provider wins, then requirements, then the
/// registry's default.
pub open spec fn route_start(
    registry: RegistryView,
    scopes: Option<Set<Seq<char>>>,
    provider: Option<Seq<char>>,
    needs: Option<Seq<char>>,
) -> RouteStepView {
    match provider {
        Some(name) => RouteStepView::Done(target(name)),
        None => match needs {
            Some(needs) => route_by(needs, effective_from(registry, scopes, 0)),
            None => RouteStepView::Done(target(registry.default)),
        },
    }
}

/// `urn:llm:ask`: the front grammar, which picks a backend and hands the request on to
/// `urn:llm:<provider>:ask`.
#[derive(Debug)]
pub struct AskFacade {
    pub registry: Registry,
}

impl View for AskFacade {
    type V = RegistryView;

    open spec fn view(&self) -> RegistryView {
        self.registry@
    }
}

fn route_discovered(needs: String, step: EffectiveStep) -> (next: RouteStep)
    ensures
        next@ == route_by(needs@, step@),
{
    match step {
        EffectiveStep::Send { call, state } => RouteStep::Send {
            call,
            state: RouteState { needs, discovery: state },
        },
        EffectiveStep::Done(effective) => match choose_provider(
            &effective,
            needs.as_str(),
            "urn:llm:ask",
        ) {
            Ok(provider) => RouteStep::Done(backend_target(provider.provider.as_str())),
            Err(error) => RouteStep::Done(Err(error)),
        },
    }
}

impl AskFacade {
    /// A facade over `registry`.
    pub fn new(registry: Registry) -> (facade: AskFacade)
        ensures
            facade@ == registry@,
    {
        AskFacade { registry }
    }

    /// Begin to route a request: by an explicit provider, else by requirements over the
    /// completed profiles, else to the default.
    pub fn route(
        &self,
        capability: &ikigai_core::Capability,
        provider: Option<&str>,
        needs: Option<&str>,
    ) -> (step: RouteStep)
        ensures
            step@ == route_start(
                self@,
                scopes_of(*capability),
                provider.deep_view(),
                needs.deep_view(),
            ),
    {
        match provider {
            Some(name) => RouteStep::Done(backend_target(name)),
            None => match needs {
                Some(needs) => route_discovered(
                    needs.to_owned(),
                    effective_registry(&self.registry, capability),
                ),
                None => RouteStep::Done(backend_target(self.registry.default.as_str())),
            },
        }
    }

    /// Go on routing, given what came back for the last request.
    pub fn resume(
        &self,
        capability: &ikigai_core::Capability,
        state: RouteState,
        reply: Result<HttpReply, String>,
    ) -> (step: RouteStep)
        ensures
            step@ == route_by(
                state@.needs,
                effective_next(state@.discovery, scopes_of(*capability), reply_view(reply)),
            ),
    {
        route_discovered(state.needs, resume_effective(state.discovery, capability, reply))
    }
}

// ---- urn:llm:select ----------------------------------------------------------------

/// The detail of a selected provider.
pub open spec fn selection_detail(provider: OpenAiConfigView) -> JsonView {
    JsonView::Object(
        Map::<Seq<char>, JsonView>::empty().insert(
            "backend"@,
            JsonView::Text(backend_iri(provider.provider)),
        ).insert("provider"@, JsonView::Text(provider.provider)).insert(
            "model"@,
            text_or_null(provider.default_model),
        ).insert("cost"@, text_or_null(provider.caps.cost)).insert(
            "vendor"@,
            text_or_null(provider.caps.vendor),
        ).insert("context"@, natural_or_null(provider.caps.context)),
    )
}

/// What a selection is answered by, given the completed registry: the backend's IRI, or the
/// detail where the form asks for JSON.
pub open spec fn selection_answer(
    effective: RegistryView,
    needs: Seq<char>,
    form: Option<Seq<char>>,
    cacheable: bool,
) -> Result<AnswerView, ErrorView> {
    match chosen(effective, needs, "urn:llm:select"@) {
        Err(error) => Err(error),
        Ok(provider) => if asks_form(form, "json"@) {
            Ok(json_answer(json_bytes(selection_detail(provider)), cacheable))
        } else {
            Ok(text_answer(backend_iri(provider.provider), cacheable))
        },
    }
}

/// What selecting waits for.
#[derive(Debug)]
pub struct SelectState {
    pub needs: String,
    pub form: Option<String>,
    pub discovery: EffectiveState,
}

/// [`SelectState`] over sequences.
#[verifier::ext_equal]
pub struct SelectStateView {
    pub needs: Seq<char>,
    pub form: Option<Seq<char>>,
    pub discovery: EffectiveStateView,
}

impl View for SelectState {
    type V = SelectStateView;

    open spec fn view(&self) -> SelectStateView {
        SelectStateView {
            needs: self.needs@,
            form: self.form.deep_view(),
            discovery: self.discovery@,
        }
    }
}

/// What selecting wants next.
#[derive(Debug)]
pub enum SelectStep {
    /// Send the request, and hand back what came of it.
    Send { call: HttpCall, state: SelectState },
    /// The selected backend, or why there is none.
    Done(Result<Answer, Error>),
}

/// [`SelectStep`] over sequences.
#[verifier::ext_equal]
pub enum SelectStepView {
    Send { call: HttpCallView, state: SelectStateView },
    Done(Result<AnswerView, ErrorView>),
}

impl View for SelectStep {
    type V = SelectStepView;

    open spec fn view(&self) -> SelectStepView {
        match self {
            SelectStep::Send { call, state } => SelectStepView::Send {
                call: call@,
                state: state@,
            },
            SelectStep::Done(answer) => SelectStepView::Done(answer_view(*answer)),
        }
    }
}

/// A step of completing the registry as one of selecting from it. The answer is cacheable
/// while every provider pins a model.
pub open spec fn select_by(
    registry: RegistryView,
    needs: Seq<char>,
    form: Option<Seq<char>>,
    step: EffectiveStepView,
) -> SelectStepView {
    match step {
        EffectiveStepView::Send { call, state } => SelectStepView::Send {
            call,
            state: SelectStateView { needs, form, discovery: state },
        },
        EffectiveStepView::Done(effective) => SelectStepView::Done(
            selection_answer(effective, needs, form, !discovers(registry)),
        ),
    }
}

/// `urn:llm:select`: deterministic selection by capability.
#[derive(Debug)]
pub struct SelectEndpoint {
    pub registry: Registry,
}

impl View for SelectEndpoint {
    type V = RegistryView;

    open spec fn view(&self) -> RegistryView {
        self.registry@
    }
}

fn write_detail(provider: &OpenAiConfig) -> (value: serde_json::Value)
    ensures
        json_of(value) == selection_detail(provider@),
{
    let backend = backend_of(provider.provider.as_str());
    let mut members = Members::new();
    members.put("backend", json_text(backend.as_str()));
    members.put("provider", json_text(provider.provider.as_str()));
    members.put("model", json_opt_text(&provider.default_model));
    members.put("cost", json_opt_text(&provider.caps.cost));
    members.put("vendor", json_opt_text(&provider.caps.vendor));
    members.put("context", json_opt_natural(provider.caps.context));
    members.object()
}

impl SelectEndpoint {
    /// The resource over `registry`.
    pub fn new(registry: Registry) -> (endpoint: SelectEndpoint)
        ensures
            endpoint@ == registry@,
    {
        SelectEndpoint { registry }
    }

    /// What a selection is answered by, given the completed registry.
    pub fn answer(&self, effective: &Registry, needs: &str, form: &Option<String>) -> (answer:
        Result<Answer, Error>)
        ensures
            answer_view(answer) == selection_answer(
                effective@,
                needs@,
                form.deep_view(),
                !discovers(self@),
            ),
    {
        match choose_provider(effective, needs, "urn:llm:select") {
            Err(error) => Err(error),
            Ok(provider) => {
                let cacheable = !any_discovering(&self.registry);
                if wants(form, "json") {
                    Ok(structured(json_write(&write_detail(provider)), cacheable))
                } else {
                    let backend = backend_of(provider.provider.as_str());
                    Ok(plain(backend.as_str(), cacheable))
                }
            },
        }
    }

    fn discovered(&self, needs: String, form: Option<String>, step: EffectiveStep) -> (next:
        SelectStep)
        ensures
            next@ == select_by(self@, needs@, form.deep_view(), step@),
    {
        match step {
            EffectiveStep::Send { call, state } => SelectStep::Send {
                call,
                state: SelectState { needs, form, discovery: state },
            },
            EffectiveStep::Done(effective) => SelectStep::Done(
                self.answer(&effective, needs.as_str(), &form),
            ),
        }
    }

    /// Begin to select the backend that meets the requirements.
    pub fn select(
        &self,
        capability: &ikigai_core::Capability,
        needs: String,
        form: Option<String>,
    ) -> (step: SelectStep)
        ensures
            step@ == select_by(
                self@,
                needs@,
                form.deep_view(),
                effective_from(self@, scopes_of(*capability), 0),
            ),
    {
        self.discovered(needs, form, effective_registry(&self.registry, capability))
    }

    /// Go on selecting, given what came back for the last request.
    pub fn resume(
        &self,
        capability: &ikigai_core::Capability,
        state: SelectState,
        reply: Result<HttpReply, String>,
    ) -> (step: SelectStep)
        ensures
            step@ == select_by(
                self@,
                state@.needs,
                state@.form,
                effective_next(state@.discovery, scopes_of(*capability), reply_view(reply)),
            ),
    {
        self.discovered(
            state.needs,
            state.form,
            resume_effective(state.discovery, capability, reply),
        )
    }
}

// ---- whole conversations -----------------------------------------------------------

/// The step of completing the registry that a step of routing stands for.
pub open spec fn route_discovery(step: RouteStepView) -> EffectiveStepView {
    match step {
        RouteStepView::Send { call, state } => EffectiveStepView::Send {
            call,
            state: state.discovery,
        },
        RouteStepView::Done(_) => EffectiveStepView::Done(
            RegistryView { default: Seq::empty(), providers: Seq::empty() },
        ),
    }
}

/// Where routing ends when it is carried through with the servers, its next request being
/// the one at `at`.
pub open spec fn route_run(
    step: RouteStepView,
    scopes: Option<Set<Seq<char>>>,
    server: Server,
    at: nat,
) -> Result<Seq<char>, ErrorView>
    decreases
            providers_left(route_discovery(step)),
            looking_stage(route_discovery(step)),
            looking_left(route_discovery(step)),
    via route_run_ends
{
    match step {
        RouteStepView::Done(iri) => iri,
        RouteStepView::Send { call, state } => route_run(
            route_by(state.needs, effective_next(state.discovery, scopes, server(at, call))),
            scopes,
            server,
            at + 1,
        ),
    }
}

#[via_fn]
proof fn route_run_ends(
    step: RouteStepView,
    scopes: Option<Set<Seq<char>>>,
    server: Server,
    at: nat,
) {
    if let RouteStepView::Send { call, state } = step {
        discovery_goes_on(call, state.discovery, scopes, server(at, call));
    }
}

proof fn routing_follows_discovery(
    step: EffectiveStepView,
    needs: Seq<char>,
    scopes: Option<Set<Seq<char>>>,
    server: Server,
    at: nat,
)
    ensures
        route_run(route_by(needs, step), scopes, server, at) == routed(
            effective_run(step, scopes, server, at).0,
            needs,
        ),
    decreases providers_left(step), looking_stage(step), looking_left(step),
{
    if let EffectiveStepView::Send { call, state } = step {
        discovery_goes_on(call, state, scopes, server(at, call));
        routing_follows_discovery(
            effective_next(state, scopes, server(at, call)),
            needs,
            scopes,
            server,
            at + 1,
        );
    }
}

/// Routing precedence, carried through with any servers: an explicit provider wins, then the
/// requirements over the completed registry decide, then the registry's default.
pub proof fn routing_comes_to_its_outcome(
    registry: RegistryView,
    scopes: Option<Set<Seq<char>>>,
    provider: Option<Seq<char>>,
    needs: Option<Seq<char>>,
    server: Server,
    at: nat,
)
    ensures
        route_run(route_start(registry, scopes, provider, needs), scopes, server, at) == (
        match (provider, needs) {
            (Some(name), _) => target(name),
            (None, Some(needs)) => routed(
                effective_outcome(registry, scopes, server, at, 0).0,
                needs,
            ),
            (None, None) => target(registry.default),
        }),
{
    if let Some(needs) = needs {
        completing_comes_to_its_outcome(registry, scopes, server, at);
        routing_follows_discovery(
            effective_from(registry, scopes, 0),
            needs,
            scopes,
            server,
            at,
        );
    }
}

/// The step of completing the registry that a step of selecting stands for.
pub open spec fn select_discovery(step: SelectStepView) -> EffectiveStepView {
    match step {
        SelectStepView::Send { call, state } => EffectiveStepView::Send {
            call,
            state: state.discovery,
        },
        SelectStepView::Done(_) => EffectiveStepView::Done(
            RegistryView { default: Seq::empty(), providers: Seq::empty() },
        ),
    }
}

/// Where selecting ends when it is carried through with the servers, its next request being
/// the one at `at`.
pub open spec fn select_run(
    step: SelectStepView,
    registry: RegistryView,
    scopes: Option<Set<Seq<char>>>,
    server: Server,
    at: nat,
) -> Result<AnswerView, ErrorView>
    decreases
            providers_left(select_discovery(step)),
            looking_stage(select_discovery(step)),
            looking_left(select_discovery(step)),
    via select_run_ends
{
    match step {
        SelectStepView::Done(answer) => answer,
        SelectStepView::Send { call, state } => select_run(
            select_by(
                registry,
                state.needs,
                state.form,
                effective_next(state.discovery, scopes, server(at, call)),
            ),
            registry,
            scopes,
            server,
            at + 1,
        ),
    }
}

#[via_fn]
proof fn select_run_ends(
    step: SelectStepView,
    registry: RegistryView,
    scopes: Option<Set<Seq<char>>>,
    server: Server,
    at: nat,
) {
    if let SelectStepView::Send { call, state } = step {
        discovery_goes_on(call, state.discovery, scopes, server(at, call));
    }
}

proof fn selecting_follows_discovery(
    step: EffectiveStepView,
    registry: RegistryView,
    needs: Seq<char>,
    form: Option<Seq<char>>,
    scopes: Option<Set<Seq<char>>>,
    server: Server,
    at: nat,
)
    ensures
        select_run(select_by(registry, needs, form, step), registry, scopes, server, at)
            == selection_answer(
            effective_run(step, scopes, server, at).0,
            needs,
            form,
            !discovers(registry),
        ),
    decreases providers_left(step), looking_stage(step), looking_left(step),
{
    if let EffectiveStepView::Send { call, state } = step {
        discovery_goes_on(call, state, scopes, server(at, call));
        selecting_follows_discovery(
            effective_next(state, scopes, server(at, call)),
            registry,
            needs,
            form,
            scopes,
            server,
            at + 1,
        );
    }
}

/// Carried through with any servers, selecting ends, and answers with what the requirements
/// select from the completed registry; cacheable if and only if every provider pins a
/// model.
pub proof fn selecting_comes_to_its_outcome(
    registry: RegistryView,
    needs: Seq<char>,
    form: Option<Seq<char>>,
    scopes: Option<Set<Seq<char>>>,
    server: Server,
    at: nat,
)
    ensures
        select_run(
            select_by(registry, needs, form, effective_from(registry, scopes, 0)),
            registry,
            scopes,
            server,
            at,
        ) == selection_answer(
            effective_outcome(registry, scopes, server, at, 0).0,
            needs,
            form,
            !discovers(registry),
        ),
        selection_answer(
            effective_outcome(registry, scopes, server, at, 0).0,
            needs,
            form,
            !discovers(registry),
        ) matches Ok(answer) ==> answer.cacheable == !discovers(registry),
{
    completing_comes_to_its_outcome(registry, scopes, server, at);
    selecting_follows_discovery(
        effective_from(registry, scopes, 0),
        registry,
        needs,
        form,
        scopes,
        server,
        at,
    );
}

// ---- what routing promises ---------------------------------------------------------

/// A request that excludes a vendor is never routed to it, nor to a provider that declares no
/// vendor, whatever the servers say about themselves.
pub proof fn an_excluded_vendor_is_never_routed_to(
    registry: RegistryView,
    scopes: Option<Set<Seq<char>>>,
    needs: Seq<char>,
    vendor: Seq<char>,
    who: Seq<char>,
    server: Server,
    at: nat,
)
    requires
        needs_in(needs) matches Ok(list) && list.contains(NeedView::VendorNot(vendor)),
    ensures
        chosen(
            effective_outcome(registry, scopes, server, at, 0).0,
            needs,
            who,
        ) matches Ok(provider) ==> exists|place: int|
            #![trigger registry.providers[place]]
            0 <= place < registry.providers.len() && registry.providers[place].provider
                == provider.provider && registry.providers[place].caps.vendor is Some
                && registry.providers[place].caps.vendor != Some(vendor),
{
    let effective = effective_outcome(registry, scopes, server, at, 0).0;
    let list = needs_in(needs)->Ok_0;
    discovery_fills_gaps_only(registry, scopes, server, at);
    an_excluded_vendor_never_wins(effective, list, vendor);
    the_winner_is_the_cheapest_that_fits(effective.providers, list);
    if let Some(place) = winning_place(effective.providers, list) {
        assert(fills_gaps(registry.providers[place], effective.providers[place]));
    }
}

/// Whether an IRI is that of the backend of a name.
pub open spec fn names_backend(iri: Seq<char>, provider: Seq<char>) -> bool {
    iri == "urn:llm:"@ + provider + ":ask"@
}

/// A request that names a provider goes to the backend of that name, whatever it requires,
/// and one that names nothing to the default's; neither asks a server anything, and either
/// fails only where the name makes no IRI.
pub proof fn a_named_provider_is_where_it_goes(
    facade: &AskFacade,
    capability: &ikigai_core::Capability,
    name: &str,
    needs: Option<&str>,
    named: RouteStep,
    defaulted: RouteStep,
)
    requires
        call_ensures(AskFacade::route, (facade, capability, Some(name), needs), named),
        call_ensures(AskFacade::route, (facade, capability, None::<&str>, None::<&str>), defaulted),
    ensures
        match named@ {
            RouteStepView::Done(Ok(iri)) => names_backend(iri, name@),
            RouteStepView::Done(Err(_)) => iri_fault("urn:llm:"@ + name@ + ":ask"@) is Some,
            RouteStepView::Send { .. } => false,
        },
        match defaulted@ {
            RouteStepView::Done(Ok(iri)) => names_backend(iri, facade@.default),
            RouteStepView::Done(Err(_)) => iri_fault("urn:llm:"@ + facade@.default + ":ask"@)
                is Some,
            RouteStepView::Send { .. } => false,
        },
{
}

/// Whether an error says, on behalf of `who`, that nothing meets the requirements.
pub open spec fn says_none_fits(error: ErrorView, who: Seq<char>, needs: Seq<char>) -> bool {
    error matches ErrorView::Endpoint(message) && (who
        + ": no configured backend satisfies `"@ + needs).is_prefix_of(message)
}

proof fn none_fits_is_said(who: Seq<char>, needs: Seq<char>, registry: RegistryView)
    ensures
        says_none_fits(no_match(who, needs, registry), who, needs),
{
    let start = who + ": no configured backend satisfies `"@ + needs;
    let message = no_match(who, needs, registry)->Endpoint_0;
    assert(start =~= message.take(start.len() as int));
}

/// Where a request without a provider goes by its requirements: to the backend of the
/// provider that wins among all that meet them once the servers were asked; not at all only
/// where an expression states no requirement, none meets them, or the winner's name makes no
/// IRI.
pub proof fn requirements_route_to_the_winner(
    facade: &AskFacade,
    capability: &ikigai_core::Capability,
    needs: &str,
    step: RouteStep,
    server: Server,
    at: nat,
)
    requires
        call_ensures(AskFacade::route, (facade, capability, None::<&str>, Some(needs)), step),
    ensures
        ({
            let scopes = scopes_of(*capability);
            let providers = effective_run(
                effective_from(facade@, scopes, 0),
                scopes,
                server,
                at,
            ).0.providers;
            match (needs_in(needs@), route_run(step@, scopes, server, at)) {
                (Err(error), end) => end == Err::<Seq<char>, ErrorView>(error),
                (Ok(asked), Ok(iri)) => exists|place: int| #[trigger]
                    wins(providers, asked, place) && names_backend(
                        iri,
                        providers[place].provider,
                    ),
                (Ok(asked), Err(error)) => {
                    ||| says_none_fits(error, "urn:llm:ask"@, needs@) && forall|i: int|
                        0 <= i < providers.len() ==> !fits(#[trigger] providers[i], asked)
                    ||| exists|place: int| #[trigger]
                        wins(providers, asked, place) && iri_fault(
                            "urn:llm:"@ + providers[place].provider + ":ask"@,
                        ) is Some
                },
            }
        }),
{
    let scopes = scopes_of(*capability);
    let start = effective_from(facade@, scopes, 0);
    let effective = effective_run(start, scopes, server, at).0;
    routing_follows_discovery(start, needs@, scopes, server, at);
    none_fits_is_said("urn:llm:ask"@, needs@, effective);
    if let Ok(asked) = needs_in(needs@) {
        the_policy_picks_what_nothing_beats(effective.providers, asked);
        if let Some(place) = winning_place(effective.providers, asked) {
            assert(wins(effective.providers, asked, place));
        }
    }
}

/// What a request selects: the provider that wins among all that meet the requirements once
/// the servers were asked, as the IRI of its backend, or as JSON with its backend, name,
/// model, cost, vendor and context; an error only where an expression states no requirement
/// or none meets them.
pub proof fn requirements_select_the_winner(
    endpoint: &SelectEndpoint,
    capability: &ikigai_core::Capability,
    needs: String,
    form: Option<String>,
    step: SelectStep,
    server: Server,
    at: nat,
)
    requires
        call_ensures(SelectEndpoint::select, (endpoint, capability, needs, form), step),
    ensures
        ({
            let scopes = scopes_of(*capability);
            let providers = effective_run(
                effective_from(endpoint@, scopes, 0),
                scopes,
                server,
                at,
            ).0.providers;
            match (needs_in(needs@), select_run(step@, endpoint@, scopes, server, at)) {
                (Err(error), end) => end == Err::<AnswerView, ErrorView>(error),
                (Ok(asked), Ok(answer)) => {
                    &&& answer.cacheable <==> forall|i: int|
                        0 <= i < endpoint@.providers.len() ==> (
                        #[trigger] endpoint@.providers[i]).default_model is Some
                    &&& exists|place: int| #[trigger]
                        wins(providers, asked, place) && is_selection(
                            answer,
                            providers[place],
                            form.deep_view(),
                        )
                },
                (Ok(asked), Err(error)) => says_none_fits(error, "urn:llm:select"@, needs@)
                    && forall|i: int|
                    0 <= i < providers.len() ==> !fits(#[trigger] providers[i], asked),
            }
        }),
{
    let scopes = scopes_of(*capability);
    let start = effective_from(endpoint@, scopes, 0);
    let effective = effective_run(start, scopes, server, at).0;
    selecting_follows_discovery(start, endpoint@, needs@, form.deep_view(), scopes, server, at);
    none_fits_is_said("urn:llm:select"@, needs@, effective);
    if let Ok(asked) = needs_in(needs@) {
        the_policy_picks_what_nothing_beats(effective.providers, asked);
        if let Some(place) = winning_place(effective.providers, asked) {
            assert(wins(effective.providers, asked, place));
            a_selection_says_which(effective.providers[place]);
        }
    }
}

/// Whether an answer says that a provider is selected: its backend's IRI, or, where JSON is
/// asked for, an object with what is known of it, `null` for what is not.
pub open spec fn is_selection(
    answer: AnswerView,
    provider: OpenAiConfigView,
    form: Option<Seq<char>>,
) -> bool {
    if asks_form(form, "json"@) {
        answer.media == "application/json"@ && exists|detail: Map<Seq<char>, JsonView>|
            answer.body == json_bytes(JsonView::Object(detail)) && #[trigger] details(
                detail,
                provider,
            )
    } else {
        answer.media == "text/plain"@ && exists|iri: Seq<char>|
            answer.body == encode_utf8(iri) && #[trigger] names_backend(iri, provider.provider)
    }
}

/// Whether the members of an object are the details of a provider.
pub open spec fn details(
    members: Map<Seq<char>, JsonView>,
    provider: OpenAiConfigView,
) -> bool {
    &&& members.dom() == set![
        "backend"@,
        "provider"@,
        "model"@,
        "cost"@,
        "vendor"@,
        "context"@,
    ]
    &&& members["backend"@] matches JsonView::Text(iri) && names_backend(iri, provider.provider)
    &&& members["provider"@] == JsonView::Text(provider.provider)
    &&& members["model"@] == (match provider.default_model {
        Some(model) => JsonView::Text(model),
        None => JsonView::Null,
    })
    &&& members["cost"@] == (match provider.caps.cost {
        Some(cost) => JsonView::Text(cost),
        None => JsonView::Null,
    })
    &&& members["vendor"@] == (match provider.caps.vendor {
        Some(vendor) => JsonView::Text(vendor),
        None => JsonView::Null,
    })
    &&& members["context"@] == (match provider.caps.context {
        Some(context) => JsonView::Natural(context),
        None => JsonView::Null,
    })
}

proof fn a_selection_says_which(provider: OpenAiConfigView)
    ensures
        selection_detail(provider) matches JsonView::Object(members) && details(members, provider),
{
    reveal_strlit("backend");
    reveal_strlit("provider");
    reveal_strlit("model");
    reveal_strlit("cost");
    reveal_strlit("vendor");
    reveal_strlit("context");
    assert("backend"@.len() == 7 && "provider"@.len() == 8 && "model"@.len() == 5 && "cost"@.len()
        == 4 && "vendor"@.len() == 6 && "context"@.len() == 7 && "backend"@[0] == 'b'
        && "context"@[0] == 'c');
    let members = selection_detail(provider)->Object_0;
    assert(members.dom() =~= set![
        "backend"@,
        "provider"@,
        "model"@,
        "cost"@,
        "vendor"@,
        "context"@,
    ]);
    assert(names_backend(backend_iri(provider.provider), provider.provider));
}

/// What is selected is what is asked: over the same registry, servers and expression, the
/// backend that a request is routed to is the one that selecting names.
pub proof fn asking_goes_where_selecting_says(
    facade: &AskFacade,
    endpoint: &SelectEndpoint,
    capability: &ikigai_core::Capability,
    needs: &str,
    text: String,
    routed: RouteStep,
    selected: SelectStep,
    server: Server,
    at: nat,
)
    requires
        facade@ == endpoint@,
        text@ == needs@,
        call_ensures(AskFacade::route, (facade, capability, None::<&str>, Some(needs)), routed),
        call_ensures(
            SelectEndpoint::select,
            (endpoint, capability, text, None::<String>),
            selected,
        ),
    ensures
        ({
            let scopes = scopes_of(*capability);
            let asked = route_run(routed@, scopes, server, at);
            let named = select_run(selected@, endpoint@, scopes, server, at);
            &&& asked matches Ok(iri) ==> named matches Ok(answer) && answer.body == encode_utf8(
                iri,
            )
            &&& named is Err ==> asked is Err
        }),
{
    let scopes = scopes_of(*capability);
    let start = effective_from(facade@, scopes, 0);
    routing_follows_discovery(start, needs@, scopes, server, at);
    selecting_follows_discovery(
        start,
        endpoint@,
        needs@,
        None::<Seq<char>>,
        scopes,
        server,
        at,
    );
}

/// The registry's default plays no part where requirements decide.
pub proof fn requirements_ignore_the_default(
    left: RegistryView,
    right: RegistryView,
    scopes: Option<Set<Seq<char>>>,
    needs: Seq<char>,
    server: Server,
    at: nat,
)
    requires
        left.providers == right.providers,
    ensures
        route_run(route_start(left, scopes, None, Some(needs)), scopes, server, at) == route_run(
            route_start(right, scopes, None, Some(needs)),
            scopes,
            server,
            at,
        ),
{
    routing_comes_to_its_outcome(left, scopes, None, Some(needs), server, at);
    routing_comes_to_its_outcome(right, scopes, None, Some(needs), server, at);
    discovery_ignores_the_default(left, right, scopes, server, at, 0);
}

/// A reply carries routing and selecting on: from where they stood, with what the server
/// answered, they come to the end they were coming to.
pub proof fn replies_carry_on(
    facade: &AskFacade,
    endpoint: &SelectEndpoint,
    capability: &ikigai_core::Capability,
    call: HttpCallView,
    routing: RouteState,
    selecting: SelectState,
    reply: Result<HttpReply, String>,
    routed: RouteStep,
    selected: SelectStep,
    server: Server,
    at: nat,
)
    requires
        call_ensures(AskFacade::resume, (facade, capability, routing, reply), routed),
        call_ensures(SelectEndpoint::resume, (endpoint, capability, selecting, reply), selected),
        server(at, call) == reply_view(reply),
    ensures
        ({
            let scopes = scopes_of(*capability);
            &&& route_run(RouteStepView::Send { call, state: routing@ }, scopes, server, at)
                == route_run(routed@, scopes, server, at + 1)
            &&& select_run(
                SelectStepView::Send { call, state: selecting@ },
                endpoint@,
                scopes,
                server,
                at,
            ) == select_run(selected@, endpoint@, scopes, server, at + 1)
        }),
{
}

/// What an expression says is what the provider that it selects declares, term by term:
/// `cost<=` bounds the tier, `ctx>=` the window and `batchAt<=` the load shape; `cost=`,
/// `modality=`, `vendor=` and `provider=` name it, `vendor!=` and `provider!=` exclude one,
/// and a bare word asks for tools, JSON or a modality.
pub proof fn each_term_holds_of_the_chosen(
    registry: RegistryView,
    needs: Seq<char>,
    who: Seq<char>,
    value: Seq<char>,
    n: u64,
    k: int,
)
    requires
        is_bare(value),
        !value.contains('='),
        !value.contains(','),
        value.len() > 0,
        0 <= k < 3,
    ensures
        chosen(registry, needs, who) matches Ok(provider) ==> {
            &&& holds_term(needs, "cost<="@ + tiers()[k]) ==> exists|place: int|
                place <= k && #[trigger] is_tier(provider.caps.cost, place)
            &&& holds_term(needs, "cost="@ + tiers()[k]) ==> provider.caps.cost == Some(
                tiers()[k],
            )
            &&& holds_term(needs, "ctx>="@ + decimal(n as nat)) ==> provider.caps.context is Some
                && provider.caps.context->0 >= n
            &&& holds_term(needs, "batchAt<="@ + decimal(n as nat)) ==> provider.caps.batch_at
                is Some && provider.caps.batch_at->0 <= n
            &&& holds_term(needs, "modality="@ + value) ==> provider.caps.modalities.contains(
                value,
            )
            &&& holds_term(needs, "vendor="@ + value) ==> provider.caps.vendor == Some(value)
            &&& holds_term(needs, "vendor!="@ + value) ==> provider.caps.vendor is Some
                && provider.caps.vendor != Some(value)
            &&& holds_term(needs, "provider="@ + value) ==> provider.provider == value
            &&& holds_term(needs, "provider!="@ + value) ==> provider.provider != value
            &&& holds_term(needs, "tools"@) ==> provider.caps.tools == Some(true)
            &&& holds_term(needs, "json"@) ==> provider.caps.json == Some(true)
            &&& holds_term(needs, "text"@) ==> provider.caps.modalities.contains("text"@)
            &&& holds_term(needs, "vision"@) ==> provider.caps.modalities.contains("vision"@)
            &&& holds_term(needs, "audio"@) ==> provider.caps.modalities.contains("audio"@)
        },
{
    if let Ok(provider) = chosen(registry, needs, who) {
        let asked = needs_in(needs)->Ok_0;
        a_term_asks_what_it_says(value, n, k);
        terms_are_plain(value, n, k);
        the_winner_declares_what_is_asked(registry, asked, n, k as u8, value);
        the_winner_declares_what_is_asked(registry, asked, n, k as u8, "text"@);
        the_winner_declares_what_is_asked(registry, asked, n, k as u8, "vision"@);
        the_winner_declares_what_is_asked(registry, asked, n, k as u8, "audio"@);
        assert forall|term: Seq<char>| #[trigger] holds_term(needs, term) && is_term(
            term,
        ) implies needs_in(needs) is Ok && need_in(term) is Ok && asked.contains(
            need_in(term)->Ok_0,
        ) by {
            an_expression_asks_for_each_of_its_terms(needs, term);
        }
    }
}

/// Whether a text can be a term: it is not empty, bare, and holds no comma.
pub open spec fn is_term(text: Seq<char>) -> bool {
    text.len() > 0 && is_bare(text) && !text.contains(',')
}

proof fn a_term_of_two(head: Seq<char>, tail: Seq<char>)
    requires
        is_term(head),
        is_term(tail),
    ensures
        is_term(head + tail),
{
    let whole = head + tail;
    assert(whole.first() == head.first() && whole.last() == tail.last());
    if whole.contains(',') {
        let i = choose|i: int| 0 <= i < whole.len() && whole[i] == ',';
        if i < head.len() {
            assert(head[i] == ',');
        } else {
            assert(tail[i - head.len()] == ',');
        }
    }
}

proof fn terms_are_plain(value: Seq<char>, n: u64, k: int)
    requires
        is_term(value),
        0 <= k < 3,
    ensures
        is_term("cost<="@ + tiers()[k]),
        is_term("cost="@ + tiers()[k]),
        is_term("ctx>="@ + decimal(n as nat)),
        is_term("batchAt<="@ + decimal(n as nat)),
        is_term("modality="@ + value),
        is_term("vendor="@ + value),
        is_term("vendor!="@ + value),
        is_term("provider="@ + value),
        is_term("provider!="@ + value),
        is_term("tools"@) && is_term("json"@) && is_term("text"@) && is_term("vision"@) && is_term(
            "audio"@,
        ),
{
    reveal_strlit("cost<=");
    reveal_strlit("cost=");
    reveal_strlit("ctx>=");
    reveal_strlit("batchAt<=");
    reveal_strlit("modality=");
    reveal_strlit("vendor=");
    reveal_strlit("vendor!=");
    reveal_strlit("provider=");
    reveal_strlit("provider!=");
    reveal_strlit("tools");
    reveal_strlit("json");
    reveal_strlit("text");
    reveal_strlit("vision");
    reveal_strlit("audio");
    reveal_strlit("local");
    reveal_strlit("cheap");
    reveal_strlit("premium");
    let digits = decimal(n as nat);
    written_in_digits(n as nat);
    assert('0' <= digits[0] <= '9' && '0' <= digits[digits.len() - 1] <= '9');
    assert(is_term(digits));
    assert(tiers()[k] == "local"@ || tiers()[k] == "cheap"@ || tiers()[k] == "premium"@);
    assert(is_term(tiers()[k]));
    a_term_of_two("cost<="@, tiers()[k]);
    a_term_of_two("cost="@, tiers()[k]);
    a_term_of_two("ctx>="@, digits);
    a_term_of_two("batchAt<="@, digits);
    a_term_of_two("modality="@, value);
    a_term_of_two("vendor="@, value);
    a_term_of_two("vendor!="@, value);
    a_term_of_two("provider="@, value);
    a_term_of_two("provider!="@, value);
}

} // verus!
