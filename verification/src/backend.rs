//! `urn:llm:<provider>:ask`: one OpenAI-compatible chat backend.
//!
//! Asking is a machine: it says which request to send, and is handed what came back, until
//! it has an answer.

use crate::annotate::{backend_iri, backend_of};
use crate::answer::{
    answer_view, asks_form, json_answer, plain, structured, text_answer, wants, Answer,
    AnswerView,
};
use crate::config::{or_else, OpenAiConfig, OpenAiConfigView};
use crate::discover::{
    resolve_left, resolve_model, resolve_next, resolve_outcome, resolve_run, resolve_stage,
    resolve_start, resolving_comes_to_its_outcome, resume_resolve, ResolveStep, ResolveStepView,
};
use crate::error::{Error, ErrorView};
use crate::json::{
    json_all, json_bool, json_bytes, json_clone, json_field, json_in, json_item, json_list,
    json_natural, json_null, json_of, json_parse, json_str, json_text, json_write, text_or_null,
    JsonView, Members,
};
use crate::listing::{
    a_listing_comes_to_its_outcome, a_listing_keeps_to_its_provider, installed_models,
    keeps_to_provider, listing_left, listing_next, listing_outcome, listing_plan, listing_run,
    listing_stage, listing_start, listing_url, lists_provider, resume_listing, transport_error,
    transport_failure, ListingState, ListingStateView, ListingStep, ListingStepView, Server,
};
use crate::models::{
    find_supporting, first_supporting, held, is_first_to_chat, supports, the_first_supporting_is_the_first,
    InstalledModelView,
};
use crate::net::{
    grants_no_net, json_header, pairs_view, reach, reply_view, require_net, scopes_of, HttpCall,
    HttpCallView, HttpReply, HttpReplyView, Method,
};
use crate::text::{
    decimal, decode_lossy, lossy_text, natural_in, read_natural, same_text, write_natural,
};
use vstd::prelude::*;
use vstd::string::*;
use vstd::utf8::encode_utf8;

verus! {

// ---- the request -------------------------------------------------------------------

/// What a request to ask brings along.
#[derive(Debug)]
pub struct AskArgs {
    /// The prompt, or else what is piped in as content.
    pub prompt: Option<String>,
    pub content: Option<String>,
    /// The model to use, verbatim.
    pub model: Option<String>,
    pub system: Option<String>,
    /// The sampling temperature, as the JSON number to send.
    pub temperature: Option<serde_json::Value>,
    /// The most tokens to generate, as it was written.
    pub max_tokens: Option<String>,
    /// The form of the answer: one that holds `json` asks for the envelope.
    pub form: Option<String>,
}

/// [`AskArgs`] over sequences.
#[verifier::ext_equal]
pub struct AskArgsView {
    pub prompt: Option<Seq<char>>,
    pub content: Option<Seq<char>>,
    pub model: Option<Seq<char>>,
    pub system: Option<Seq<char>>,
    pub temperature: Option<JsonView>,
    pub max_tokens: Option<Seq<char>>,
    pub form: Option<Seq<char>>,
}

impl View for AskArgs {
    type V = AskArgsView;

    open spec fn view(&self) -> AskArgsView {
        AskArgsView {
            prompt: self.prompt.deep_view(),
            content: self.content.deep_view(),
            model: self.model.deep_view(),
            system: self.system.deep_view(),
            temperature: match self.temperature {
                Some(value) => Some(json_of(value)),
                None => None,
            },
            max_tokens: self.max_tokens.deep_view(),
            form: self.form.deep_view(),
        }
    }
}

/// A request that may be sent: where to, the prompt, and the rest.
#[derive(Debug)]
pub struct ChatRequest {
    pub url: String,
    pub prompt: String,
    pub args: AskArgs,
}

/// [`ChatRequest`] over sequences.
#[verifier::ext_equal]
pub struct ChatRequestView {
    pub url: Seq<char>,
    pub prompt: Seq<char>,
    pub args: AskArgsView,
}

impl View for ChatRequest {
    type V = ChatRequestView;

    open spec fn view(&self) -> ChatRequestView {
        ChatRequestView { url: self.url@, prompt: self.prompt@, args: self.args@ }
    }
}

/// One message of a chat.
pub open spec fn message(role: Seq<char>, content: Seq<char>) -> JsonView {
    JsonView::Object(
        Map::<Seq<char>, JsonView>::empty().insert("role"@, JsonView::Text(role)).insert(
            "content"@,
            JsonView::Text(content),
        ),
    )
}

/// The messages of a request: the system prompt, if any, and the user's.
pub open spec fn messages(request: ChatRequestView) -> Seq<JsonView> {
    match request.args.system {
        Some(system) => seq![message("system"@, system), message("user"@, request.prompt)],
        None => seq![message("user"@, request.prompt)],
    }
}

/// The members with one more, where there is a value for it.
pub open spec fn with_member(
    members: Map<Seq<char>, JsonView>,
    name: Seq<char>,
    value: Option<JsonView>,
) -> Map<Seq<char>, JsonView> {
    match value {
        Some(value) => members.insert(name, value),
        None => members,
    }
}

/// The number of tokens that a request limits the answer to. What is no whole number
/// limits nothing.
pub open spec fn token_limit(max_tokens: Option<Seq<char>>) -> Option<JsonView> {
    match max_tokens {
        Some(text) => match natural_in(text) {
            Some(n) => Some(JsonView::Natural(n)),
            None => None,
        },
        None => None,
    }
}

/// The body that asks `model` to answer a request.
pub open spec fn payload(request: ChatRequestView, model: Seq<char>) -> JsonView {
    let members = Map::<Seq<char>, JsonView>::empty().insert(
        "model"@,
        JsonView::Text(model),
    ).insert("messages"@, JsonView::List(messages(request))).insert(
        "stream"@,
        JsonView::Bool(false),
    );
    JsonView::Object(
        with_member(
            with_member(members, "temperature"@, request.args.temperature),
            "max_tokens"@,
            token_limit(request.args.max_tokens),
        ),
    )
}

/// The headers of a chat request: the body is JSON, and the key is the bearer's.
pub open spec fn chat_headers(api_key: Option<Seq<char>>) -> Seq<(Seq<char>, Seq<char>)> {
    match api_key {
        Some(key) => seq![json_header(), ("Authorization"@, "Bearer "@ + key)],
        None => seq![json_header()],
    }
}

/// The request that asks `model` to answer.
pub open spec fn chat_call(
    config: OpenAiConfigView,
    request: ChatRequestView,
    model: Seq<char>,
) -> HttpCallView {
    HttpCallView {
        method: Method::Post,
        url: request.url,
        headers: chat_headers(config.api_key),
        body: json_bytes(payload(request, model)),
    }
}

fn write_message(role: &str, content: &str) -> (value: serde_json::Value)
    ensures
        json_of(value) == message(role@, content@),
{
    let mut members = Members::new();
    members.put("role", json_text(role));
    members.put("content", json_text(content));
    members.object()
}

fn write_messages(request: &ChatRequest) -> (value: serde_json::Value)
    ensures
        json_of(value) == JsonView::List(messages(request@)),
{
    let mut items: Vec<serde_json::Value> = Vec::new();
    if let Some(system) = &request.args.system {
        items.push(write_message("system", system.as_str()));
    }
    items.push(write_message("user", request.prompt.as_str()));
    assert(json_all(items@) =~= messages(request@));
    json_list(items)
}

fn write_payload(request: &ChatRequest, model: &str) -> (value: serde_json::Value)
    ensures
        json_of(value) == payload(request@, model@),
{
    let mut members = Members::new();
    members.put("model", json_text(model));
    members.put("messages", write_messages(request));
    members.put("stream", json_bool(false));
    if let Some(temperature) = &request.args.temperature {
        members.put("temperature", json_clone(temperature));
    }
    if let Some(text) = &request.args.max_tokens {
        if let Some(n) = read_natural(text.as_str()) {
            members.put("max_tokens", json_natural(n));
        }
    }
    members.object()
}

fn chat_request(config: &OpenAiConfig, request: &ChatRequest, model: &str) -> (call: HttpCall)
    ensures
        call@ == chat_call(config@, request@, model@),
{
    let mut headers: Vec<(String, String)> = Vec::new();
    headers.push(("Content-Type".to_owned(), "application/json".to_owned()));
    if let Some(key) = &config.api_key {
        let mut bearer = "Bearer ".to_owned();
        bearer.append(key.as_str());
        headers.push(("Authorization".to_owned(), bearer));
    }
    assert(pairs_view(headers@) =~= chat_headers(config@.api_key));
    HttpCall {
        method: Method::Post,
        url: request.url.clone(),
        headers,
        body: json_write(&write_payload(request, model)),
    }
}

// ---- the answer --------------------------------------------------------------------

/// The normalized envelope of a completion. The model is the one the server names, or
/// else the one that was tried first: after a fallback, the refused one.
pub open spec fn envelope(content: JsonView, text: Seq<char>, model: Seq<char>) -> JsonView {
    let named = match content.field("model"@).text() {
        Some(named) => named,
        None => model,
    };
    JsonView::Object(
        Map::<Seq<char>, JsonView>::empty().insert("text"@, JsonView::Text(text)).insert(
            "model"@,
            JsonView::Text(named),
        ).insert(
            "finish_reason"@,
            text_or_null(content.field("choices"@).item(0).field("finish_reason"@).text()),
        ).insert("usage"@, content.field("usage"@)),
    )
}

/// What a server's reply to a chat request is answered by: the completion's text, or the
/// envelope where the form asks for JSON. An error status, a body that is no JSON and one
/// without a completion are errors. No answer is cacheable: generation is not
/// deterministic.
pub open spec fn answer_from(
    form: Option<Seq<char>>,
    model: Seq<char>,
    reply: HttpReplyView,
) -> Result<AnswerView, ErrorView> {
    if reply.status >= 400 {
        Err(
            ErrorView::Endpoint(
                "llm backend returned "@ + decimal(reply.status as nat) + ": "@ + lossy_text(
                    reply.body,
                ),
            ),
        )
    } else {
        match json_in(reply.body) {
            Err(message) => Err(
                ErrorView::Endpoint("llm: response was not JSON: "@ + message),
            ),
            Ok(content) => match content.field("choices"@).item(0).field("message"@).field(
                "content"@,
            ).text() {
                None => Err(
                    ErrorView::Endpoint("llm: no choices[0].message.content in response"@),
                ),
                Some(text) => if asks_form(form, "json"@) {
                    Ok(json_answer(json_bytes(envelope(content, text, model)), false))
                } else {
                    Ok(text_answer(text, false))
                },
            },
        }
    }
}

fn write_envelope(content: &serde_json::Value, text: &str, model: &str) -> (value:
    serde_json::Value)
    ensures
        json_of(value) == envelope(json_of(*content), text@, model@),
{
    let named = match json_str(json_field(content, "model")) {
        Some(named) => named,
        None => model,
    };
    let choice = json_item(json_field(content, "choices"), 0);
    let reason = match json_str(json_field(choice, "finish_reason")) {
        Some(reason) => json_text(reason),
        None => json_null(),
    };
    let mut members = Members::new();
    members.put("text", json_text(text));
    members.put("model", json_text(named));
    members.put("finish_reason", reason);
    members.put("usage", json_clone(json_field(content, "usage")));
    members.object()
}

/// What a server's reply to a chat request is answered by.
pub fn read_answer(form: &Option<String>, model: &str, reply: &HttpReply) -> (answer: Result<
    Answer,
    Error,
>)
    ensures
        answer_view(answer) == answer_from(form.deep_view(), model@, reply@),
{
    if reply.status >= 400 {
        let status = write_natural(reply.status as u64);
        let detail = decode_lossy(reply.body.as_slice());
        let mut text = "llm backend returned ".to_owned();
        text.append(status.as_str());
        text.append(": ");
        text.append(detail.as_str());
        return Err(Error::Endpoint(text));
    }
    match json_parse(reply.body.as_slice()) {
        Err(message) => {
            let mut text = "llm: response was not JSON: ".to_owned();
            text.append(message.as_str());
            Err(Error::Endpoint(text))
        },
        Ok(content) => {
            let choice = json_item(json_field(&content, "choices"), 0);
            match json_str(json_field(json_field(choice, "message"), "content")) {
                None => Err(
                    Error::Endpoint("llm: no choices[0].message.content in response".to_owned()),
                ),
                Some(text) => if wants(form, "json") {
                    Ok(structured(json_write(&write_envelope(&content, text, model)), false))
                } else {
                    Ok(plain(text, false))
                },
            }
        },
    }
}

// ---- the machine -------------------------------------------------------------------

/// What asking waits for.
#[derive(Debug)]
pub enum AskState {
    /// A reply of the server about the models it serves: none was named.
    Resolving { request: ChatRequest, listing: ListingState },
    /// The completion by `model`.
    Sent { request: ChatRequest, model: String },
    /// A reply about the models that are installed: the server does not know `model`,
    /// which nobody asked for by name.
    FallingBack { request: ChatRequest, model: String, refused: HttpReply, listing: ListingState },
    /// The completion by an installed model in place of `model`.
    Retried { request: ChatRequest, model: String },
}

/// [`AskState`] over sequences.
#[verifier::ext_equal]
pub enum AskStateView {
    Resolving { request: ChatRequestView, listing: ListingStateView },
    Sent { request: ChatRequestView, model: Seq<char> },
    FallingBack {
        request: ChatRequestView,
        model: Seq<char>,
        refused: HttpReplyView,
        listing: ListingStateView,
    },
    Retried { request: ChatRequestView, model: Seq<char> },
}

impl View for AskState {
    type V = AskStateView;

    open spec fn view(&self) -> AskStateView {
        match self {
            AskState::Resolving { request, listing } => AskStateView::Resolving {
                request: request@,
                listing: listing@,
            },
            AskState::Sent { request, model } => AskStateView::Sent {
                request: request@,
                model: model@,
            },
            AskState::FallingBack { request, model, refused, listing } =>
            AskStateView::FallingBack {
                request: request@,
                model: model@,
                refused: refused@,
                listing: listing@,
            },
            AskState::Retried { request, model } => AskStateView::Retried {
                request: request@,
                model: model@,
            },
        }
    }
}

/// What asking wants next.
#[derive(Debug)]
pub enum AskStep {
    /// Send the request, and hand back what came of it.
    Send { call: HttpCall, state: AskState },
    /// The answer, or why there is none.
    Done(Result<Answer, Error>),
}

/// [`AskStep`] over sequences.
#[verifier::ext_equal]
pub enum AskStepView {
    Send { call: HttpCallView, state: AskStateView },
    Done(Result<AnswerView, ErrorView>),
}

impl View for AskStep {
    type V = AskStepView;

    open spec fn view(&self) -> AskStepView {
        match self {
            AskStep::Send { call, state } => AskStepView::Send { call: call@, state: state@ },
            AskStep::Done(answer) => AskStepView::Done(answer_view(*answer)),
        }
    }
}

/// The step that asks `model`.
pub open spec fn chat_step(
    config: OpenAiConfigView,
    request: ChatRequestView,
    model: Seq<char>,
) -> AskStepView {
    AskStepView::Send {
        call: chat_call(config, request, model),
        state: AskStateView::Sent { request, model },
    }
}

/// A step of looking for a model as one of asking: the model found is asked.
pub open spec fn ask_resolved(
    config: OpenAiConfigView,
    request: ChatRequestView,
    step: ResolveStepView,
) -> AskStepView {
    match step {
        ResolveStepView::Send { call, state } => AskStepView::Send {
            call,
            state: AskStateView::Resolving { request, listing: state },
        },
        ResolveStepView::Done(Ok(found)) => chat_step(config, request, found.0),
        ResolveStepView::Done(Err(error)) => AskStepView::Done(Err(error)),
    }
}

/// The model to fall back on: the first installed one that can chat.
pub open spec fn fallback_model(
    listing: Result<Seq<InstalledModelView>, ErrorView>,
) -> Option<Seq<char>> {
    match listing {
        Ok(models) => match first_supporting(models, "completion"@) {
            Some(place) => Some(models[place].model),
            None => None,
        },
        Err(_) => None,
    }
}

/// A step of listing the installed models as one of asking: the first that can chat is
/// asked, unless it is the refused one; without one, the refusal is answered.
pub open spec fn ask_fallen_back(
    config: OpenAiConfigView,
    request: ChatRequestView,
    model: Seq<char>,
    refused: HttpReplyView,
    step: ListingStepView,
) -> AskStepView {
    match step {
        ListingStepView::Send { call, state } => AskStepView::Send {
            call,
            state: AskStateView::FallingBack { request, model, refused, listing: state },
        },
        ListingStepView::Done(listing) => match fallback_model(listing) {
            Some(first) if first != model => AskStepView::Send {
                call: chat_call(config, request, first),
                state: AskStateView::Retried { request, model },
            },
            _ => AskStepView::Done(answer_from(request.args.form, model, refused)),
        },
    }
}

/// The first step of asking: the capability has to allow the host, there has to be a
/// prompt, and the model is the one named, or else looked for.
pub open spec fn ask_start(
    config: OpenAiConfigView,
    scopes: Option<Set<Seq<char>>>,
    args: AskArgsView,
) -> AskStepView {
    let who = backend_iri(config.provider);
    match reach(scopes, config.base_url, "chat/completions"@, who) {
        Err(error) => AskStepView::Done(Err(error)),
        Ok(url) => match or_else(args.prompt, args.content) {
            None => AskStepView::Done(Err(ErrorView::MissingArgument("prompt"@))),
            Some(prompt) => {
                let request = ChatRequestView { url, prompt, args };
                match args.model {
                    Some(model) => chat_step(config, request, model),
                    None => ask_resolved(config, request, resolve_start(config, scopes, who)),
                }
            },
        },
    }
}

/// The step after a reply.
pub open spec fn ask_next(
    config: OpenAiConfigView,
    scopes: Option<Set<Seq<char>>>,
    state: AskStateView,
    reply: Result<HttpReplyView, Seq<char>>,
) -> AskStepView {
    match state {
        AskStateView::Resolving { request, listing } => ask_resolved(
            config,
            request,
            resolve_next(config, backend_iri(config.provider), listing, reply),
        ),
        AskStateView::Sent { request, model } => match reply {
            Err(message) => AskStepView::Done(Err(transport_error(message))),
            Ok(reply) => if reply.status == 404 && request.args.model is None {
                ask_fallen_back(
                    config,
                    request,
                    model,
                    reply,
                    listing_start(listing_plan(config, scopes)),
                )
            } else {
                AskStepView::Done(answer_from(request.args.form, model, reply))
            },
        },
        AskStateView::FallingBack { request, model, refused, listing } => ask_fallen_back(
            config,
            request,
            model,
            refused,
            listing_next(listing, reply),
        ),
        AskStateView::Retried { request, model } => match reply {
            Err(message) => AskStepView::Done(Err(transport_error(message))),
            Ok(reply) => AskStepView::Done(answer_from(request.args.form, model, reply)),
        },
    }
}

/// `urn:llm:<provider>:ask`: one OpenAI-compatible chat backend.
#[derive(Debug)]
pub struct OpenAiBackend {
    pub config: OpenAiConfig,
}

impl View for OpenAiBackend {
    type V = OpenAiConfigView;

    open spec fn view(&self) -> OpenAiConfigView {
        self.config@
    }
}

/// The labels of a step over sequences: what selection chose.
pub open spec fn labels(config: OpenAiConfigView, state: AskStateView) -> Seq<
    (Seq<char>, Seq<char>),
> {
    match state {
        AskStateView::Sent { model, .. } => match config.caps.cost {
            Some(cost) => seq![
                ("model"@, model),
                ("provider"@, config.provider),
                ("cost"@, cost),
            ],
            None => seq![("model"@, model), ("provider"@, config.provider)],
        },
        _ => Seq::empty(),
    }
}

impl OpenAiBackend {
    /// A backend for `config`.
    pub fn new(config: OpenAiConfig) -> (backend: OpenAiBackend)
        ensures
            backend@ == config@,
    {
        OpenAiBackend { config }
    }

    fn chat(&self, request: ChatRequest, model: String) -> (step: AskStep)
        ensures
            step@ == chat_step(self@, request@, model@),
    {
        let call = chat_request(&self.config, &request, model.as_str());
        AskStep::Send { call, state: AskState::Sent { request, model } }
    }

    fn resolved(&self, request: ChatRequest, step: ResolveStep) -> (next: AskStep)
        ensures
            next@ == ask_resolved(self@, request@, step@),
    {
        match step {
            ResolveStep::Send { call, state } => AskStep::Send {
                call,
                state: AskState::Resolving { request, listing: state },
            },
            ResolveStep::Done(found) => match found {
                Ok((model, _)) => self.chat(request, model),
                Err(error) => AskStep::Done(Err(error)),
            },
        }
    }

    fn fallen_back(
        &self,
        request: ChatRequest,
        model: String,
        refused: HttpReply,
        step: ListingStep,
    ) -> (next: AskStep)
        ensures
            next@ == ask_fallen_back(self@, request@, model@, refused@, step@),
    {
        match step {
            ListingStep::Send { call, state } => AskStep::Send {
                call,
                state: AskState::FallingBack { request, model, refused, listing: state },
            },
            ListingStep::Done(listing) => {
                if let Ok(models) = &listing {
                    if let Some(place) = find_supporting(models, "completion") {
                        assert(models.deep_view()[place as int] == models@[place as int]@);
                        let first = &models[place].model;
                        if !same_text(first.as_str(), model.as_str()) {
                            let call = chat_request(&self.config, &request, first.as_str());
                            return AskStep::Send {
                                call,
                                state: AskState::Retried { request, model },
                            };
                        }
                    }
                }
                AskStep::Done(read_answer(&request.args.form, model.as_str(), &refused))
            },
        }
    }

    /// Begin to answer a request. Reaching a server is a network act, even on this
    /// machine: the capability has to allow the host, and without a grant of the network the
    /// answer is an error.
    pub fn ask(&self, capability: &ikigai_core::Capability, args: AskArgs) -> (step: AskStep)
        ensures
            step@ == ask_start(self@, scopes_of(*capability), args@),
            grants_no_net(scopes_of(*capability)) ==> (step@ matches AskStepView::Done(answer)
                && answer is Err),
    {
        let who = backend_of(self.config.provider.as_str());
        let url = match require_net(
            capability,
            self.config.base_url.as_str(),
            "chat/completions",
            who.as_str(),
        ) {
            Ok(url) => url,
            Err(error) => {
                return AskStep::Done(Err(error));
            },
        };
        let prompt = match &args.prompt {
            Some(prompt) => prompt.clone(),
            None => match &args.content {
                Some(content) => content.clone(),
                None => {
                    return AskStep::Done(Err(Error::MissingArgument("prompt".to_owned())));
                },
            },
        };
        let named = match &args.model {
            Some(model) => Some(model.clone()),
            None => None,
        };
        let request = ChatRequest { url, prompt, args };
        match named {
            Some(model) => self.chat(request, model),
            None => {
                let step = resolve_model(&self.config, capability, who.as_str());
                self.resolved(request, step)
            },
        }
    }

    /// Go on answering, given what came back for the last request. A model that the
    /// request named is never substituted; a defaulted one that the server does not know
    /// is, once, by what is installed.
    pub fn resume(
        &self,
        capability: &ikigai_core::Capability,
        state: AskState,
        reply: Result<HttpReply, String>,
    ) -> (step: AskStep)
        ensures
            step@ == ask_next(self@, scopes_of(*capability), state@, reply_view(reply)),
    {
        match state {
            AskState::Resolving { request, listing } => {
                let who = backend_of(self.config.provider.as_str());
                let step = resume_resolve(&self.config, who.as_str(), listing, reply);
                self.resolved(request, step)
            },
            AskState::Sent { request, model } => match reply {
                Err(message) => AskStep::Done(Err(transport_failure(message.as_str()))),
                Ok(reply) => if reply.status == 404 && request.args.model.is_none() {
                    let step = installed_models(&self.config, capability);
                    self.fallen_back(request, model, reply, step)
                } else {
                    AskStep::Done(read_answer(&request.args.form, model.as_str(), &reply))
                },
            },
            AskState::FallingBack { request, model, refused, listing } => {
                let step = resume_listing(listing, reply);
                self.fallen_back(request, model, refused, step)
            },
            AskState::Retried { request, model } => match reply {
                Err(message) => AskStep::Done(Err(transport_failure(message.as_str()))),
                Ok(reply) => AskStep::Done(
                    read_answer(&request.args.form, model.as_str(), &reply),
                ),
            },
        }
    }

    /// What to label the trace with when a request is sent: which model was chosen, at
    /// which provider and cost tier. Nothing where no model is being asked yet, or where it
    /// was labelled before.
    pub fn notes(&self, state: &AskState) -> (notes: Vec<(String, String)>)
        ensures
            pairs_view(notes@) == labels(self@, state@),
    {
        let mut notes: Vec<(String, String)> = Vec::new();
        if let AskState::Sent { model, .. } = state {
            notes.push(("model".to_owned(), model.clone()));
            notes.push(("provider".to_owned(), self.config.provider.clone()));
            if let Some(cost) = &self.config.caps.cost {
                notes.push(("cost".to_owned(), cost.clone()));
            }
        }
        assert(pairs_view(notes@) =~= labels(self@, state@));
        notes
    }
}

// ---- whole conversations -----------------------------------------------------------

/// How far asking has come.
pub open spec fn ask_stage(step: AskStepView) -> nat {
    match step {
        AskStepView::Send { state: AskStateView::Resolving { .. }, .. } => 4,
        AskStepView::Send { state: AskStateView::Sent { .. }, .. } => 3,
        AskStepView::Send { state: AskStateView::FallingBack { .. }, .. } => 2,
        AskStepView::Send { state: AskStateView::Retried { .. }, .. } => 1,
        AskStepView::Done(_) => 0,
    }
}

/// The step of a listing that a step stands for, if it does.
pub open spec fn listing_within(step: AskStepView) -> Option<ListingStepView> {
    match step {
        AskStepView::Send { call, state: AskStateView::Resolving { listing, .. } } => Some(
            ListingStepView::Send { call, state: listing },
        ),
        AskStepView::Send { call, state: AskStateView::FallingBack { listing, .. } } => Some(
            ListingStepView::Send { call, state: listing },
        ),
        _ => None,
    }
}

/// How far the listing within has come.
pub open spec fn stage_within(step: AskStepView) -> nat {
    match listing_within(step) {
        Some(step) => listing_stage(step),
        None => 0,
    }
}

/// The models that the listing within has left to ask about.
pub open spec fn left_within(step: AskStepView) -> int {
    match listing_within(step) {
        Some(step) => listing_left(step),
        None => 0,
    }
}

/// Where asking ends when it is carried through with the server, its next request being
/// the one at `at`.
pub open spec fn ask_run(
    step: AskStepView,
    config: OpenAiConfigView,
    scopes: Option<Set<Seq<char>>>,
    server: Server,
    at: nat,
) -> Result<AnswerView, ErrorView>
    decreases ask_stage(step), stage_within(step), left_within(step),
{
    match step {
        AskStepView::Done(answer) => answer,
        AskStepView::Send { call, state } => ask_run(
            ask_next(config, scopes, state, server(at, call)),
            config,
            scopes,
            server,
            at + 1,
        ),
    }
}

/// What the reply to a chat request, if one came, is answered by.
pub open spec fn replied(
    request: ChatRequestView,
    model: Seq<char>,
    reply: Result<HttpReplyView, Seq<char>>,
) -> Result<AnswerView, ErrorView> {
    match reply {
        Ok(reply) => answer_from(request.args.form, model, reply),
        Err(message) => Err(transport_error(message)),
    }
}

/// What asking `model` comes to, the request being the one at `at`. Where the server does
/// not know the model and the request named none, the first installed model that can chat
/// is asked instead, once.
pub open spec fn chat_outcome(
    config: OpenAiConfigView,
    scopes: Option<Set<Seq<char>>>,
    request: ChatRequestView,
    model: Seq<char>,
    server: Server,
    at: nat,
) -> Result<AnswerView, ErrorView> {
    let reply = server(at, chat_call(config, request, model));
    if request.args.model is None && reply is Ok && reply->Ok_0.status == 404 {
        let (listing, after) = listing_outcome(listing_plan(config, scopes), server, at + 1);
        match fallback_model(listing) {
            Some(first) if first != model => replied(
                request,
                model,
                server(after, chat_call(config, request, first)),
            ),
            _ => replied(request, model, reply),
        }
    } else {
        replied(request, model, reply)
    }
}

/// What a request comes to: an error where the capability does not allow the host, where
/// there is no prompt or where no model can be found; else what asking the model comes to,
/// the named one or the one the provider serves.
pub open spec fn ask_outcome(
    config: OpenAiConfigView,
    scopes: Option<Set<Seq<char>>>,
    args: AskArgsView,
    server: Server,
    at: nat,
) -> Result<AnswerView, ErrorView> {
    let who = backend_iri(config.provider);
    match reach(scopes, config.base_url, "chat/completions"@, who) {
        Err(error) => Err(error),
        Ok(url) => match or_else(args.prompt, args.content) {
            None => Err(ErrorView::MissingArgument("prompt"@)),
            Some(prompt) => {
                let request = ChatRequestView { url, prompt, args };
                match args.model {
                    Some(model) => chat_outcome(config, scopes, request, model, server, at),
                    None => match resolve_outcome(config, scopes, who, server, at) {
                        (Ok(found), after) => chat_outcome(
                            config,
                            scopes,
                            request,
                            found.0,
                            server,
                            after,
                        ),
                        (Err(error), _) => Err(error),
                    },
                }
            },
        },
    }
}

proof fn falling_back_runs(
    config: OpenAiConfigView,
    scopes: Option<Set<Seq<char>>>,
    request: ChatRequestView,
    model: Seq<char>,
    refused: HttpReplyView,
    step: ListingStepView,
    server: Server,
    at: nat,
)
    ensures
        ({
            let (listing, after) = listing_run(step, server, at);
            ask_run(
                ask_fallen_back(config, request, model, refused, step),
                config,
                scopes,
                server,
                at,
            ) == match fallback_model(listing) {
                Some(first) if first != model => replied(
                    request,
                    model,
                    server(after, chat_call(config, request, first)),
                ),
                _ => answer_from(request.args.form, model, refused),
            }
        }),
    decreases listing_stage(step), listing_left(step),
{
    match step {
        ListingStepView::Send { call, state } => {
            let next = listing_next(state, server(at, call));
            falling_back_runs(
                config,
                scopes,
                request,
                model,
                refused,
                next,
                server,
                at + 1,
            );
        },
        ListingStepView::Done(listing) => {
            if let Some(first) = fallback_model(listing) {
                if first != model {
                    let call = chat_call(config, request, first);
                    let state = AskStateView::Retried { request, model };
                    let last = ask_next(config, scopes, state, server(at, call));
                    assert(last == AskStepView::Done(replied(request, model, server(at, call))));
                    assert(ask_run(last, config, scopes, server, at + 1) == replied(
                        request,
                        model,
                        server(at, call),
                    ));
                }
            }
        },
    }
}

proof fn chatting_runs(
    config: OpenAiConfigView,
    scopes: Option<Set<Seq<char>>>,
    request: ChatRequestView,
    model: Seq<char>,
    server: Server,
    at: nat,
)
    ensures
        ask_run(chat_step(config, request, model), config, scopes, server, at) == chat_outcome(
            config,
            scopes,
            request,
            model,
            server,
            at,
        ),
{
    let reply = server(at, chat_call(config, request, model));
    let next = ask_next(config, scopes, AskStateView::Sent { request, model }, reply);
    assert(ask_run(chat_step(config, request, model), config, scopes, server, at) == ask_run(
        next,
        config,
        scopes,
        server,
        at + 1,
    ));
    if request.args.model is None && reply is Ok && reply->Ok_0.status == 404 {
        let plan = listing_plan(config, scopes);
        a_listing_comes_to_its_outcome(plan, server, at + 1);
        falling_back_runs(
            config,
            scopes,
            request,
            model,
            reply->Ok_0,
            listing_start(plan),
            server,
            at + 1,
        );
    } else {
        assert(next == AskStepView::Done(replied(request, model, reply)));
    }
}

proof fn resolving_runs(
    config: OpenAiConfigView,
    scopes: Option<Set<Seq<char>>>,
    request: ChatRequestView,
    step: ResolveStepView,
    server: Server,
    at: nat,
)
    ensures
        ask_run(ask_resolved(config, request, step), config, scopes, server, at) == (
        match resolve_run(step, config, backend_iri(config.provider), server, at) {
            (Ok(found), after) => chat_outcome(config, scopes, request, found.0, server, after),
            (Err(error), _) => Err(error),
        }),
    decreases resolve_stage(step), resolve_left(step),
{
    match step {
        ResolveStepView::Send { call, state } => {
            let next = resolve_next(
                config,
                backend_iri(config.provider),
                state,
                server(at, call),
            );
            resolving_runs(config, scopes, request, next, server, at + 1);
        },
        ResolveStepView::Done(found) => {
            if let Ok(found) = found {
                chatting_runs(config, scopes, request, found.0, server, at);
            }
        },
    }
}

/// Carried through with any server, asking ends, and comes to its outcome.
pub proof fn asking_comes_to_its_outcome(
    config: OpenAiConfigView,
    scopes: Option<Set<Seq<char>>>,
    args: AskArgsView,
    server: Server,
    at: nat,
)
    ensures
        ask_run(ask_start(config, scopes, args), config, scopes, server, at) == ask_outcome(
            config,
            scopes,
            args,
            server,
            at,
        ),
{
    let who = backend_iri(config.provider);
    if let Ok(url) = reach(scopes, config.base_url, "chat/completions"@, who) {
        if let Some(prompt) = or_else(args.prompt, args.content) {
            let request = ChatRequestView { url, prompt, args };
            match args.model {
                Some(model) => {
                    chatting_runs(config, scopes, request, model, server, at);
                },
                None => {
                    resolving_comes_to_its_outcome(config, scopes, who, server, at);
                    resolving_runs(
                        config,
                        scopes,
                        request,
                        resolve_start(config, scopes, who),
                        server,
                        at,
                    );
                },
            }
        }
    }
}

// ---- what asking promises ----------------------------------------------------------

/// A model that the request names is the model asked, at once, and it is never substituted:
/// whatever its reply, the answer is drawn from it.
pub proof fn a_named_model_is_never_substituted(
    config: OpenAiConfigView,
    scopes: Option<Set<Seq<char>>>,
    args: AskArgsView,
    model: Seq<char>,
    reply: Result<HttpReplyView, Seq<char>>,
)
    requires
        args.model == Some(model),
    ensures
        match ask_start(config, scopes, args) {
            AskStepView::Send { call, state } => {
                &&& state matches AskStateView::Sent { request, model: asked }
                &&& request.args == args
                &&& asked == model
                &&& call == chat_call(config, request, model)
                &&& ask_next(config, scopes, state, reply) == AskStepView::Done(
                    replied(request, model, reply),
                )
            },
            AskStepView::Done(answer) => answer is Err,
        },
{
}

/// A request is retried once at most: what a second model is asked in place of the first
/// is the last request.
pub proof fn a_retry_is_the_last_request(
    config: OpenAiConfigView,
    scopes: Option<Set<Seq<char>>>,
    request: ChatRequestView,
    model: Seq<char>,
    reply: Result<HttpReplyView, Seq<char>>,
)
    ensures
        ask_next(config, scopes, AskStateView::Retried { request, model }, reply)
            == AskStepView::Done(replied(request, model, reply)),
{
}

/// The model fallen back on is one that is installed, can chat as far as is known, and has
/// no such model before it.
pub proof fn a_fallback_is_installed_and_can_chat(models: Seq<InstalledModelView>)
    ensures
        fallback_model(Ok(models)) matches Some(model) ==> exists|place: int|
            #![trigger models[place]]
            0 <= place < models.len() && models[place].model == model && supports(
                models[place],
                "completion"@,
            ) && forall|i: int| 0 <= i < place ==> !supports(#[trigger] models[i], "completion"@),
{
    the_first_supporting_is_the_first(models, "completion"@);
}

/// Without a capability for the host, and without a prompt, nothing is sent.
pub proof fn a_refused_request_sends_nothing(
    config: OpenAiConfigView,
    scopes: Option<Set<Seq<char>>>,
    args: AskArgsView,
)
    ensures
        reach(
            scopes,
            config.base_url,
            "chat/completions"@,
            backend_iri(config.provider),
        ) matches Err(error) ==> ask_start(config, scopes, args) == AskStepView::Done(Err(error)),
        reach(
            scopes,
            config.base_url,
            "chat/completions"@,
            backend_iri(config.provider),
        ) is Ok && args.prompt is None && args.content is None ==> ask_start(config, scopes, args)
            == AskStepView::Done(Err(ErrorView::MissingArgument("prompt"@))),
{
}

/// No answer is cacheable: generation is not deterministic.
pub proof fn completions_are_never_cacheable(
    config: OpenAiConfigView,
    scopes: Option<Set<Seq<char>>>,
    args: AskArgsView,
    server: Server,
    at: nat,
)
    ensures
        ask_outcome(config, scopes, args, server, at) matches Ok(answer) ==> !answer.cacheable,
{
}

/// Whether a chat request goes to the provider's own URL, which the capability allows.
pub open spec fn may_chat(
    config: OpenAiConfigView,
    scopes: Option<Set<Seq<char>>>,
    url: Seq<char>,
) -> bool {
    reach(
        scopes,
        config.base_url,
        "chat/completions"@,
        backend_iri(config.provider),
    ) == Ok::<Seq<char>, ErrorView>(url)
}

/// Whether a state is one of asking this provider under this capability.
pub open spec fn asks_provider(
    config: OpenAiConfigView,
    scopes: Option<Set<Seq<char>>>,
    state: AskStateView,
) -> bool {
    match state {
        AskStateView::Resolving { request, listing } => may_chat(config, scopes, request.url)
            && lists_provider(config, scopes, listing),
        AskStateView::Sent { request, .. } => may_chat(config, scopes, request.url),
        AskStateView::FallingBack { request, listing, .. } => may_chat(
            config,
            scopes,
            request.url,
        ) && lists_provider(config, scopes, listing),
        AskStateView::Retried { request, .. } => may_chat(config, scopes, request.url),
    }
}

/// Whether a step keeps to the provider: what it sends goes to a URL of the provider's own
/// that the capability allows.
pub open spec fn ask_keeps_to_provider(
    config: OpenAiConfigView,
    scopes: Option<Set<Seq<char>>>,
    step: AskStepView,
) -> bool {
    match step {
        AskStepView::Send { call, state } => {
            &&& asks_provider(config, scopes, state)
            &&& may_chat(config, scopes, call.url) || listing_url(config, scopes, call.url)
        },
        AskStepView::Done(_) => true,
    }
}

/// Asking keeps to its provider: every request goes to a URL of the provider's own that the
/// capability allows, and no other backend ever answers.
pub proof fn asking_keeps_to_its_provider(
    config: OpenAiConfigView,
    scopes: Option<Set<Seq<char>>>,
    args: AskArgsView,
    state: AskStateView,
    reply: Result<HttpReplyView, Seq<char>>,
)
    requires
        asks_provider(config, scopes, state),
    ensures
        ask_keeps_to_provider(config, scopes, ask_start(config, scopes, args)),
        ask_keeps_to_provider(config, scopes, ask_next(config, scopes, state, reply)),
{
    a_listing_keeps_to_its_provider(config, scopes);
    match state {
        AskStateView::Resolving { listing, .. } => {
            assert(keeps_to_provider(config, scopes, listing_next(listing, reply)));
        },
        AskStateView::FallingBack { listing, .. } => {
            assert(keeps_to_provider(config, scopes, listing_next(listing, reply)));
        },
        _ => {},
    }
}

// ---- what a server is asked --------------------------------------------------------

/// The prompt that a request brings: the one given, or else the piped content.
pub open spec fn prompt_of(args: AskArgsView) -> Option<Seq<char>> {
    match args.prompt {
        Some(prompt) => Some(prompt),
        None => args.content,
    }
}

/// Whether a value is a chat message of a role with a text, and nothing else.
pub open spec fn is_message(value: JsonView, role: Seq<char>, text: Seq<char>) -> bool {
    &&& value matches JsonView::Object(members)
    &&& members.dom() == set!["role"@, "content"@]
    &&& members["role"@] == JsonView::Text(role)
    &&& members["content"@] == JsonView::Text(text)
}

/// Whether a list is the messages of a request: the prompt as the user's last word, and
/// before it the system prompt, if there is one, and nothing else.
pub open spec fn says_what_is_asked(list: Seq<JsonView>, args: AskArgsView) -> bool {
    &&& prompt_of(args) matches Some(prompt) && list.len() > 0 && is_message(
        list.last(),
        "user"@,
        prompt,
    )
    &&& match args.system {
        Some(system) => list.len() == 2 && is_message(list[0], "system"@, system),
        None => list.len() == 1,
    }
}

/// Whether the members of a body ask a model what the request asks: the model, the messages,
/// no streaming, the temperature where one is given, a limit of tokens where one is given as
/// a number, and nothing else.
pub open spec fn asks_in_full(
    members: Map<Seq<char>, JsonView>,
    args: AskArgsView,
    model: Seq<char>,
) -> bool {
    &&& members.contains_key("model"@) && members["model"@] == JsonView::Text(model)
    &&& members.contains_key("messages"@)
    &&& members["messages"@] matches JsonView::List(list) && says_what_is_asked(list, args)
    &&& members.contains_key("stream"@) && members["stream"@] == JsonView::Bool(false)
    &&& match args.temperature {
        Some(value) => members.contains_key("temperature"@) && members["temperature"@] == value,
        None => !members.contains_key("temperature"@),
    }
    &&& if args.max_tokens is Some && natural_in(args.max_tokens->0) is Some {
        members.contains_key("max_tokens"@) && members["max_tokens"@] == JsonView::Natural(
            natural_in(args.max_tokens->0)->0,
        )
    } else {
        !members.contains_key("max_tokens"@)
    }
    &&& members.dom().subset_of(
        set!["model"@, "messages"@, "stream"@, "temperature"@, "max_tokens"@],
    )
}

/// Whether a call asks a model what a request asks, with the provider's key if it has one.
pub open spec fn asks_model(
    call: HttpCallView,
    config: OpenAiConfigView,
    args: AskArgsView,
    model: Seq<char>,
) -> bool {
    &&& call.method == Method::Post
    &&& call.headers.contains(("Content-Type"@, "application/json"@))
    &&& match config.api_key {
        Some(key) => call.headers.len() == 2 && call.headers.contains(
            ("Authorization"@, "Bearer "@ + key),
        ),
        None => call.headers.len() == 1,
    }
    &&& exists|members: Map<Seq<char>, JsonView>|
        call.body == json_bytes(JsonView::Object(members)) && #[trigger] asks_in_full(
            members,
            args,
            model,
        )
}

proof fn a_message_is_one(role: Seq<char>, text: Seq<char>)
    ensures
        is_message(message(role, text), role, text),
{
    reveal_strlit("role");
    reveal_strlit("content");
    assert("role"@.len() == 4 && "content"@.len() == 7);
    assert(message(role, text)->Object_0.dom() =~= set!["role"@, "content"@]);
}

proof fn a_chat_call_asks_its_model(
    config: OpenAiConfigView,
    request: ChatRequestView,
    model: Seq<char>,
)
    requires
        prompt_of(request.args) == Some(request.prompt),
    ensures
        asks_model(chat_call(config, request, model), config, request.args, model),
{
    let args = request.args;
    let call = chat_call(config, request, model);
    let members = payload(request, model)->Object_0;
    a_message_is_one("user"@, request.prompt);
    if let Some(system) = args.system {
        a_message_is_one("system"@, system);
    }
    reveal_strlit("model");
    reveal_strlit("messages");
    reveal_strlit("stream");
    reveal_strlit("temperature");
    reveal_strlit("max_tokens");
    assert("model"@.len() == 5 && "messages"@.len() == 8 && "stream"@.len() == 6
        && "temperature"@.len() == 11 && "max_tokens"@.len() == 10);
    assert(members["messages"@] == JsonView::List(messages(request)));
    assert(says_what_is_asked(messages(request), args));
    assert(asks_in_full(members, args, model));
    assert(call.headers[0] == ("Content-Type"@, "application/json"@));
    if let Some(key) = config.api_key {
        assert(call.headers[1] == ("Authorization"@, "Bearer "@ + key));
    }
}

/// Whether a state is one of answering a request: it holds the prompt and the arguments that
/// the request brought.
pub open spec fn answers(state: AskStateView, args: AskArgsView) -> bool {
    let request = match state {
        AskStateView::Resolving { request, .. } => request,
        AskStateView::Sent { request, .. } => request,
        AskStateView::FallingBack { request, .. } => request,
        AskStateView::Retried { request, .. } => request,
    };
    request.args == args && prompt_of(args) == Some(request.prompt)
}

/// Whether a step, where it asks a model, asks it what the request asks.
pub open spec fn asks_what_is_asked(
    step: AskStepView,
    config: OpenAiConfigView,
    args: AskArgsView,
) -> bool {
    step matches AskStepView::Send { call, state } ==> {
        &&& answers(state, args)
        &&& state matches AskStateView::Sent { model, .. } ==> asks_model(
            call,
            config,
            args,
            model,
        )
        &&& state is Retried ==> exists|model: Seq<char>| #[trigger]
            asks_model(call, config, args, model)
    }
}

/// Whoever is asked, is asked what the request asks: every request that may be sent to a
/// model brings the prompt given, or else the piped content, as the user's last word, behind
/// the system prompt if there is one.
pub proof fn a_model_is_asked_what_is_asked(
    backend: &OpenAiBackend,
    capability: &ikigai_core::Capability,
    args: AskArgs,
    first: AskStep,
    state: AskState,
    reply: Result<HttpReply, String>,
    next: AskStep,
)
    requires
        call_ensures(OpenAiBackend::ask, (backend, capability, args), first),
        call_ensures(OpenAiBackend::resume, (backend, capability, state, reply), next),
        answers(state@, args@),
    ensures
        asks_what_is_asked(first@, backend@, args@),
        asks_what_is_asked(next@, backend@, args@),
{
    let config = backend@;
    let scopes = scopes_of(*capability);
    assert forall|request: ChatRequestView, model: Seq<char>|
        request.args == args@ && prompt_of(args@) == Some(
            request.prompt,
        ) implies #[trigger] asks_model(
        chat_call(config, request, model),
        config,
        args@,
        model,
    ) by {
        a_chat_call_asks_its_model(config, request, model);
    }
    let listing = match state@ {
        AskStateView::Sent { .. } => listing_start(listing_plan(config, scopes)),
        AskStateView::FallingBack { listing, .. } => listing_next(listing, reply_view(reply)),
        _ => ListingStepView::Done(Ok(Seq::empty())),
    };
    if let ListingStepView::Done(models) = listing {
        if let Some(first) = fallback_model(models) {
            let request = match state@ {
                AskStateView::Resolving { request, .. } => request,
                AskStateView::Sent { request, .. } => request,
                AskStateView::FallingBack { request, .. } => request,
                AskStateView::Retried { request, .. } => request,
            };
            assert(asks_model(chat_call(config, request, first), config, args@, first));
        }
    }
}

/// Which model is asked: the one the request names, or else the one the provider pins, at
/// once; a request without a prompt, or that the capability does not let through, asks none.
pub proof fn the_named_model_is_asked_first(
    backend: &OpenAiBackend,
    capability: &ikigai_core::Capability,
    args: AskArgs,
    first: AskStep,
)
    requires
        call_ensures(OpenAiBackend::ask, (backend, capability, args), first),
    ensures
        ({
            let may = reach(
                scopes_of(*capability),
                backend@.base_url,
                "chat/completions"@,
                "urn:llm:"@ + backend@.provider + ":ask"@,
            );
            let model = match args@.model {
                Some(model) => Some(model),
                None => backend@.default_model,
            };
            &&& may matches Err(error) ==> first@ == AskStepView::Done(Err(error))
            &&& may is Ok && prompt_of(args@) is None ==> first@ == AskStepView::Done(
                Err(ErrorView::MissingArgument("prompt"@)),
            )
            &&& may is Ok && prompt_of(args@) is Some && model is Some ==> {
                &&& first@ matches AskStepView::Send { call, state }
                &&& call.url == may->Ok_0
                &&& state matches AskStateView::Sent { model: asked, .. }
                &&& Some(asked) == model
            }
        }),
{
}

/// The item at a place of a list; `Null` where there is none.
pub open spec fn nth(value: JsonView, place: int) -> JsonView {
    match value {
        JsonView::List(items) if 0 <= place < items.len() => items[place],
        _ => JsonView::Null,
    }
}

/// The text that a server's completion brings, if it brings one.
pub open spec fn completion_in(content: JsonView) -> Option<Seq<char>> {
    match held(held(nth(held(content, "choices"@), 0), "message"@), "content"@) {
        JsonView::Text(text) => Some(text),
        _ => None,
    }
}

/// Whether the members of an object are the envelope of a completion: its text, the model
/// that the server names or else the one asked, why it finished and what it used.
pub open spec fn envelops(
    members: Map<Seq<char>, JsonView>,
    content: JsonView,
    text: Seq<char>,
    model: Seq<char>,
) -> bool {
    &&& members.dom() == set!["text"@, "model"@, "finish_reason"@, "usage"@]
    &&& members["text"@] == JsonView::Text(text)
    &&& members["model"@] == (match held(content, "model"@) {
        JsonView::Text(named) => JsonView::Text(named),
        _ => JsonView::Text(model),
    })
    &&& members["finish_reason"@] == (match held(nth(held(content, "choices"@), 0), "finish_reason"@) {
        JsonView::Text(reason) => JsonView::Text(reason),
        _ => JsonView::Null,
    })
    &&& members["usage"@] == held(content, "usage"@)
}

/// What a completion is answered by: its text verbatim, or the envelope where JSON is asked
/// for, never cacheable; an error status, a body that is no JSON and one without a text are
/// errors, the first with the status and the body.
pub proof fn a_completion_is_answered_verbatim(
    form: &Option<String>,
    model: &str,
    reply: &HttpReply,
    answer: Result<Answer, Error>,
)
    requires
        call_ensures(read_answer, (form, model, reply), answer),
    ensures
        match (json_in(reply@.body), answer_view(answer)) {
            (Ok(content), Ok(answer)) => {
                &&& reply@.status < 400
                &&& !answer.cacheable
                &&& completion_in(content) matches Some(text)
                &&& if asks_form(
                    form.deep_view(),
                    "json"@,
                ) {
                    answer.media == "application/json"@ && exists|
                        members: Map<Seq<char>, JsonView>,
                    |
                        answer.body == json_bytes(JsonView::Object(members)) && #[trigger] envelops(
                            members,
                            content,
                            text,
                            model@,
                        )
                } else {
                    answer.media == "text/plain"@ && answer.body == encode_utf8(text)
                }
            },
            (Ok(content), Err(_)) => reply@.status >= 400 || completion_in(content) is None,
            (Err(_), answer) => answer is Err,
        },
        reply@.status >= 400 ==> answer_view(answer) == Err::<AnswerView, ErrorView>(
            ErrorView::Endpoint(
                "llm backend returned "@ + decimal(reply@.status as nat) + ": "@ + lossy_text(
                    reply@.body,
                ),
            ),
        ),
{
    if let Ok(content) = json_in(reply@.body) {
        if let Some(text) = completion_in(content) {
            an_envelope_is_one(content, text, model@);
        }
    }
}

proof fn an_envelope_is_one(content: JsonView, text: Seq<char>, model: Seq<char>)
    ensures
        envelope(content, text, model) matches JsonView::Object(members) && envelops(
            members,
            content,
            text,
            model,
        ),
{
    reveal_strlit("text");
    reveal_strlit("model");
    reveal_strlit("finish_reason");
    reveal_strlit("usage");
    assert("text"@.len() == 4 && "model"@.len() == 5 && "finish_reason"@.len() == 13
        && "usage"@.len() == 5 && "model"@[0] == 'm' && "usage"@[0] == 'u');
    assert(envelope(content, text, model)->Object_0.dom() =~= set![
        "text"@,
        "model"@,
        "finish_reason"@,
        "usage"@,
    ]);
}

/// A reply carries asking on: from where it stood, with what the server answered, it comes
/// to the end it was coming to.
pub proof fn a_reply_carries_asking_on(
    backend: &OpenAiBackend,
    capability: &ikigai_core::Capability,
    call: HttpCallView,
    state: AskState,
    reply: Result<HttpReply, String>,
    next: AskStep,
    server: Server,
    at: nat,
)
    requires
        call_ensures(OpenAiBackend::resume, (backend, capability, state, reply), next),
        server(at, call) == reply_view(reply),
    ensures
        ask_run(
            AskStepView::Send { call, state: state@ },
            backend@,
            scopes_of(*capability),
            server,
            at,
        ) == ask_run(next@, backend@, scopes_of(*capability), server, at + 1),
{
}

/// What a model answers is the answer: once a model is asked, its reply is answered, unless
/// the server does not know the model and nobody named it; then the first installed model
/// that can chat is asked the same, if it is another one, and its reply is answered.
pub proof fn the_reply_is_the_answer(
    config: OpenAiConfigView,
    scopes: Option<Set<Seq<char>>>,
    request: ChatRequestView,
    call: HttpCallView,
    model: Seq<char>,
    server: Server,
    at: nat,
)
    requires
        prompt_of(request.args) == Some(request.prompt),
    ensures
        ({
            let end = ask_run(
                AskStepView::Send { call, state: AskStateView::Sent { request, model } },
                config,
                scopes,
                server,
                at,
            );
            let (listing, after) = listing_run(
                listing_start(listing_plan(config, scopes)),
                server,
                at + 1,
            );
            match server(at, call) {
                Err(message) => end == Err::<AnswerView, ErrorView>(
                    ErrorView::Endpoint("llm transport error: "@ + message),
                ),
                Ok(reply) => if reply.status != 404 || request.args.model is Some {
                    end == answer_from(request.args.form, model, reply)
                } else {
                    ||| end == answer_from(request.args.form, model, reply) && (listing matches Ok(
                        models,
                    ) ==> forall|place: int|
                        #![trigger models[place]]
                        is_first_to_chat(models, place) ==> models[place].model == model)
                    ||| listing matches Ok(models) && exists|place: int, retry: HttpCallView|
                        #![trigger models[place], asks_model(
                            retry,
                            config,
                            request.args,
                            models[place].model,
                        )]
                        is_first_to_chat(models, place) && models[place].model != model
                            && asks_model(retry, config, request.args, models[place].model)
                            && retry.url == request.url && end == (match server(after, retry) {
                            Ok(reply) => answer_from(request.args.form, model, reply),
                            Err(message) => Err(
                                ErrorView::Endpoint("llm transport error: "@ + message),
                            ),
                        })
                },
            }
        }),
{
    let plan = listing_plan(config, scopes);
    let state = AskStateView::Sent { request, model };
    let reply = server(at, call);
    let next = ask_next(config, scopes, state, reply);
    let step = AskStepView::Send { call, state };
    assert(ask_run(step, config, scopes, server, at) == ask_run(
        next,
        config,
        scopes,
        server,
        at + 1,
    ));
    if reply is Ok && reply->Ok_0.status == 404 && request.args.model is None {
        falling_back_runs(
            config,
            scopes,
            request,
            model,
            reply->Ok_0,
            listing_start(plan),
            server,
            at + 1,
        );
        let (listing, after) = listing_run(listing_start(plan), server, at + 1);
        if let Ok(models) = listing {
            the_first_supporting_is_the_first(models, "completion"@);
            if let Some(place) = first_supporting(models, "completion"@) {
                assert(is_first_to_chat(models, place));
                let retry = chat_call(config, request, models[place].model);
                a_chat_call_asks_its_model(config, request, models[place].model);
                assert(asks_model(retry, config, request.args, models[place].model));
                assert forall|other: int|
                    #![trigger models[other]]
                    is_first_to_chat(models, other) implies other == place by {
                    assert(models[place] == models[place]);
                }
            }
        }
    }
}

/// A request to a model is labelled with the model, the provider and its tier, if it
/// declares one; nothing else is labelled.
pub proof fn what_is_asked_is_labelled(
    backend: &OpenAiBackend,
    state: &AskState,
    notes: Vec<(String, String)>,
)
    requires
        call_ensures(OpenAiBackend::notes, (backend, state), notes),
    ensures
        ({
            let labels = pairs_view(notes@);
            match state@ {
                AskStateView::Sent { model, .. } => {
                    &&& labels.contains(("model"@, model))
                    &&& labels.contains(("provider"@, backend@.provider))
                    &&& match backend@.caps.cost {
                        Some(cost) => labels.len() == 3 && labels.contains(("cost"@, cost)),
                        None => labels.len() == 2,
                    }
                },
                _ => labels.len() == 0,
            }
        }),
{
    let list = labels(backend@, state@);
    if let AskStateView::Sent { model, .. } = state@ {
        assert(list[0] == ("model"@, model));
        assert(list[1] == ("provider"@, backend@.provider));
        if let Some(cost) = backend@.caps.cost {
            assert(list[2] == ("cost"@, cost));
        }
    }
}

/// Where neither the request names a model nor the provider pins one, the server is asked
/// what it serves, and the first of that which can chat is the model asked; without one, or
/// without a listing, the answer is an error.
pub proof fn a_discovered_model_is_the_one_asked(
    backend: &OpenAiBackend,
    capability: &ikigai_core::Capability,
    args: AskArgs,
    first: AskStep,
    state: AskState,
    request: ChatRequestView,
    listing: ListingStateView,
    reply: Result<HttpReply, String>,
    next: AskStep,
)
    requires
        call_ensures(OpenAiBackend::ask, (backend, capability, args), first),
        call_ensures(OpenAiBackend::resume, (backend, capability, state, reply), next),
        state@ == (AskStateView::Resolving { request, listing }),
    ensures
        is_looking(next@, request, listing_next(listing, reply_view(reply))),
        ({
            let scopes = scopes_of(*capability);
            let may = reach(
                scopes,
                backend@.base_url,
                "chat/completions"@,
                "urn:llm:"@ + backend@.provider + ":ask"@,
            );
            may is Ok && prompt_of(args@) is Some && args@.model is None && backend@.default_model
                is None ==> is_looking(
                first@,
                ChatRequestView { url: may->Ok_0, prompt: prompt_of(args@)->0, args: args@ },
                listing_start(listing_plan(backend@, scopes)),
            )
        }),
{
    let scopes = scopes_of(*capability);
    let plan = listing_plan(backend@, scopes);
    if let ListingStepView::Done(Ok(models)) = listing_start(plan) {
        the_first_supporting_is_the_first(models, "completion"@);
        if let Some(place) = first_supporting(models, "completion"@) {
            assert(is_first_to_chat(models, place));
        }
    }
    if let ListingStepView::Done(Ok(models)) = listing_next(listing, reply_view(reply)) {
        the_first_supporting_is_the_first(models, "completion"@);
        if let Some(place) = first_supporting(models, "completion"@) {
            assert(is_first_to_chat(models, place));
        }
    }
}

/// Whether a step goes by a step of listing what the server serves: its requests are sent,
/// and at its end the first model that can chat is asked, or the answer is an error.
pub open spec fn is_looking(
    step: AskStepView,
    request: ChatRequestView,
    listing: ListingStepView,
) -> bool {
    match listing {
        ListingStepView::Send { call, state } => step == (AskStepView::Send {
            call,
            state: AskStateView::Resolving { request, listing: state },
        }),
        ListingStepView::Done(Ok(models)) => match step {
            AskStepView::Send { call, state } => exists|place: int| #[trigger]
                is_first_to_chat(models, place) && call.url == request.url && state == (
                AskStateView::Sent { request, model: models[place].model }),
            AskStepView::Done(answer) => answer is Err && forall|place: int|
                !#[trigger] is_first_to_chat(models, place),
        },
        ListingStepView::Done(Err(_)) => step matches AskStepView::Done(answer) && answer is Err,
    }
}

} // verus!
