//! What the resources say of themselves: their labels, what they take and give, and the
//! capability they need.

use crate::backend::OpenAiBackend;
use crate::inventory::{ConfigEndpoint, ModelsEndpoint};
use crate::live::{InstalledEndpoint, ModelEndpoint, UpEndpoint};
use crate::routing::{AskFacade, SelectEndpoint};
use vstd::prelude::*;
use vstd::string::*;

verus! {

/// What can be done with a resource.
#[derive(Clone, Copy, Debug, PartialEq, Eq, Structural)]
pub enum Verb {
    Source,
    Meta,
}

/// One argument.
#[derive(Debug, PartialEq, Eq)]
pub struct Input {
    pub name: String,
    pub summary: String,
    pub optional: bool,
}

/// [`Input`] over sequences of characters.
#[verifier::ext_equal]
pub struct InputView {
    pub name: Seq<char>,
    pub summary: Seq<char>,
    pub optional: bool,
}

impl View for Input {
    type V = InputView;

    open spec fn view(&self) -> InputView {
        InputView { name: self.name@, summary: self.summary@, optional: self.optional }
    }
}

impl DeepView for Input {
    type V = InputView;

    open spec fn deep_view(&self) -> InputView {
        self@
    }
}

/// A resource's description of itself. The id is a label, and not the IRI it is bound to.
#[derive(Debug, PartialEq, Eq)]
pub struct Description {
    pub id: String,
    pub summary: String,
    pub verbs: Vec<Verb>,
    pub inputs: Vec<Input>,
    pub output: String,
    /// Whether the network has to be reached, so that [`CAP_NET`] is required.
    pub needs_net: bool,
}

/// [`Description`] over sequences.
#[verifier::ext_equal]
pub struct DescriptionView {
    pub id: Seq<char>,
    pub summary: Seq<char>,
    pub verbs: Seq<Verb>,
    pub inputs: Seq<InputView>,
    pub output: Seq<char>,
    pub needs_net: bool,
}

impl View for Description {
    type V = DescriptionView;

    open spec fn view(&self) -> DescriptionView {
        DescriptionView {
            id: self.id@,
            summary: self.summary@,
            verbs: self.verbs@,
            inputs: self.inputs.deep_view(),
            output: self.output@,
            needs_net: self.needs_net,
        }
    }
}

/// The capability that every request to a provider requires: reaching a server, even on
/// this machine, is a network act. This is the wildcard form, a grant of any host at all;
/// whether it is a grant of the right host is settled request by request.
pub const CAP_NET: &'static str = "urn:cap:net:*";

impl Description {
    /// The capabilities required.
    pub fn requires_caps(&self) -> (caps: Vec<String>)
        ensures
            caps.deep_view() == (if self@.needs_net {
                seq![CAP_NET@]
            } else {
                Seq::empty()
            }),
    {
        let mut caps: Vec<String> = Vec::new();
        if self.needs_net {
            caps.push(CAP_NET.to_owned());
        }
        assert(caps.deep_view() =~= (if self@.needs_net {
            seq![CAP_NET@]
        } else {
            Seq::empty()
        }));
        caps
    }
}

fn input(name: &str, summary: &str, optional: bool) -> (made: Input)
    ensures
        made@ == (InputView { name: name@, summary: summary@, optional }),
{
    Input { name: name.to_owned(), summary: summary.to_owned(), optional }
}

/// The label of one of a provider's resources.
pub open spec fn provider_label(provider: Seq<char>, kind: Seq<char>) -> Seq<char> {
    "llm-"@ + provider + "-"@ + kind
}

fn label(provider: &str, kind: &str) -> (text: String)
    ensures
        text@ == provider_label(provider@, kind@),
{
    let mut text = "llm-".to_owned();
    text.append(provider);
    text.append("-");
    text.append(kind);
    text
}

fn source_and_meta() -> (verbs: Vec<Verb>)
    ensures
        verbs@ == seq![Verb::Source, Verb::Meta],
{
    let mut verbs: Vec<Verb> = Vec::new();
    verbs.push(Verb::Source);
    verbs.push(Verb::Meta);
    assert(verbs@ =~= seq![Verb::Source, Verb::Meta]);
    verbs
}

// ---- asking ------------------------------------------------------------------------

/// The arguments that the facade and the backends share.
pub open spec fn ask_inputs() -> Seq<InputView> {
    seq![
        InputView {
            name: "prompt"@,
            summary: "the user prompt (or pipe it in as content)"@,
            optional: false,
        },
        InputView {
            name: "model"@,
            summary: "model name (default: the backend's)"@,
            optional: true,
        },
        InputView { name: "system"@, summary: "system prompt"@, optional: true },
        InputView { name: "temperature"@, summary: "sampling temperature"@, optional: true },
        InputView { name: "max_tokens"@, summary: "maximum tokens to generate"@, optional: true },
        InputView {
            name: "as"@,
            summary:
                "application/json for a {text,model,usage} envelope; default text/plain"@,
            optional: true,
        },
    ]
}

/// The description that the facade and the backends share.
pub open spec fn ask_description(id: Seq<char>, summary: Seq<char>) -> DescriptionView {
    DescriptionView {
        id,
        summary,
        verbs: seq![Verb::Source],
        inputs: ask_inputs(),
        output: "text/plain;charset=utf-8"@,
        needs_net: true,
    }
}

fn describe_ask(id: String, summary: &str) -> (description: Description)
    ensures
        description@ == ask_description(id@, summary@),
{
    let mut inputs: Vec<Input> = Vec::new();
    inputs.push(input("prompt", "the user prompt (or pipe it in as content)", false));
    inputs.push(input("model", "model name (default: the backend's)", true));
    inputs.push(input("system", "system prompt", true));
    inputs.push(input("temperature", "sampling temperature", true));
    inputs.push(input("max_tokens", "maximum tokens to generate", true));
    inputs.push(
        input(
            "as",
            "application/json for a {text,model,usage} envelope; default text/plain",
            true,
        ),
    );
    assert(inputs.deep_view() =~= ask_inputs());
    let mut verbs: Vec<Verb> = Vec::new();
    verbs.push(Verb::Source);
    assert(verbs@ =~= seq![Verb::Source]);
    Description {
        id,
        summary: summary.to_owned(),
        verbs,
        inputs,
        output: "text/plain;charset=utf-8".to_owned(),
        needs_net: true,
    }
}

/// What the facade says of itself.
pub open spec fn facade_description() -> DescriptionView {
    let shared = ask_description(
        "llm-ask"@,
        "Ask an LLM: route to a backend (provider=, else needs= resolved over the trait profiles, else the configured default) and return the completion."@,
    );
    DescriptionView {
        inputs: shared.inputs.push(
            InputView {
                name: "provider"@,
                summary: "backend to route to, e.g. ollama (default: configured)"@,
                optional: true,
            },
        ).push(
            InputView {
                name: "needs"@,
                summary: "capability requirements, e.g. \"vision, ctx>=32k, cost<=cheap\""@,
                optional: true,
            },
        ),
        ..shared
    }
}

impl AskFacade {
    /// What the facade says of itself.
    pub fn describe(&self) -> (description: Description)
        ensures
            description@ == facade_description(),
    {
        let mut description = describe_ask(
            "llm-ask".to_owned(),
            "Ask an LLM: route to a backend (provider=, else needs= resolved over the trait profiles, else the configured default) and return the completion.",
        );
        let ghost shared = description.inputs.deep_view();
        let provider = input(
            "provider",
            "backend to route to, e.g. ollama (default: configured)",
            true,
        );
        let needs = input(
            "needs",
            "capability requirements, e.g. \"vision, ctx>=32k, cost<=cheap\"",
            true,
        );
        description.inputs.push(provider);
        description.inputs.push(needs);
        assert(description.inputs.deep_view() =~= shared.push(provider@).push(needs@));
        description
    }
}

/// What a backend says of itself.
pub open spec fn backend_description(provider: Seq<char>) -> DescriptionView {
    ask_description(
        provider_label(provider, "ask"@),
        "Chat completion via an OpenAI-compatible backend (Ollama/vLLM/llama.cpp/mlx_lm/LM Studio)."@,
    )
}

impl OpenAiBackend {
    /// What the backend says of itself.
    pub fn describe(&self) -> (description: Description)
        ensures
            description@ == backend_description(self@.provider),
    {
        describe_ask(
            label(self.config.provider.as_str(), "ask"),
            "Chat completion via an OpenAI-compatible backend (Ollama/vLLM/llama.cpp/mlx_lm/LM Studio).",
        )
    }
}

// ---- the registry ------------------------------------------------------------------

/// What `urn:llm:config` says of itself.
pub open spec fn config_description() -> DescriptionView {
    DescriptionView {
        id: "llm-config"@,
        summary:
            "The effective LLM provider registry (default + configured backends; API keys redacted)."@,
        verbs: seq![Verb::Source, Verb::Meta],
        inputs: Seq::empty(),
        output: "application/json"@,
        needs_net: false,
    }
}

impl ConfigEndpoint {
    /// What the resource says of itself.
    pub fn describe(&self) -> (description: Description)
        ensures
            description@ == config_description(),
    {
        let inputs: Vec<Input> = Vec::new();
        assert(inputs.deep_view() =~= Seq::<InputView>::empty());
        Description {
            id: "llm-config".to_owned(),
            summary:
                "The effective LLM provider registry (default + configured backends; API keys redacted).".to_owned(),
            verbs: source_and_meta(),
            inputs,
            output: "application/json".to_owned(),
            needs_net: false,
        }
    }
}

/// What `urn:llm:models` says of itself.
pub open spec fn models_description() -> DescriptionView {
    DescriptionView {
        id: "llm-models"@,
        summary:
            "The annotated model inventory: every configured backend with its model and declared capability profile (context, modalities, tools, cost). JSON by default; `as=text/turtle` renders the queryable trait graph."@,
        verbs: seq![Verb::Source, Verb::Meta],
        inputs: seq![
            InputView {
                name: "as"@,
                summary: "output representation: application/json (default) or text/turtle"@,
                optional: true,
            },
        ],
        output: "application/json"@,
        needs_net: false,
    }
}

impl ModelsEndpoint {
    /// What the resource says of itself.
    pub fn describe(&self) -> (description: Description)
        ensures
            description@ == models_description(),
    {
        let mut inputs: Vec<Input> = Vec::new();
        inputs.push(
            input(
                "as",
                "output representation: application/json (default) or text/turtle",
                true,
            ),
        );
        assert(inputs.deep_view() =~= models_description().inputs);
        Description {
            id: "llm-models".to_owned(),
            summary:
                "The annotated model inventory: every configured backend with its model and declared capability profile (context, modalities, tools, cost). JSON by default; `as=text/turtle` renders the queryable trait graph.".to_owned(),
            verbs: source_and_meta(),
            inputs,
            output: "application/json".to_owned(),
            needs_net: false,
        }
    }
}

/// What `urn:llm:select` says of itself.
pub open spec fn select_description() -> DescriptionView {
    DescriptionView {
        id: "llm-select"@,
        summary:
            "Capability-based selection: resolve `needs` (e.g. \"vision, ctx>=32k, cost<=cheap\") over the declared trait profiles and return the winning backend IRI. Policy: cheapest-that-fits, then smallest context, then registry order."@,
        verbs: seq![Verb::Source, Verb::Meta],
        inputs: seq![
            InputView {
                name: "needs"@,
                summary:
                    "comma-separated requirements: ctx>=N[k] · cost<=tier · cost=tier · modality=X (or bare text/vision/audio) · tools · json · vendor=X · vendor!=X (governance: e.g. no openai) · provider=name · provider!=name · batchAt<=N (load shape)"@,
                optional: false,
            },
            InputView {
                name: "as"@,
                summary: "text/plain backend IRI (default) or application/json detail"@,
                optional: true,
            },
        ],
        output: "text/plain;charset=utf-8"@,
        needs_net: false,
    }
}

impl SelectEndpoint {
    /// What the resource says of itself.
    pub fn describe(&self) -> (description: Description)
        ensures
            description@ == select_description(),
    {
        let mut inputs: Vec<Input> = Vec::new();
        inputs.push(
            input(
                "needs",
                "comma-separated requirements: ctx>=N[k] · cost<=tier · cost=tier · modality=X (or bare text/vision/audio) · tools · json · vendor=X · vendor!=X (governance: e.g. no openai) · provider=name · provider!=name · batchAt<=N (load shape)",
                false,
            ),
        );
        inputs.push(
            input("as", "text/plain backend IRI (default) or application/json detail", true),
        );
        assert(inputs.deep_view() =~= select_description().inputs);
        Description {
            id: "llm-select".to_owned(),
            summary:
                "Capability-based selection: resolve `needs` (e.g. \"vision, ctx>=32k, cost<=cheap\") over the declared trait profiles and return the winning backend IRI. Policy: cheapest-that-fits, then smallest context, then registry order.".to_owned(),
            verbs: source_and_meta(),
            inputs,
            output: "text/plain;charset=utf-8".to_owned(),
            needs_net: false,
        }
    }
}

// ---- one provider ------------------------------------------------------------------

/// What `urn:llm:<provider>:model` says of itself. Only the form that asks the server
/// reaches the network, so only that one declares the capability for it.
pub open spec fn model_description(provider: Seq<char>, pinned: bool) -> DescriptionView {
    DescriptionView {
        id: provider_label(provider, "model"@),
        summary: if pinned {
            "The provider's configured model id, verbatim (text/plain) — the cheap identity face for consumers folding true model identity into derived artifacts (archive version tags, provenance labels) without pulling the whole urn:llm:config registry. No network; cacheable."@
        } else {
            "The model this provider's SERVER is serving right now (text/plain) — this provider pinned no model, so the discovered id is the only honest identity. Probes the backend; uncacheable."@
        },
        verbs: seq![Verb::Source, Verb::Meta],
        inputs: Seq::empty(),
        output: "text/plain;charset=utf-8"@,
        needs_net: !pinned,
    }
}

impl ModelEndpoint {
    /// What the resource says of itself.
    pub fn describe(&self) -> (description: Description)
        ensures
            description@ == model_description(self@.provider, self@.default_model is Some),
    {
        let pinned = self.config.default_model.is_some();
        let summary = if pinned {
            "The provider's configured model id, verbatim (text/plain) — the cheap identity face for consumers folding true model identity into derived artifacts (archive version tags, provenance labels) without pulling the whole urn:llm:config registry. No network; cacheable."
        } else {
            "The model this provider's SERVER is serving right now (text/plain) — this provider pinned no model, so the discovered id is the only honest identity. Probes the backend; uncacheable."
        };
        let inputs: Vec<Input> = Vec::new();
        assert(inputs.deep_view() =~= Seq::<InputView>::empty());
        Description {
            id: label(self.config.provider.as_str(), "model"),
            summary: summary.to_owned(),
            verbs: source_and_meta(),
            inputs,
            output: "text/plain;charset=utf-8".to_owned(),
            needs_net: !pinned,
        }
    }
}

/// What `urn:llm:<provider>:installed` says of itself.
pub open spec fn installed_description(provider: Seq<char>) -> DescriptionView {
    DescriptionView {
        id: provider_label(provider, "installed"@),
        summary:
            "The models the provider can actually serve right now (newline list; as=application/json for an array). Live fact — uncacheable. The complement of urn:llm:models: configured vs installed."@,
        verbs: seq![Verb::Source, Verb::Meta],
        inputs: seq![
            InputView {
                name: "as"@,
                summary: "text/plain newline list (default) or application/json"@,
                optional: true,
            },
            InputView {
                name: "supports"@,
                summary:
                    "keep only models with this capability (completion, embedding, tools, …); models whose capabilities are unknown always pass"@,
                optional: true,
            },
        ],
        output: "text/plain;charset=utf-8"@,
        needs_net: true,
    }
}

impl InstalledEndpoint {
    /// What the resource says of itself.
    pub fn describe(&self) -> (description: Description)
        ensures
            description@ == installed_description(self@.provider),
    {
        let mut inputs: Vec<Input> = Vec::new();
        inputs.push(input("as", "text/plain newline list (default) or application/json", true));
        inputs.push(
            input(
                "supports",
                "keep only models with this capability (completion, embedding, tools, …); models whose capabilities are unknown always pass",
                true,
            ),
        );
        assert(inputs.deep_view() =~= installed_description(self@.provider).inputs);
        Description {
            id: label(self.config.provider.as_str(), "installed"),
            summary:
                "The models the provider can actually serve right now (newline list; as=application/json for an array). Live fact — uncacheable. The complement of urn:llm:models: configured vs installed.".to_owned(),
            verbs: source_and_meta(),
            inputs,
            output: "text/plain;charset=utf-8".to_owned(),
            needs_net: true,
        }
    }
}

/// What `urn:llm:<provider>:up` says of itself.
pub open spec fn up_description(provider: Seq<char>) -> DescriptionView {
    DescriptionView {
        id: provider_label(provider, "up"@),
        summary:
            "Boolean liveness: `true` if the provider answers a cheap GET, else `false`. Branch on it with urn:fn:conditional to degrade gracefully."@,
        verbs: seq![Verb::Source, Verb::Meta],
        inputs: Seq::empty(),
        output: "text/plain;charset=utf-8"@,
        needs_net: true,
    }
}

impl UpEndpoint {
    /// What the resource says of itself.
    pub fn describe(&self) -> (description: Description)
        ensures
            description@ == up_description(self@.provider),
    {
        let inputs: Vec<Input> = Vec::new();
        assert(inputs.deep_view() =~= Seq::<InputView>::empty());
        Description {
            id: label(self.config.provider.as_str(), "up"),
            summary:
                "Boolean liveness: `true` if the provider answers a cheap GET, else `false`. Branch on it with urn:fn:conditional to degrade gracefully.".to_owned(),
            verbs: source_and_meta(),
            inputs,
            output: "text/plain;charset=utf-8".to_owned(),
            needs_net: true,
        }
    }
}

/// A description's id is a label, whatever the provider is called: it does not begin as an
/// IRI of this library does.
pub proof fn ids_are_labels(provider: Seq<char>, kind: Seq<char>)
    ensures
        !"urn:"@.is_prefix_of(provider_label(provider, kind)),
        !"urn:"@.is_prefix_of(facade_description().id),
        !"urn:"@.is_prefix_of(config_description().id),
        !"urn:"@.is_prefix_of(models_description().id),
        !"urn:"@.is_prefix_of(select_description().id),
{
    reveal_strlit("urn:");
    reveal_strlit("llm-");
    reveal_strlit("llm-ask");
    reveal_strlit("llm-config");
    reveal_strlit("llm-models");
    reveal_strlit("llm-select");
    assert("urn:"@[0] == 'u');
    assert(provider_label(provider, kind)[0] == "llm-"@[0]);
}

/// Whether a description takes an argument, and whether it can be left out.
pub open spec fn takes(description: DescriptionView, name: Seq<char>, optional: bool) -> bool {
    exists|i: int|
        0 <= i < description.inputs.len() && (#[trigger] description.inputs[i]).name == name
            && description.inputs[i].optional == optional
}

/// The resources say what they take and what they need: asking takes a prompt, and at will a
/// model, a system prompt, a temperature, a limit and a form, and the facade a provider or
/// requirements too; selecting takes requirements; and whatever has to ask a server needs the
/// network, the configuration and a pinned identity do not.
pub proof fn resources_say_what_they_take(
    facade: &AskFacade,
    backend: &OpenAiBackend,
    config: &ConfigEndpoint,
    select: &SelectEndpoint,
    model: &ModelEndpoint,
    installed: &InstalledEndpoint,
    up: &UpEndpoint,
    of_facade: Description,
    of_backend: Description,
    of_config: Description,
    of_select: Description,
    of_model: Description,
    of_installed: Description,
    of_up: Description,
    required: Vec<String>,
)
    requires
        call_ensures(AskFacade::describe, (facade,), of_facade),
        call_ensures(OpenAiBackend::describe, (backend,), of_backend),
        call_ensures(ConfigEndpoint::describe, (config,), of_config),
        call_ensures(SelectEndpoint::describe, (select,), of_select),
        call_ensures(ModelEndpoint::describe, (model,), of_model),
        call_ensures(InstalledEndpoint::describe, (installed,), of_installed),
        call_ensures(UpEndpoint::describe, (up,), of_up),
        call_ensures(Description::requires_caps, (&of_model,), required),
    ensures
        takes(of_backend@, "prompt"@, false) && takes(of_backend@, "model"@, true) && takes(
            of_backend@,
            "system"@,
            true,
        ) && takes(of_backend@, "temperature"@, true) && takes(of_backend@, "max_tokens"@, true)
            && takes(of_backend@, "as"@, true) && of_backend@.inputs.len() == 6,
        takes(of_facade@, "prompt"@, false) && takes(of_facade@, "provider"@, true) && takes(
            of_facade@,
            "needs"@,
            true,
        ) && of_facade@.inputs.len() == 8,
        takes(of_select@, "needs"@, false) && takes(of_select@, "as"@, true)
            && of_select@.inputs.len() == 2,
        takes(of_installed@, "supports"@, true) && takes(of_installed@, "as"@, true)
            && of_installed@.inputs.len() == 2,
        of_config@.inputs.len() == 0 && of_model@.inputs.len() == 0 && of_up@.inputs.len() == 0,
        of_facade@.needs_net && of_backend@.needs_net && of_installed@.needs_net
            && of_up@.needs_net,
        !of_config@.needs_net && !of_select@.needs_net,
        of_model@.needs_net <==> model@.default_model is None,
        required.deep_view() == (if model@.default_model is None {
            seq!["urn:cap:net:*"@]
        } else {
            Seq::empty()
        }),
        of_backend@.id == "llm-"@ + backend@.provider + "-"@ + "ask"@,
        of_model@.id == "llm-"@ + model@.provider + "-"@ + "model"@,
        of_installed@.id == "llm-"@ + installed@.provider + "-"@ + "installed"@,
        of_up@.id == "llm-"@ + up@.provider + "-"@ + "up"@,
{
    let asked = of_backend@.inputs;
    assert(asked[0].name == "prompt"@ && asked[1].name == "model"@ && asked[2].name == "system"@
        && asked[3].name == "temperature"@ && asked[4].name == "max_tokens"@ && asked[5].name
        == "as"@);
    let routed = of_facade@.inputs;
    assert(routed[0].name == "prompt"@ && routed[6].name == "provider"@ && routed[7].name
        == "needs"@);
    let selected = of_select@.inputs;
    assert(selected[0].name == "needs"@ && selected[1].name == "as"@);
    let listed = of_installed@.inputs;
    assert(listed[0].name == "as"@ && listed[1].name == "supports"@);
}

} // verus!
