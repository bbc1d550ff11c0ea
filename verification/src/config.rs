//! Providers: what each one declares, and the registry of all of them.

use crate::error::{Error, ErrorView};
use crate::json::{json_of, json_u64, JsonView};
use vstd::prelude::*;
use vstd::string::*;

verus! {

/// A backend's capability profile: the traits that selection reasons over.
///
/// Facts arrive at three strengths: annotations override, declared values stand, and
/// discovered ones fill gaps. `cost`, `vendor` and `batch_at` are declared or
/// annotated only: no server's word about itself ever sets them.
#[derive(Debug, PartialEq, Eq)]
pub struct Caps {
    /// Context window, in tokens.
    pub context: Option<u64>,
    /// Input modalities, such as `text` and `vision`.
    pub modalities: Vec<String>,
    /// Supports tool or function calling.
    pub tools: Option<bool>,
    /// Supports a structured-output (JSON) mode.
    pub json: Option<bool>,
    /// Cost tier: `local`, `cheap` or `premium`.
    pub cost: Option<String>,
    /// The service behind the endpoint, such as `ollama` or `openai`.
    pub vendor: Option<String>,
    /// The number of concurrent requests from which on this backend wins on throughput.
    pub batch_at: Option<u64>,
    /// Parameter count, for display.
    pub params: Option<String>,
}

/// [`Caps`] over sequences of characters.
#[verifier::ext_equal]
pub struct CapsView {
    pub context: Option<u64>,
    pub modalities: Seq<Seq<char>>,
    pub tools: Option<bool>,
    pub json: Option<bool>,
    pub cost: Option<Seq<char>>,
    pub vendor: Option<Seq<char>>,
    pub batch_at: Option<u64>,
    pub params: Option<Seq<char>>,
}

impl View for Caps {
    type V = CapsView;

    open spec fn view(&self) -> CapsView {
        CapsView {
            context: self.context,
            modalities: self.modalities.deep_view(),
            tools: self.tools,
            json: self.json,
            cost: self.cost.deep_view(),
            vendor: self.vendor.deep_view(),
            batch_at: self.batch_at,
            params: self.params.deep_view(),
        }
    }
}

impl DeepView for Caps {
    type V = CapsView;

    open spec fn deep_view(&self) -> CapsView {
        self@
    }
}

/// The profile that states nothing.
pub open spec fn no_caps() -> CapsView {
    CapsView {
        context: None,
        modalities: Seq::empty(),
        tools: None,
        json: None,
        cost: None,
        vendor: None,
        batch_at: None,
        params: None,
    }
}

impl Default for Caps {
    /// The profile that states nothing.
    fn default() -> (caps: Caps)
        ensures
            caps@ == no_caps(),
    {
        let caps = Caps {
            context: None,
            modalities: Vec::new(),
            tools: None,
            json: None,
            cost: None,
            vendor: None,
            batch_at: None,
            params: None,
        };
        assert(caps@ =~= no_caps());
        caps
    }
}

/// The texts, copied.
pub(crate) fn copy_texts(texts: &Vec<String>) -> (copy: Vec<String>)
    ensures
        copy.deep_view() == texts.deep_view(),
{
    let mut copy: Vec<String> = Vec::new();
    let mut i: usize = 0;
    while i < texts.len()
        invariant
            i <= texts.len(),
            copy@.len() == i,
            forall|k: int| 0 <= k < i ==> (#[trigger] copy@[k])@ == texts@[k]@,
        decreases texts.len() - i,
    {
        copy.push(texts[i].clone());
        i = i + 1;
    }
    assert(copy.deep_view() =~= texts.deep_view());
    copy
}

/// The optional text, copied.
pub(crate) fn copy_text(text: &Option<String>) -> (copy: Option<String>)
    ensures
        copy.deep_view() == text.deep_view(),
{
    match text {
        Some(text) => Some(text.clone()),
        None => None,
    }
}

impl Clone for Caps {
    fn clone(&self) -> (copy: Caps)
        ensures
            copy@ == self@,
    {
        Caps {
            context: self.context,
            modalities: copy_texts(&self.modalities),
            tools: self.tools,
            json: self.json,
            cost: copy_text(&self.cost),
            vendor: copy_text(&self.vendor),
            batch_at: self.batch_at,
            params: copy_text(&self.params),
        }
    }
}

/// Configuration of an OpenAI-compatible chat backend. One shape covers Ollama, vLLM,
/// `llama.cpp`'s server, `mlx_lm.server` and LM Studio.
#[derive(Debug)]
pub struct OpenAiConfig {
    /// The IRI segment this backend binds under (`urn:llm:<provider>:ask`).
    pub provider: String,
    /// Base URL up to, and not with, `/chat/completions`.
    pub base_url: String,
    /// The model for a request that names none. `None`: this provider names the
    /// server, and the model is whatever that server serves.
    pub default_model: Option<String>,
    /// Bearer token, if the endpoint needs one.
    pub api_key: Option<String>,
    /// The declared capability profile.
    pub caps: Caps,
}

/// [`OpenAiConfig`] over sequences of characters.
#[verifier::ext_equal]
pub struct OpenAiConfigView {
    pub provider: Seq<char>,
    pub base_url: Seq<char>,
    pub default_model: Option<Seq<char>>,
    pub api_key: Option<Seq<char>>,
    pub caps: CapsView,
}

impl View for OpenAiConfig {
    type V = OpenAiConfigView;

    open spec fn view(&self) -> OpenAiConfigView {
        OpenAiConfigView {
            provider: self.provider@,
            base_url: self.base_url@,
            default_model: self.default_model.deep_view(),
            api_key: self.api_key.deep_view(),
            caps: self.caps@,
        }
    }
}

impl DeepView for OpenAiConfig {
    type V = OpenAiConfigView;

    open spec fn deep_view(&self) -> OpenAiConfigView {
        self@
    }
}

impl Clone for OpenAiConfig {
    fn clone(&self) -> (copy: OpenAiConfig)
        ensures
            copy@ == self@,
    {
        OpenAiConfig {
            provider: self.provider.clone(),
            base_url: self.base_url.clone(),
            default_model: copy_text(&self.default_model),
            api_key: copy_text(&self.api_key),
            caps: self.caps.clone(),
        }
    }
}

/// A local Ollama on its OpenAI-compatible endpoint.
pub open spec fn ollama_config(default_model: Seq<char>) -> OpenAiConfigView {
    OpenAiConfigView {
        provider: "ollama"@,
        base_url: "http://localhost:11434/v1"@,
        default_model: Some(default_model),
        api_key: None,
        caps: CapsView { cost: Some("local"@), vendor: Some("ollama"@), ..no_caps() },
    }
}

impl OpenAiConfig {
    /// A local Ollama on its OpenAI-compatible endpoint; no key needed.
    pub fn ollama(default_model: &str) -> (config: OpenAiConfig)
        ensures
            config@ == ollama_config(default_model@),
    {
        let mut caps = Caps::default();
        caps.cost = Some("local".to_owned());
        caps.vendor = Some("ollama".to_owned());
        OpenAiConfig {
            provider: "ollama".to_owned(),
            base_url: "http://localhost:11434/v1".to_owned(),
            default_model: Some(default_model.to_owned()),
            api_key: None,
            caps,
        }
    }

    /// A provider that names the server and not the model: whatever that server is
    /// serving answers.
    pub fn discovering(provider: &str, base_url: &str) -> (config: OpenAiConfig)
        ensures
            config@ == (OpenAiConfigView {
                provider: provider@,
                base_url: base_url@,
                default_model: None,
                api_key: None,
                caps: no_caps(),
            }),
    {
        OpenAiConfig {
            provider: provider.to_owned(),
            base_url: base_url.to_owned(),
            default_model: None,
            api_key: None,
            caps: Caps::default(),
        }
    }
}

/// The configured providers, and the one that answers a request naming none.
#[derive(Debug)]
pub struct Registry {
    /// The provider `urn:llm:ask` routes to when a request names none.
    pub default: String,
    /// Every configured backend; each is bound at `urn:llm:<provider>:ask`.
    pub providers: Vec<OpenAiConfig>,
}

/// [`Registry`] over sequences.
#[verifier::ext_equal]
pub struct RegistryView {
    pub default: Seq<char>,
    pub providers: Seq<OpenAiConfigView>,
}

impl View for Registry {
    type V = RegistryView;

    open spec fn view(&self) -> RegistryView {
        RegistryView { default: self.default@, providers: self.providers.deep_view() }
    }
}

impl Clone for Registry {
    fn clone(&self) -> (copy: Registry)
        ensures
            copy@ == self@,
    {
        let mut providers: Vec<OpenAiConfig> = Vec::new();
        let mut i: usize = 0;
        while i < self.providers.len()
            invariant
                i <= self.providers.len(),
                providers@.len() == i,
                forall|k: int|
                    0 <= k < i ==> (#[trigger] providers@[k])@ == self.providers@[k]@,
            decreases self.providers.len() - i,
        {
            providers.push(self.providers[i].clone());
            i = i + 1;
        }
        assert(providers.deep_view() =~= self.providers.deep_view());
        Registry { default: self.default.clone(), providers }
    }
}

/// The registry of one provider, which is its default.
pub open spec fn single_registry(config: OpenAiConfigView) -> RegistryView {
    RegistryView { default: config.provider, providers: seq![config] }
}

/// One provider as the configuration file states it.
#[derive(Debug)]
pub struct ProviderEntry {
    pub name: String,
    pub base_url: String,
    pub model: Option<String>,
    pub api_key: Option<String>,
    /// The declared profile, without its load shape.
    pub caps: Caps,
    /// The declared `batchAt`, whatever the file says it is.
    pub batch_at: Option<serde_json::Value>,
}

/// What [`ProviderEntry`] states.
#[verifier::ext_equal]
pub struct ProviderEntryView {
    pub name: Seq<char>,
    pub base_url: Seq<char>,
    pub model: Option<Seq<char>>,
    pub api_key: Option<Seq<char>>,
    pub caps: CapsView,
    pub batch_at: Option<JsonView>,
}

impl View for ProviderEntry {
    type V = ProviderEntryView;

    open spec fn view(&self) -> ProviderEntryView {
        ProviderEntryView {
            name: self.name@,
            base_url: self.base_url@,
            model: self.model.deep_view(),
            api_key: self.api_key.deep_view(),
            caps: self.caps@,
            batch_at: match self.batch_at {
                Some(value) => Some(json_of(value)),
                None => None,
            },
        }
    }
}

impl ProviderEntryView {
    /// The declared load shape is absent, or a whole number of at least one.
    pub open spec fn usable(self) -> bool {
        self.batch_at matches Some(content) ==> (content.natural() matches Some(n) && n >= 1)
    }

    /// The provider this entry configures.
    pub open spec fn config(self) -> OpenAiConfigView {
        OpenAiConfigView {
            provider: self.name,
            base_url: self.base_url,
            default_model: self.model,
            api_key: self.api_key,
            caps: CapsView {
                batch_at: match self.batch_at {
                    Some(content) => content.natural(),
                    None => None,
                },
                ..self.caps
            },
        }
    }
}

/// The entries over sequences.
pub open spec fn entries_view(entries: Seq<ProviderEntry>) -> Seq<ProviderEntryView> {
    entries.map_values(|entry: ProviderEntry| entry@)
}

/// The providers that the entries configure, in order.
pub open spec fn entry_configs(entries: Seq<ProviderEntryView>) -> Seq<OpenAiConfigView> {
    entries.map_values(|entry: ProviderEntryView| entry.config())
}

/// Every entry's load shape is usable.
pub open spec fn all_usable(entries: Seq<ProviderEntryView>) -> bool {
    forall|i: int| 0 <= i < entries.len() ==> (#[trigger] entries[i]).usable()
}

/// What loading says about an entry whose `batchAt` is unusable.
pub open spec fn bad_batch_at(name: Seq<char>) -> ErrorView {
    ErrorView::Endpoint(
        "urn:llm:config: provider `"@ + name
            + "`: batchAt must be a whole number of at least 1"@,
    )
}

/// What loading says about a text that is no configuration file, with the reader's
/// message.
pub fn invalid_config(message: &str) -> (error: Error)
    ensures
        error@ == ErrorView::Endpoint("urn:llm:config: invalid JSON: "@ + message@),
{
    let mut text = "urn:llm:config: invalid JSON: ".to_owned();
    text.append(message);
    Error::Endpoint(text)
}

impl ProviderEntry {
    /// The provider this entry configures, or why it configures none.
    fn config(&self) -> (config: Result<OpenAiConfig, Error>)
        ensures
            match config {
                Ok(config) => self@.usable() && config@ == self@.config(),
                Err(error) => !self@.usable() && error@ == bad_batch_at(self@.name),
            },
    {
        let mut caps = self.caps.clone();
        match &self.batch_at {
            None => {
                caps.batch_at = None;
            },
            Some(value) => {
                let number = json_u64(value);
                if number.is_none() || number == Some(0) {
                    let mut text = "urn:llm:config: provider `".to_owned();
                    text.append(self.name.as_str());
                    text.append("`: batchAt must be a whole number of at least 1");
                    return Err(Error::Endpoint(text));
                }
                caps.batch_at = number;
            },
        }
        Ok(
            OpenAiConfig {
                provider: self.name.clone(),
                base_url: self.base_url.clone(),
                default_model: copy_text(&self.model),
                api_key: copy_text(&self.api_key),
                caps,
            },
        )
    }
}

impl Registry {
    /// A registry of one provider, which becomes the default.
    pub fn single(config: OpenAiConfig) -> (registry: Registry)
        ensures
            registry@ == single_registry(config@),
    {
        let default = config.provider.clone();
        let mut providers: Vec<OpenAiConfig> = Vec::new();
        providers.push(config);
        let registry = Registry { default, providers };
        assert(registry@ =~= single_registry(config@));
        registry
    }

    /// The registry that the entries of a configuration file describe, in their order.
    /// An unusable `batchAt` fails the load, and the message names the first provider
    /// that has one.
    pub fn from_entries(default: &str, entries: &Vec<ProviderEntry>) -> (registry: Result<
        Registry,
        Error,
    >)
        ensures
            match registry {
                Ok(registry) => all_usable(entries_view(entries@)) && registry@ == (RegistryView {
                    default: default@,
                    providers: entry_configs(entries_view(entries@)),
                }),
                Err(error) => exists|i: int|
                    #![trigger entries_view(entries@)[i]]
                    0 <= i < entries@.len() && !entries_view(entries@)[i].usable() && all_usable(
                        entries_view(entries@).take(i),
                    ) && error@ == bad_batch_at(entries_view(entries@)[i].name),
            },
    {
        let ghost all = entries_view(entries@);
        let mut providers: Vec<OpenAiConfig> = Vec::new();
        let mut i: usize = 0;
        while i < entries.len()
            invariant
                i <= entries.len(),
                all == entries_view(entries@),
                all_usable(all.take(i as int)),
                providers@.len() == i,
                forall|k: int| 0 <= k < i ==> (#[trigger] providers@[k])@ == all[k].config(),
            decreases entries.len() - i,
        {
            assert(entries@[i as int]@ == all[i as int]);
            match entries[i].config() {
                Ok(config) => {
                    providers.push(config);
                    assert(all.take(i + 1) =~= all.take(i as int).push(all[i as int]));
                    i = i + 1;
                },
                Err(error) => {
                    return Err(error);
                },
            }
        }
        assert(all.take(i as int) =~= all);
        assert(providers.deep_view() =~= entry_configs(all));
        Ok(Registry { default: default.to_owned(), providers })
    }
}

impl Default for Registry {
    /// A local Ollama.
    fn default() -> (registry: Registry)
        ensures
            registry@ == single_registry(ollama_config("llama3.2"@)),
    {
        Registry::single(OpenAiConfig::ollama("llama3.2"))
    }
}

impl vstd::std_specs::convert::FromSpecImpl<OpenAiConfig> for Registry {
    open spec fn obeys_from_spec() -> bool {
        false
    }

    open spec fn from_spec(config: OpenAiConfig) -> Registry {
        arbitrary()
    }
}

impl From<OpenAiConfig> for Registry {
    /// The registry of this one provider.
    fn from(config: OpenAiConfig) -> (registry: Registry)
        ensures
            registry@ == single_registry(config@),
    {
        Registry::single(config)
    }
}

// ---- declared and discovered -------------------------------------------------------

/// The first, or else the second.
pub open spec fn or_else<T>(first: Option<T>, second: Option<T>) -> Option<T> {
    match first {
        Some(value) => Some(value),
        None => second,
    }
}

/// The declared profile with its gaps filled from a discovered one.
pub open spec fn declared_wins(declared: CapsView, discovered: CapsView) -> CapsView {
    CapsView {
        context: or_else(declared.context, discovered.context),
        modalities: if declared.modalities.len() == 0 {
            discovered.modalities
        } else {
            declared.modalities
        },
        tools: or_else(declared.tools, discovered.tools),
        json: or_else(declared.json, discovered.json),
        cost: or_else(declared.cost, discovered.cost),
        vendor: or_else(declared.vendor, discovered.vendor),
        batch_at: or_else(declared.batch_at, discovered.batch_at),
        params: or_else(declared.params, discovered.params),
    }
}

fn text_or(first: &Option<String>, second: Option<String>) -> (text: Option<String>)
    ensures
        text.deep_view() == or_else(first.deep_view(), second.deep_view()),
{
    match first {
        Some(first) => Some(first.clone()),
        None => second,
    }
}

fn natural_or(first: Option<u64>, second: Option<u64>) -> (number: Option<u64>)
    ensures
        number == or_else(first, second),
{
    match first {
        Some(first) => Some(first),
        None => second,
    }
}

fn flag_or(first: Option<bool>, second: Option<bool>) -> (flag: Option<bool>)
    ensures
        flag == or_else(first, second),
{
    match first {
        Some(first) => Some(first),
        None => second,
    }
}

/// Declared and discovered together: what is declared stands, discovery fills gaps.
pub fn merge_declared_wins(declared: &Caps, discovered: Caps) -> (merged: Caps)
    ensures
        merged@ == declared_wins(declared@, discovered@),
{
    let modalities = if declared.modalities.len() == 0 {
        discovered.modalities
    } else {
        copy_texts(&declared.modalities)
    };
    Caps {
        context: natural_or(declared.context, discovered.context),
        modalities,
        tools: flag_or(declared.tools, discovered.tools),
        json: flag_or(declared.json, discovered.json),
        cost: text_or(&declared.cost, discovered.cost),
        vendor: text_or(&declared.vendor, discovered.vendor),
        batch_at: natural_or(declared.batch_at, discovered.batch_at),
        params: text_or(&declared.params, discovered.params),
    }
}

/// Whether a profile states nothing that is only an operator's to state: the service
/// behind the endpoint, its cost and its load shape.
pub open spec fn ungoverned(caps: CapsView) -> bool {
    caps.cost is None && caps.vendor is None && caps.batch_at is None
}

/// What is declared survives a merge, whatever was discovered; and where the
/// discovered profile states no cost, vendor or load shape, the merged one has exactly
/// the declared ones.
pub proof fn declared_values_stand(declared: CapsView, discovered: CapsView)
    ensures
        declared.context is Some ==> declared_wins(declared, discovered).context
            == declared.context,
        declared.modalities.len() > 0 ==> declared_wins(declared, discovered).modalities
            == declared.modalities,
        declared.tools is Some ==> declared_wins(declared, discovered).tools == declared.tools,
        declared.json is Some ==> declared_wins(declared, discovered).json == declared.json,
        declared.cost is Some ==> declared_wins(declared, discovered).cost == declared.cost,
        declared.vendor is Some ==> declared_wins(declared, discovered).vendor
            == declared.vendor,
        declared.batch_at is Some ==> declared_wins(declared, discovered).batch_at
            == declared.batch_at,
        declared.params is Some ==> declared_wins(declared, discovered).params
            == declared.params,
        ungoverned(discovered) ==> {
            &&& declared_wins(declared, discovered).cost == declared.cost
            &&& declared_wins(declared, discovered).vendor == declared.vendor
            &&& declared_wins(declared, discovered).batch_at == declared.batch_at
        },
{
}

/// Merging the same discovered profile twice changes nothing.
pub proof fn merging_twice_is_merging_once(declared: CapsView, discovered: CapsView)
    ensures
        declared_wins(declared_wins(declared, discovered), discovered) == declared_wins(
            declared,
            discovered,
        ),
{
}

/// Whether some provider names only its server.
pub open spec fn discovers(registry: RegistryView) -> bool {
    exists|i: int|
        0 <= i < registry.providers.len() && (#[trigger] registry.providers[i]).default_model
            is None
}

/// Whether some provider names only its server. Then an answer drawn from the registry
/// is a live fact, and caching it would restore the staleness that discovery removes.
pub fn any_discovering(registry: &Registry) -> (yes: bool)
    ensures
        yes == discovers(registry@),
{
    let mut i: usize = 0;
    while i < registry.providers.len()
        invariant
            i <= registry.providers.len(),
            forall|k: int|
                0 <= k < i ==> (#[trigger] registry@.providers[k]).default_model is Some,
        decreases registry.providers.len() - i,
    {
        assert(registry@.providers[i as int] == registry.providers@[i as int]@);
        if registry.providers[i].default_model.is_none() {
            return true;
        }
        i = i + 1;
    }
    false
}

// ---- what the registry promises ----------------------------------------------------

/// Merging keeps what is declared, trait by trait, and takes the rest from what was
/// discovered.
pub proof fn gaps_are_filled_trait_by_trait(declared: &Caps, discovered: Caps, merged: Caps)
    requires
        call_ensures(merge_declared_wins, (declared, discovered), merged),
    ensures
        merged@.context == (if declared@.context is Some {
            declared@.context
        } else {
            discovered@.context
        }),
        merged@.modalities == (if declared@.modalities.len() > 0 {
            declared@.modalities
        } else {
            discovered@.modalities
        }),
        merged@.tools == (if declared@.tools is Some {
            declared@.tools
        } else {
            discovered@.tools
        }),
        merged@.json == (if declared@.json is Some {
            declared@.json
        } else {
            discovered@.json
        }),
        merged@.cost == (if declared@.cost is Some {
            declared@.cost
        } else {
            discovered@.cost
        }),
        merged@.vendor == (if declared@.vendor is Some {
            declared@.vendor
        } else {
            discovered@.vendor
        }),
        merged@.batch_at == (if declared@.batch_at is Some {
            declared@.batch_at
        } else {
            discovered@.batch_at
        }),
        merged@.params == (if declared@.params is Some {
            declared@.params
        } else {
            discovered@.params
        }),
{
}

/// Whether a declared load shape can be used: there is none, or it is a number from one on.
pub open spec fn is_load_shape(declared: Option<JsonView>) -> bool {
    match declared {
        Some(JsonView::Natural(n)) => n >= 1,
        Some(_) => false,
        None => true,
    }
}

/// Loading keeps what is configured: the default, and one provider for each entry, in order,
/// with the entry's name, server, model, key, profile and load shape; it fails where a load
/// shape is no number from one on, and names the first provider of which that is so.
pub proof fn loading_keeps_what_is_configured(
    default: &str,
    entries: &Vec<ProviderEntry>,
    registry: Result<Registry, Error>,
)
    requires
        call_ensures(Registry::from_entries, (default, entries), registry),
    ensures
        match registry {
            Ok(registry) => {
                &&& registry@.default == default@
                &&& registry@.providers.len() == entries@.len()
                &&& forall|i: int|
                    #![trigger registry@.providers[i]]
                    #![trigger entries@[i]]
                    0 <= i < entries@.len() ==> {
                        let entry = entries@[i]@;
                        let config = registry@.providers[i];
                        &&& is_load_shape(entry.batch_at)
                        &&& config.provider == entry.name
                        &&& config.base_url == entry.base_url
                        &&& config.default_model == entry.model
                        &&& config.api_key == entry.api_key
                        &&& match entry.batch_at {
                            Some(declared) => config.caps.batch_at is Some && declared
                                == JsonView::Natural(config.caps.batch_at->0),
                            None => config.caps.batch_at is None,
                        }
                        &&& config.caps == (CapsView {
                            batch_at: config.caps.batch_at,
                            ..entry.caps
                        })
                    }
            },
            Err(error) => exists|i: int| {
                &&& 0 <= i < entries@.len()
                &&& !is_load_shape((#[trigger] entries@[i])@.batch_at)
                &&& forall|j: int| 0 <= j < i ==> is_load_shape((#[trigger] entries@[j])@.batch_at)
                &&& error@ == ErrorView::Endpoint(
                    "urn:llm:config: provider `"@ + entries@[i]@.name
                        + "`: batchAt must be a whole number of at least 1"@,
                )
            },
        },
{
    let all = entries_view(entries@);
    assert forall|i: int| 0 <= i < entries@.len() implies #[trigger] all[i] == entries@[i]@
        && all[i].usable() == is_load_shape(entries@[i]@.batch_at) by {}
    match registry {
        Ok(registry) => {
            assert forall|i: int|
                #![trigger registry@.providers[i]]
                #![trigger entries@[i]]
                0 <= i < entries@.len() implies all[i].usable() && registry@.providers[i]
                == all[i].config() by {}
        },
        Err(error) => {
            let i = choose|i: int|
                #![trigger all[i]]
                0 <= i < entries@.len() && !all[i].usable() && all_usable(all.take(i)) && error@
                    == bad_batch_at(all[i].name);
            assert forall|j: int| 0 <= j < i implies is_load_shape(
                (#[trigger] entries@[j])@.batch_at,
            ) by {
                assert(all.take(i)[j] == all[j]);
            }
            assert(!is_load_shape(entries@[i]@.batch_at));
        },
    }
}

/// A registry of one provider has it for its default; without a configuration there is a
/// local Ollama; and a provider that names only its server pins no model.
pub proof fn registries_begin_small(
    config: OpenAiConfig,
    single: Registry,
    model: &str,
    ollama: OpenAiConfig,
    base_url: &str,
    name: &str,
    discovering: OpenAiConfig,
)
    requires
        call_ensures(Registry::single, (config,), single),
        call_ensures(OpenAiConfig::ollama, (model,), ollama),
        call_ensures(OpenAiConfig::discovering, (name, base_url), discovering),
    ensures
        single@.default == config@.provider,
        single@.providers.len() == 1 && single@.providers[0] == config@,
        ollama@.provider == "ollama"@ && ollama@.base_url == "http://localhost:11434/v1"@,
        ollama@.default_model == Some(model@) && ollama@.api_key is None,
        ollama@.caps.cost == Some("local"@) && ollama@.caps.vendor == Some("ollama"@),
        ollama@.caps.context is None && ollama@.caps.modalities.len() == 0
            && ollama@.caps.tools is None && ollama@.caps.json is None && ollama@.caps.batch_at
            is None && ollama@.caps.params is None,
        discovering@.provider == name@ && discovering@.base_url == base_url@,
        discovering@.default_model is None && discovering@.api_key is None,
        discovering@.caps == (CapsView {
            context: None,
            modalities: Seq::empty(),
            tools: None,
            json: None,
            cost: None,
            vendor: None,
            batch_at: None,
            params: None,
        }),
{
}

} // verus!
