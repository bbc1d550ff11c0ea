//! The resources end to end: each test binds a registry, issues requests by IRI and scripts
//! what the servers answer.

use std::collections::VecDeque;

use ikigai_core::Capability;
use ikigai_llm::annotate::AnnotationConflict;
use ikigai_llm::answer::Answer;
use ikigai_llm::backend::{AskArgs, AskStep};
use ikigai_llm::config::{Caps, OpenAiConfig, ProviderEntry, Registry};
use ikigai_llm::describe::CAP_NET;
use ikigai_llm::inventory::ModelsStep;
use ikigai_llm::live::{InstalledStep, ModelStep};
use ikigai_llm::net::{HttpCall, HttpReply, Method};
use ikigai_llm::routing::{RouteStep, SelectStep};
use ikigai_llm::space::{space, Bound};
use ikigai_llm::{
    AskFacade, Error, InstalledEndpoint, ModelEndpoint, OpenAiBackend, UpEndpoint,
};
use serde_json::Value;

/// Servers that answer from a script, and what they were sent.
struct Servers {
    queue: VecDeque<HttpReply>,
    always: Option<String>,
    log: Vec<HttpCall>,
    notes: Vec<(String, String)>,
}

impl Servers {
    /// Every request gets this body.
    fn always(body: &str) -> Servers {
        Servers {
            queue: VecDeque::new(),
            always: Some(body.to_string()),
            log: Vec::new(),
            notes: Vec::new(),
        }
    }

    /// The requests get these replies, one each.
    fn queue(replies: Vec<(u16, &str)>) -> Servers {
        Servers {
            queue: replies
                .into_iter()
                .map(|(status, body)| HttpReply { status, body: body.as_bytes().to_vec() })
                .collect(),
            always: None,
            log: Vec::new(),
            notes: Vec::new(),
        }
    }

    /// No request gets through.
    fn down() -> Servers {
        Servers::queue(vec![])
    }

    fn send(&mut self, call: HttpCall) -> Result<HttpReply, String> {
        self.log.push(call);
        if let Some(body) = &self.always {
            return Ok(HttpReply { status: 200, body: body.as_bytes().to_vec() });
        }
        match self.queue.pop_front() {
            Some(reply) => Ok(reply),
            None => Err("connection refused".to_string()),
        }
    }

    fn body(&self, at: usize) -> Value {
        serde_json::from_slice(&self.log[at].body).unwrap()
    }
}

fn root() -> Capability {
    Capability::root()
}

fn no_caps() -> Capability {
    Capability::root().attenuate(Vec::<String>::new())
}

/// Issue a request to a resource of the registry, carried through with the servers.
fn issue(
    registry: &Registry,
    iri: &str,
    args: &[(&str, &str)],
    cap: &Capability,
    servers: &mut Servers,
) -> Result<Answer, Error> {
    let arg = |name: &str| -> Option<String> {
        args.iter().find(|(n, _)| *n == name).map(|(_, v)| v.to_string())
    };
    let binding = space(registry.clone())
        .into_iter()
        .find(|binding| binding.iri == iri)
        .unwrap_or_else(|| panic!("nothing is bound to {iri}"));
    match binding.endpoint {
        Bound::Facade(facade) => {
            let (provider, needs) = (arg("provider"), arg("needs"));
            let mut step = facade.route(cap, provider.as_deref(), needs.as_deref());
            loop {
                match step {
                    RouteStep::Send { call, state } => {
                        step = facade.resume(cap, state, servers.send(call));
                    }
                    RouteStep::Done(target) => {
                        return issue(registry, &target?, args, cap, servers);
                    }
                }
            }
        }
        Bound::Config(endpoint) => Ok(endpoint.report()),
        Bound::Models(endpoint) => {
            let mut step = endpoint.report(cap, arg("as"));
            loop {
                match step {
                    ModelsStep::Send { call, state } => {
                        step = endpoint.resume(cap, state, servers.send(call));
                    }
                    ModelsStep::Done(answer) => return Ok(answer),
                }
            }
        }
        Bound::Select(endpoint) => {
            let needs = match arg("needs") {
                Some(needs) => needs,
                None => return Err(Error::MissingArgument("needs".to_string())),
            };
            let mut step = endpoint.select(cap, needs, arg("as"));
            loop {
                match step {
                    SelectStep::Send { call, state } => {
                        step = endpoint.resume(cap, state, servers.send(call));
                    }
                    SelectStep::Done(answer) => return answer,
                }
            }
        }
        Bound::Backend(backend) => {
            let args = AskArgs {
                prompt: arg("prompt"),
                content: arg("content"),
                model: arg("model"),
                system: arg("system"),
                temperature: arg("temperature").and_then(|t| serde_json::from_str(&t).ok()),
                max_tokens: arg("max_tokens"),
                form: arg("as"),
            };
            let mut step = backend.ask(cap, args);
            loop {
                match step {
                    AskStep::Send { call, state } => {
                        servers.notes.extend(backend.notes(&state));
                        step = backend.resume(cap, state, servers.send(call));
                    }
                    AskStep::Done(answer) => return answer,
                }
            }
        }
        Bound::Up(endpoint) => {
            let call = endpoint.check(cap)?;
            let reply = servers.send(call);
            Ok(endpoint.verdict(&reply))
        }
        Bound::Installed(endpoint) => {
            let mut step = endpoint.list(cap, arg("supports"), arg("as"));
            loop {
                match step {
                    InstalledStep::Send { call, state } => {
                        step = endpoint.resume(state, servers.send(call));
                    }
                    InstalledStep::Done(answer) => return answer,
                }
            }
        }
        Bound::Model(endpoint) => {
            let mut step = endpoint.identify(cap);
            loop {
                match step {
                    ModelStep::Send { call, state } => {
                        step = endpoint.resume(state, servers.send(call));
                    }
                    ModelStep::Done(answer) => return answer,
                }
            }
        }
    }
}

fn json(answer: &Answer) -> Value {
    serde_json::from_slice(&answer.body).unwrap()
}

fn text(answer: &Answer) -> String {
    String::from_utf8(answer.body.clone()).unwrap()
}

fn string(value: &Value) -> Option<String> {
    value.as_str().map(|text| text.to_string())
}

/// The registry that a configuration file describes.
fn registry_of(config: &str) -> Registry {
    load(config).unwrap()
}

fn load(config: &str) -> Result<Registry, Error> {
    let config: Value = serde_json::from_str(config).unwrap();
    let mut entries = Vec::new();
    for (name, entry) in config["providers"].as_object().unwrap() {
        let caps = &entry["caps"];
        entries.push(ProviderEntry {
            name: name.clone(),
            base_url: string(&entry["base_url"]).unwrap(),
            model: string(&entry["model"]),
            api_key: string(&entry["api_key"]),
            caps: Caps {
                context: caps["context"].as_u64(),
                modalities: caps["modalities"]
                    .as_array()
                    .map(|list| list.iter().filter_map(string).collect())
                    .unwrap_or_default(),
                tools: caps["tools"].as_bool(),
                json: caps["json"].as_bool(),
                cost: string(&caps["cost"]),
                vendor: string(&caps["vendor"]),
                batch_at: None,
                params: string(&caps["params"]),
            },
            batch_at: caps.get("batchAt").cloned(),
        });
    }
    Registry::from_entries(config["default"].as_str().unwrap(), &entries)
}

fn ollama(model: &str) -> Registry {
    Registry::from(OpenAiConfig::ollama(model))
}

const CANNED: &str = r#"{"model":"llama3.1","choices":[{"message":{"role":"assistant","content":"Hello there!"},"finish_reason":"stop"}],"usage":{"total_tokens":7}}"#;

const TWO_PROVIDERS: &str = r#"{
    "default": "fast",
    "providers": {
        "fast":   { "base_url": "http://localhost:11434/v1", "model": "llama3.2:3b",
                    "caps": { "context": 131072, "modalities": ["text"], "tools": true,
                              "cost": "local", "params": "3B" } },
        "remote": { "base_url": "https://api.example.com/v1", "model": "gpt-4o", "api_key": "sk-SECRET" }
    }
}"#;

/// Three providers with distinct trait profiles:
/// fast = local text 128k, seer = local vision 32k, posh = premium vision+tools 128k.
const SELECTABLE: &str = r#"{
    "default": "fast",
    "providers": {
        "fast": { "base_url": "http://localhost:11434/v1", "model": "llama3.2:3b",
                  "caps": { "context": 131072, "modalities": ["text"], "cost": "local", "vendor": "ollama" } },
        "seer": { "base_url": "http://localhost:11434/v1", "model": "llava:7b",
                  "caps": { "context": 32768, "modalities": ["text", "vision"], "cost": "local", "vendor": "ollama" } },
        "posh": { "base_url": "https://api.example.com/v1", "model": "gpt-4o", "api_key": "sk-S",
                  "caps": { "context": 131072, "modalities": ["text", "vision"], "tools": true, "cost": "premium", "vendor": "openai" } }
    }
}"#;

/// What Ollama's native `/api/show` answers for a 3B tool-capable model.
const SHOW: &str = r#"{"details":{"parameter_size":"3.2B"},"model_info":{"llama.context_length":131072},"capabilities":["completion","tools"]}"#;

const NOT_FOUND: &str = r#"{"error":{"message":"model "ghost" not found, try pulling it first","type":"api_error"}}"#;
const INSTALLED: &str = r#"{"object":"list","data":[{"id":"real:latest"},{"id":"other:7b"}]}"#;
const TAGS: &str = r#"{"models":[{"name":"big:latest","size":23900000000},{"name":"small:3b","size":2000000000}]}"#;
const SHOW_EMBED: &str = r#"{"capabilities":["embedding"]}"#;
const SHOW_CHAT: &str = r#"{"capabilities":["completion","tools"]}"#;

/// What a `rapid-mlx` answers on `GET /v1/models`: two entries for one set of weights, the
/// canonical id and a lowercase alias.
const RAPID_MODELS: &str = r#"{"object":"list","data":[
    {"id":"mlx-community/Qwen3.8-27B-4bit","object":"model","owned_by":"rapid-mlx",
     "modality":"text","context_window":262144,"capabilities":["text","tools"]},
    {"id":"qwen3.8-27b-4bit","object":"model","owned_by":"rapid-mlx",
     "modality":"text","context_window":262144,"capabilities":["text","tools"]}]}"#;

const CANONICAL: &str = "mlx-community/Qwen3.8-27B-4bit";

/// A provider that pins nothing.
const DISCOVERING: &str = r#"{ "default": "rapid", "providers": { "rapid": {
    "base_url": "http://localhost:8000/v1" } } }"#;

// ---- descriptions and bindings -----------------------------------------------------

#[test]
fn description_ids_are_labels_not_iris() {
    let config = OpenAiConfig::ollama("llama3.1");
    let facade = AskFacade::new(Registry::single(config.clone()));
    let backend = OpenAiBackend::new(config.clone());
    let installed = InstalledEndpoint::new(config.clone());
    let model = ModelEndpoint::new(config.clone());
    let up = UpEndpoint::new(config);
    for id in [
        facade.describe().id,
        backend.describe().id,
        installed.describe().id,
        model.describe().id,
        up.describe().id,
    ] {
        assert!(!id.starts_with("urn:"), "a description id is a label, not an IRI: {id}");
    }
    assert_eq!(facade.describe().id, "llm-ask");
    assert_eq!(backend.describe().id, "llm-ollama-ask");
    assert_eq!(installed.describe().id, "llm-ollama-installed");
    assert_eq!(model.describe().id, "llm-ollama-model");
}

#[test]
fn only_the_probing_identity_face_declares_the_net_capability() {
    let pinned = ModelEndpoint::new(OpenAiConfig::ollama("llama3.1"));
    let discovering =
        ModelEndpoint::new(OpenAiConfig::discovering("rapid", "http://localhost:8000/v1"));
    assert!(!pinned.describe().requires_caps().iter().any(|c| c == CAP_NET));
    assert!(discovering.describe().requires_caps().iter().any(|c| c == CAP_NET));
}

#[test]
fn space_advertises_one_backend_per_provider() {
    let patterns: Vec<String> =
        space(registry_of(TWO_PROVIDERS)).into_iter().map(|binding| binding.iri).collect();
    for expected in [
        "urn:llm:ask",
        "urn:llm:config",
        "urn:llm:fast:ask",
        "urn:llm:remote:ask",
        "urn:llm:fast:model",
        "urn:llm:remote:model",
    ] {
        assert!(patterns.iter().any(|p| p == expected), "missing {expected}");
    }
}

#[test]
fn space_binds_the_registry_then_each_provider_in_order() {
    let iris: Vec<String> =
        space(registry_of(TWO_PROVIDERS)).into_iter().map(|binding| binding.iri).collect();
    assert_eq!(
        iris,
        vec![
            "urn:llm:ask",
            "urn:llm:config",
            "urn:llm:models",
            "urn:llm:select",
            "urn:llm:fast:ask",
            "urn:llm:fast:up",
            "urn:llm:fast:installed",
            "urn:llm:fast:model",
            "urn:llm:remote:ask",
            "urn:llm:remote:up",
            "urn:llm:remote:installed",
            "urn:llm:remote:model",
        ]
    );
}

#[test]
fn descriptions_state_what_is_taken_and_given() {
    let registry = registry_of(TWO_PROVIDERS);
    let facade = AskFacade::new(registry.clone()).describe();
    let names: Vec<&str> = facade.inputs.iter().map(|i| i.name.as_str()).collect();
    assert_eq!(
        names,
        vec!["prompt", "model", "system", "temperature", "max_tokens", "as", "provider", "needs"]
    );
    assert!(!facade.inputs[0].optional);
    assert!(facade.inputs[1..].iter().all(|i| i.optional));
    assert_eq!(facade.requires_caps(), vec!["urn:cap:net:*"]);
    let select = ikigai_llm::SelectEndpoint::new(registry.clone()).describe();
    assert_eq!(select.id, "llm-select");
    assert_eq!(select.output, "text/plain;charset=utf-8");
    let models = ikigai_llm::ModelsEndpoint::new(registry.clone()).describe();
    assert_eq!(models.output, "application/json");
    assert!(models.requires_caps().is_empty());
    let config = ikigai_llm::ConfigEndpoint::new(registry).describe();
    assert!(config.inputs.is_empty());
    let up = UpEndpoint::new(OpenAiConfig::ollama("m")).describe();
    assert_eq!(up.id, "llm-ollama-up");
    assert!(up.needs_net);
}

// ---- asking ------------------------------------------------------------------------

#[test]
fn backend_posts_chat_completions_and_returns_text() {
    let mut servers = Servers::always(CANNED);
    let out =
        issue(&ollama("llama3.1"), "urn:llm:ollama:ask", &[("prompt", "hi")], &root(), &mut servers)
            .unwrap();
    assert_eq!(out.body, b"Hello there!");

    let sent = servers.log.last().unwrap();
    assert_eq!(sent.method, Method::Post);
    assert_eq!(sent.url, "http://localhost:11434/v1/chat/completions");
    let body = servers.body(0);
    assert_eq!(body["model"], "llama3.1");
    assert_eq!(body["stream"], false);
    assert_eq!(body["messages"][0]["role"], "user");
    assert_eq!(body["messages"][0]["content"], "hi");
}

#[test]
fn a_traced_ask_labels_model_provider_and_cost() {
    let mut servers = Servers::always(CANNED);
    issue(&ollama("llama3.1"), "urn:llm:ollama:ask", &[("prompt", "hi")], &root(), &mut servers)
        .unwrap();
    let has = |k: &str, v: &str| servers.notes.contains(&(k.to_string(), v.to_string()));
    assert!(has("model", "llama3.1"), "notes: {:?}", servers.notes);
    assert!(has("provider", "ollama"));
    assert!(has("cost", "local"));
}

#[test]
fn facade_routes_to_the_default_provider_backend() {
    let mut servers = Servers::always(CANNED);
    let out = issue(&ollama("llama3.1"), "urn:llm:ask", &[("prompt", "hi")], &root(), &mut servers)
        .unwrap();
    assert_eq!(out.body, b"Hello there!");
    assert!(!servers.log.is_empty(), "the backend was reached");
}

#[test]
fn system_prompt_is_prepended() {
    let mut servers = Servers::always(CANNED);
    issue(
        &ollama("llama3.1"),
        "urn:llm:ollama:ask",
        &[("prompt", "hi"), ("system", "be terse")],
        &root(),
        &mut servers,
    )
    .unwrap();
    let body = servers.body(0);
    assert_eq!(body["messages"][0]["role"], "system");
    assert_eq!(body["messages"][0]["content"], "be terse");
    assert_eq!(body["messages"][1]["role"], "user");
}

#[test]
fn json_envelope_when_requested() {
    let mut servers = Servers::always(CANNED);
    let out = issue(
        &ollama("llama3.1"),
        "urn:llm:ollama:ask",
        &[("prompt", "hi"), ("as", "application/json")],
        &root(),
        &mut servers,
    )
    .unwrap();
    let v = json(&out);
    assert_eq!(v["text"], "Hello there!");
    assert_eq!(v["model"], "llama3.1");
    assert_eq!(v["finish_reason"], "stop");
}

#[test]
fn network_capability_is_required() {
    let mut servers = Servers::always(CANNED);
    let denied =
        issue(&ollama("llama3.1"), "urn:llm:ollama:ask", &[("prompt", "hi")], &no_caps(), &mut servers);
    assert!(denied.is_err(), "no net capability -> denied");
}

#[test]
fn a_host_scoped_capability_authorizes_that_host() {
    let mut servers = Servers::always(CANNED);
    let scoped = Capability::root().attenuate(["urn:cap:net:localhost".to_string()]);
    let out =
        issue(&ollama("llama3.1"), "urn:llm:ollama:ask", &[("prompt", "hi")], &scoped, &mut servers)
            .unwrap();
    assert_eq!(out.body, b"Hello there!");
}

#[test]
fn a_capability_for_another_host_is_refused_and_named() {
    let mut servers = Servers::always(CANNED);
    let scoped = Capability::root().attenuate(["urn:cap:net:example.com".to_string()]);
    let denied =
        issue(&ollama("llama3.1"), "urn:llm:ollama:ask", &[("prompt", "hi")], &scoped, &mut servers);
    assert_eq!(
        denied,
        Err(Error::Endpoint(
            "urn:llm:ollama:ask: capability does not allow reaching `localhost` (needs urn:cap:net:localhost)"
                .to_string()
        ))
    );
    assert!(servers.log.is_empty(), "nothing was sent");
}

#[test]
fn a_base_url_that_is_none_is_named() {
    let mut config = OpenAiConfig::ollama("llama3.1");
    config.base_url = "not a url".to_string();
    let mut servers = Servers::always(CANNED);
    let refused = issue(
        &Registry::single(config),
        "urn:llm:ollama:ask",
        &[("prompt", "hi")],
        &root(),
        &mut servers,
    );
    assert_eq!(
        refused,
        Err(Error::Endpoint(
            "urn:llm:ollama:ask: bad base_url `not a url`: relative URL without a base".to_string()
        ))
    );
}

#[test]
fn a_prompt_is_required_and_may_be_piped_in() {
    let mut servers = Servers::always(CANNED);
    let none = issue(&ollama("llama3.1"), "urn:llm:ollama:ask", &[], &root(), &mut servers);
    assert_eq!(none, Err(Error::MissingArgument("prompt".to_string())));
    assert_eq!(none.unwrap_err().message(), "missing required argument `prompt`");
    assert!(servers.log.is_empty());
    issue(&ollama("llama3.1"), "urn:llm:ollama:ask", &[("content", "piped")], &root(), &mut servers)
        .unwrap();
    assert_eq!(servers.body(0)["messages"][0]["content"], "piped");
    issue(
        &ollama("llama3.1"),
        "urn:llm:ollama:ask",
        &[("content", "piped"), ("prompt", "said")],
        &root(),
        &mut servers,
    )
    .unwrap();
    assert_eq!(servers.body(1)["messages"][0]["content"], "said");
}

#[test]
fn sampling_arguments_are_sent_where_they_parse() {
    let mut servers = Servers::always(CANNED);
    let registry = ollama("llama3.1");
    issue(
        &registry,
        "urn:llm:ollama:ask",
        &[("prompt", "hi"), ("temperature", "0.5"), ("max_tokens", "64")],
        &root(),
        &mut servers,
    )
    .unwrap();
    let body = servers.body(0);
    assert_eq!(body["temperature"], 0.5);
    assert_eq!(body["max_tokens"], 64);
    issue(
        &registry,
        "urn:llm:ollama:ask",
        &[("prompt", "hi"), ("max_tokens", "many")],
        &root(),
        &mut servers,
    )
    .unwrap();
    let body = servers.body(1);
    assert!(body.get("temperature").is_none());
    assert!(body.get("max_tokens").is_none());
}

#[test]
fn a_key_is_sent_as_the_bearer() {
    let mut servers = Servers::always(CANNED);
    let registry = registry_of(TWO_PROVIDERS);
    issue(&registry, "urn:llm:remote:ask", &[("prompt", "hi")], &root(), &mut servers).unwrap();
    assert_eq!(
        servers.log[0].headers,
        vec![
            ("Content-Type".to_string(), "application/json".to_string()),
            ("Authorization".to_string(), "Bearer sk-SECRET".to_string()),
        ]
    );
    issue(&registry, "urn:llm:fast:ask", &[("prompt", "hi")], &root(), &mut servers).unwrap();
    assert_eq!(
        servers.log[1].headers,
        vec![("Content-Type".to_string(), "application/json".to_string())]
    );
}

#[test]
fn the_envelope_carries_usage_and_names_the_model_asked_for() {
    let mut servers = Servers::always(CANNED);
    let args = [("prompt", "hi"), ("as", "json")];
    let out = issue(&ollama("m"), "urn:llm:ollama:ask", &args, &root(), &mut servers).unwrap();
    assert_eq!(out.media, "application/json");
    assert!(!out.cacheable);
    assert_eq!(json(&out)["usage"]["total_tokens"], 7);

    let bare = r#"{"choices":[{"message":{"content":"x"}}]}"#;
    let mut servers = Servers::always(bare);
    let out = issue(&ollama("m"), "urn:llm:ollama:ask", &args, &root(), &mut servers).unwrap();
    assert_eq!(
        text(&out),
        r#"{"finish_reason":null,"model":"m","text":"x","usage":null}"#
    );
}

#[test]
fn replies_that_are_no_completion_are_errors() {
    let ask = |status: u16, body: &str| -> String {
        let mut servers = Servers::queue(vec![(status, body)]);
        issue(&ollama("m"), "urn:llm:ollama:ask", &[("prompt", "hi")], &root(), &mut servers)
            .unwrap_err()
            .message()
    };
    assert_eq!(ask(500, "boom"), "endpoint error: llm backend returned 500: boom");
    assert!(ask(200, "nope").starts_with("endpoint error: llm: response was not JSON: "));
    assert_eq!(
        ask(200, "{}"),
        "endpoint error: llm: no choices[0].message.content in response"
    );
    let mut servers = Servers::down();
    let down =
        issue(&ollama("m"), "urn:llm:ollama:ask", &[("prompt", "hi")], &root(), &mut servers);
    assert_eq!(
        down,
        Err(Error::Endpoint("llm transport error: connection refused".to_string()))
    );
}

#[test]
fn an_error_body_that_is_no_utf8_is_read_lossily() {
    let mut servers = Servers::down();
    servers.queue.push_back(HttpReply { status: 503, body: vec![b'a', 0xff, b'b'] });
    let error =
        issue(&ollama("m"), "urn:llm:ollama:ask", &[("prompt", "hi")], &root(), &mut servers)
            .unwrap_err();
    assert_eq!(error.message(), "endpoint error: llm backend returned 503: a\u{fffd}b");
}

#[test]
fn a_missing_default_model_falls_back_to_whats_installed() {
    let mut servers = Servers::queue(vec![
        (404, NOT_FOUND),
        (200, TAGS),
        (200, SHOW_EMBED), // small:3b
        (200, SHOW_CHAT),  // big:latest
        (200, CANNED),
    ]);
    let mut config = OpenAiConfig::ollama("ghost");
    config.provider = "o".to_string();
    let out =
        issue(&Registry::from(config), "urn:llm:o:ask", &[("prompt", "hi")], &root(), &mut servers)
            .unwrap();
    assert_eq!(out.body, b"Hello there!");
    assert_eq!(servers.log.len(), 5, "chat, list, show x2, retry");
    assert!(servers.log[1].url.ends_with("/api/tags"), "listed via native tags");
    assert!(servers.log[2].url.ends_with("/api/show"), "capabilities probed");
    let retry = String::from_utf8_lossy(&servers.log[4].body).to_string();
    assert!(
        retry.contains("big:latest"),
        "retried with the smallest chat-capable model, not the embedder: {retry}"
    );
}

#[test]
fn a_retry_that_is_refused_too_is_not_retried_again() {
    let mut servers = Servers::queue(vec![
        (404, NOT_FOUND),
        (200, TAGS),
        (200, SHOW_CHAT),
        (200, SHOW_CHAT),
        (404, "gone"),
        (200, CANNED),
    ]);
    let refused =
        issue(&ollama("ghost"), "urn:llm:ollama:ask", &[("prompt", "hi")], &root(), &mut servers);
    assert_eq!(
        refused,
        Err(Error::Endpoint("llm backend returned 404: gone".to_string()))
    );
    assert_eq!(servers.log.len(), 5);
}

#[test]
fn without_another_model_the_refusal_is_the_answer() {
    let listing = r#"{"data":[{"id":"ghost"}]}"#;
    let mut servers = Servers::queue(vec![(404, NOT_FOUND), (500, ""), (200, listing)]);
    let refused =
        issue(&ollama("ghost"), "urn:llm:ollama:ask", &[("prompt", "hi")], &root(), &mut servers);
    assert_eq!(
        refused,
        Err(Error::Endpoint(format!("llm backend returned 404: {NOT_FOUND}")))
    );
    assert_eq!(servers.log[2].url, "http://localhost:11434/v1/models");
}

#[test]
fn an_explicit_model_is_never_substituted() {
    let mut servers = Servers::queue(vec![(404, NOT_FOUND)]);
    let denied = issue(
        &ollama("llama3.1"),
        "urn:llm:ollama:ask",
        &[("prompt", "hi"), ("model", "ghost")],
        &root(),
        &mut servers,
    );
    assert!(denied.is_err(), "explicit model + 404 must error");
    assert_eq!(servers.log.len(), 1, "no fallback attempted");
}

#[test]
fn an_unpinned_provider_discovers_its_model_and_answers() {
    let mut servers = Servers::queue(vec![(200, RAPID_MODELS), (200, CANNED)]);
    let out = issue(
        &registry_of(DISCOVERING),
        "urn:llm:rapid:ask",
        &[("prompt", "hi")],
        &root(),
        &mut servers,
    )
    .unwrap();
    assert_eq!(out.body, b"Hello there!");

    assert_eq!(servers.log.len(), 2, "one probe, one chat");
    assert_eq!(servers.log[0].method, Method::Get);
    assert_eq!(servers.log[0].url, "http://localhost:8000/v1/models");
    assert_eq!(servers.body(1)["model"], CANONICAL, "the discovered id, not a guess");
}

#[test]
fn an_explicit_model_beats_discovery_and_probes_nothing() {
    let mut servers = Servers::queue(vec![(200, CANNED)]);
    let out = issue(
        &registry_of(DISCOVERING),
        "urn:llm:rapid:ask",
        &[("prompt", "hi"), ("model", "named:7b")],
        &root(),
        &mut servers,
    )
    .unwrap();
    assert_eq!(out.body, b"Hello there!");
    assert_eq!(servers.log.len(), 1, "no probe: the caller named the model");
    assert_eq!(servers.body(0)["model"], "named:7b");
}

#[test]
fn a_down_backend_names_the_base_url_and_substitutes_nothing() {
    for iri in ["urn:llm:rapid:ask", "urn:llm:rapid:model"] {
        let mut servers = Servers::down();
        let failed =
            issue(&registry_of(DISCOVERING), iri, &[("prompt", "hi")], &root(), &mut servers);
        let msg = failed.unwrap_err().message();
        assert!(msg.contains("could not discover a model"), "{msg}");
        assert!(
            msg.contains("http://localhost:8000/v1"),
            "the error names the base_url: {msg}"
        );
    }
}

#[test]
fn a_server_without_a_chat_model_is_named() {
    let mut servers = Servers::always(r#"{"data":[]}"#);
    let failed = issue(
        &registry_of(DISCOVERING),
        "urn:llm:rapid:model",
        &[],
        &root(),
        &mut servers,
    );
    assert_eq!(
        failed.unwrap_err().message(),
        "endpoint error: urn:llm:rapid:model: could not discover a model at \
         `http://localhost:8000/v1` — this provider declares no `model`, and the server listed \
         no chat-capable model"
    );
}

#[test]
fn discovery_keeps_the_smallest_chat_capable_first_rule() {
    let mut servers = Servers::queue(vec![
        (200, TAGS),
        (200, SHOW_EMBED), // small:3b
        (200, SHOW_CHAT),  // big:latest
        (200, CANNED),
    ]);
    let registry = registry_of(
        r#"{ "default": "any", "providers": { "any": {
            "base_url": "http://localhost:11434/v1",
            "caps": { "vendor": "ollama", "cost": "local" } } } }"#,
    );
    let out =
        issue(&registry, "urn:llm:any:ask", &[("prompt", "hi")], &root(), &mut servers).unwrap();
    assert_eq!(out.body, b"Hello there!");
    assert_eq!(servers.body(3)["model"], "big:latest", "the embedder cannot chat");
}

// ---- the registry ------------------------------------------------------------------

#[test]
fn from_json_parses_a_multi_provider_registry() {
    let reg = registry_of(TWO_PROVIDERS);
    assert_eq!(reg.default, "fast");
    assert_eq!(reg.providers.len(), 2);
    let remote = reg.providers.iter().find(|p| p.provider == "remote").unwrap();
    assert_eq!(remote.default_model.as_deref(), Some("gpt-4o"));
    assert_eq!(remote.api_key.as_deref(), Some("sk-SECRET"));
}

#[test]
fn from_json_parses_caps() {
    let reg = registry_of(TWO_PROVIDERS);
    let fast = reg.providers.iter().find(|p| p.provider == "fast").unwrap();
    assert_eq!(fast.caps.context, Some(131072));
    assert_eq!(fast.caps.tools, Some(true));
    assert_eq!(fast.caps.cost.as_deref(), Some("local"));
    // caps are optional: `remote` declared none.
    let remote = reg.providers.iter().find(|p| p.provider == "remote").unwrap();
    assert_eq!(remote.caps.context, None);
}

#[test]
fn from_json_accepts_an_entry_that_names_only_the_server() {
    let reg = registry_of(DISCOVERING);
    let rapid = reg.providers.iter().find(|p| p.provider == "rapid").unwrap();
    assert_eq!(rapid.default_model, None, "no model pinned");
    let pinned = registry_of(TWO_PROVIDERS);
    assert_eq!(pinned.providers[0].default_model.as_deref(), Some("llama3.2:3b"));
}

#[test]
fn an_unusable_batch_at_fails_the_load_and_names_the_provider() {
    let with = |value: &str| {
        load(&format!(
            r#"{{ "default": "a", "providers": {{
                "a": {{ "base_url": "http://localhost:1/v1" }},
                "b": {{ "base_url": "http://localhost:2/v1", "caps": {{ "batchAt": {value} }} }} }} }}"#
        ))
    };
    assert_eq!(with("2").unwrap().providers[1].caps.batch_at, Some(2));
    assert_eq!(with("2").unwrap().providers[0].caps.batch_at, None);
    for bad in ["0", "\"2\"", "1.5", "-1", "true", "null"] {
        assert_eq!(
            with(bad).unwrap_err(),
            Error::Endpoint(
                "urn:llm:config: provider `b`: batchAt must be a whole number of at least 1"
                    .to_string()
            ),
            "{bad}"
        );
    }
}

#[test]
fn config_resource_reports_providers_with_keys_redacted() {
    let mut servers = Servers::always(CANNED);
    let out =
        issue(&registry_of(TWO_PROVIDERS), "urn:llm:config", &[], &root(), &mut servers).unwrap();
    let v = json(&out);
    assert_eq!(v["default"], "fast");
    assert_eq!(v["providers"]["remote"]["api_key"], "***");
    assert_eq!(v["providers"]["fast"]["api_key"], Value::Null);
    assert!(
        !String::from_utf8_lossy(&out.body).contains("sk-SECRET"),
        "the real key must never appear"
    );
    assert!(out.cacheable);
    assert!(servers.log.is_empty());
}

#[test]
fn of_two_providers_with_one_name_the_later_is_reported() {
    let mut registry = ollama("first");
    registry.providers.push(OpenAiConfig::ollama("second"));
    let mut servers = Servers::down();
    let out = issue(&registry, "urn:llm:config", &[], &root(), &mut servers).unwrap();
    assert_eq!(json(&out)["providers"]["ollama"]["model"], "second");
    let out = issue(&registry, "urn:llm:models", &[], &no_caps(), &mut servers).unwrap();
    assert_eq!(json(&out)["models"]["ollama"]["model"], "second");
}

#[test]
fn a_text_that_is_no_configuration_is_refused() {
    assert_eq!(
        ikigai_llm::config::invalid_config("EOF at line 1"),
        Error::Endpoint("urn:llm:config: invalid JSON: EOF at line 1".to_string())
    );
}

#[test]
fn models_reports_the_annotated_inventory() {
    let mut servers = Servers::always(CANNED);
    let out =
        issue(&registry_of(TWO_PROVIDERS), "urn:llm:models", &[], &root(), &mut servers).unwrap();
    let v = json(&out);
    assert_eq!(v["default"], "fast");
    assert_eq!(v["models"]["fast"]["backend"], "urn:llm:fast:ask");
    assert_eq!(v["models"]["fast"]["caps"]["context"], 131072);
    assert_eq!(v["models"]["remote"]["model"], "gpt-4o");
}

#[test]
fn models_renders_the_trait_graph_as_turtle() {
    let mut servers = Servers::always(CANNED);
    let out = issue(
        &registry_of(TWO_PROVIDERS),
        "urn:llm:models",
        &[("as", "text/turtle")],
        &root(),
        &mut servers,
    )
    .unwrap();
    let ttl = text(&out);
    assert!(ttl.contains("<urn:llm:fast:ask> a ik:LlmBackend"));
    assert!(ttl.contains("ik:context 131072"));
    assert!(ttl.contains("ik:tools true"));
    assert!(ttl.contains("<urn:llm:ask> ik:routesTo <urn:llm:fast:ask>"));
}

#[test]
fn the_trait_graph_is_written_out_in_full() {
    let registry = registry_of(
        r#"{ "default": "a", "providers": {
            "a": { "base_url": "http://localhost:1/v1", "model": "m\"1\\",
                   "caps": { "context": 5, "modalities": ["text", "vision"], "tools": false,
                             "json": true, "cost": "local", "vendor": "mlx", "batchAt": 2,
                             "params": "3B" } },
            "b": { "base_url": "http://localhost:2/v1", "model": "n" } } }"#,
    );
    let mut servers = Servers::down();
    let out = issue(&registry, "urn:llm:models", &[("as", "turtle")], &root(), &mut servers).unwrap();
    assert_eq!(out.media, "text/turtle");
    assert_eq!(
        text(&out),
        "@prefix ik: <https://ikigai-rs.dev/ns#> .\n\
         \n<urn:llm:a:ask> a ik:LlmBackend ;\n    ik:model \"m\\\"1\\\\\" ;\n    ik:context 5 ;\n    \
         ik:modality \"text\" ;\n    ik:modality \"vision\" ;\n    ik:tools false ;\n    \
         ik:jsonMode true ;\n    ik:cost \"local\" ;\n    ik:vendor \"mlx\" ;\n    \
         ik:batchAt 2 ;\n    ik:params \"3B\" .\n\
         \n<urn:llm:b:ask> a ik:LlmBackend ;\n    ik:model \"n\" .\n\
         \n<urn:llm:ask> ik:routesTo <urn:llm:a:ask> .\n"
    );
    let out = issue(&registry, "urn:llm:models", &[], &root(), &mut servers).unwrap();
    assert_eq!(json(&out)["models"]["a"]["caps"]["batchAt"], 2);
    assert_eq!(json(&out)["models"]["b"]["caps"]["batchAt"], Value::Null);
}

#[test]
fn annotations_fill_gaps_and_override_with_conflicts() {
    let mut reg = registry_of(TWO_PROVIDERS);
    let conflicts = reg.apply_annotations(&[
        ("urn:llm:remote:ask", "https://ikigai-rs.dev/ns#vendor", "openai"),
        ("fast", "context", "32768"),
        ("fast", "ik:modality", "vision"),
        ("urn:llm:nobody:ask", "vendor", "acme"),
    ]);
    assert_eq!(
        conflicts,
        vec![AnnotationConflict {
            provider: "fast".to_string(),
            trait_name: "context".to_string(),
            declared: "131072".to_string(),
            annotated: "32768".to_string(),
        }]
    );
    let fast = reg.providers.iter().find(|p| p.provider == "fast").unwrap();
    assert_eq!(fast.caps.context, Some(32768), "annotation overrode");
    assert!(fast.caps.modalities.contains(&"vision".to_string()));
    let remote = reg.providers.iter().find(|p| p.provider == "remote").unwrap();
    assert_eq!(remote.caps.vendor.as_deref(), Some("openai"), "gap filled");
}

#[test]
fn an_annotated_vendor_is_excluded_by_name_and_passes_otherwise() {
    let mut reg = registry_of(TWO_PROVIDERS);
    let conflicts = reg.apply_annotations(&[("remote", "vendor", "openai"), ("fast", "vendor", "mlx")]);
    assert!(conflicts.is_empty());
    let mut servers = Servers::down();
    let out = issue(&reg, "urn:llm:select", &[("needs", "vendor!=openai")], &root(), &mut servers)
        .unwrap();
    assert_eq!(text(&out), "urn:llm:fast:ask");
}

// ---- selection ---------------------------------------------------------------------

fn selected(registry: &Registry, needs: &str, servers: &mut Servers) -> Result<String, Error> {
    issue(registry, "urn:llm:select", &[("needs", needs)], &root(), servers).map(|out| text(&out))
}

#[test]
fn select_picks_the_cheapest_that_fits() {
    let reg = registry_of(SELECTABLE);
    let mut servers = Servers::always(CANNED);
    // seer and posh both see; seer is local (cheaper) -> wins.
    assert_eq!(selected(&reg, "vision", &mut servers).unwrap(), "urn:llm:seer:ask");
    // only posh has tools + vision.
    assert_eq!(selected(&reg, "vision, tools", &mut servers).unwrap(), "urn:llm:posh:ask");
    // fast and posh have >=100k context; fast is local -> wins.
    assert_eq!(selected(&reg, "ctx>=100k", &mut servers).unwrap(), "urn:llm:fast:ask");
    // seer fits 32k exactly and ties with fast on cost; smaller context wins.
    assert_eq!(
        selected(&reg, "ctx>=32k, cost<=cheap", &mut servers).unwrap(),
        "urn:llm:seer:ask"
    );
}

#[test]
fn vendor_and_provider_constraints_apply() {
    let reg = registry_of(SELECTABLE);
    let mut servers = Servers::always(CANNED);
    assert_eq!(selected(&reg, "vendor!=openai", &mut servers).unwrap(), "urn:llm:seer:ask");
    let none = selected(&reg, "tools, vendor!=openai", &mut servers);
    assert!(none.is_err(), "tools only exists at openai here");
    assert_eq!(selected(&reg, "vendor=openai", &mut servers).unwrap(), "urn:llm:posh:ask");
    assert_eq!(selected(&reg, "provider=fast", &mut servers).unwrap(), "urn:llm:fast:ask");
    assert_eq!(
        selected(&reg, "provider!=seer, vendor!=openai", &mut servers).unwrap(),
        "urn:llm:fast:ask"
    );
}

#[test]
fn an_undeclared_vendor_cannot_pass_a_vendor_exclusion() {
    let mut servers = Servers::always(CANNED);
    let none = selected(&registry_of(TWO_PROVIDERS), "vendor!=openai", &mut servers);
    assert!(none.is_err(), "undeclared vendor must fail the exclusion");
}

#[test]
fn select_reports_no_match_and_bad_terms_clearly() {
    let reg = registry_of(SELECTABLE);
    let mut servers = Servers::always(CANNED);
    let msg = selected(&reg, "audio", &mut servers).unwrap_err().message();
    assert!(msg.contains("no configured backend satisfies"), "{msg}");
    assert!(msg.contains("fast"), "lists providers: {msg}");
    assert_eq!(
        msg,
        "endpoint error: urn:llm:select: no configured backend satisfies `audio` \
         (providers: fast, posh, seer) — see urn:llm:models"
    );

    let bad_term = selected(&reg, "speed>=9", &mut servers);
    assert!(bad_term.is_err(), "unknown trait must error, not mis-select");
}

#[test]
fn select_as_json_returns_the_detail() {
    let mut servers = Servers::always(CANNED);
    let out = issue(
        &registry_of(SELECTABLE),
        "urn:llm:select",
        &[("needs", "vision"), ("as", "application/json")],
        &root(),
        &mut servers,
    )
    .unwrap();
    let v = json(&out);
    assert_eq!(v["backend"], "urn:llm:seer:ask");
    assert_eq!(v["model"], "llava:7b");
    assert_eq!(v["provider"], "seer");
    assert_eq!(v["cost"], "local");
    assert_eq!(v["vendor"], "ollama");
    assert_eq!(v["context"], 32768);
}

#[test]
fn the_facade_routes_by_needs() {
    let mut servers = Servers::always(CANNED);
    let out = issue(
        &registry_of(SELECTABLE),
        "urn:llm:ask",
        &[("prompt", "hi"), ("needs", "vision")],
        &root(),
        &mut servers,
    )
    .unwrap();
    assert_eq!(out.body, b"Hello there!");
    let sent = servers.log.last().unwrap();
    let body = String::from_utf8(sent.body.clone()).unwrap();
    assert!(body.contains("llava:7b"), "routed to seer: {body}");
}

#[test]
fn an_explicit_provider_beats_requirements() {
    let facade = AskFacade::new(registry_of(SELECTABLE));
    match facade.route(&root(), Some("posh"), Some("no such term")) {
        RouteStep::Done(target) => assert_eq!(target.unwrap(), "urn:llm:posh:ask"),
        RouteStep::Send { .. } => panic!("an explicit provider asks nobody"),
    }
    match facade.route(&no_caps(), None, None) {
        RouteStep::Done(target) => assert_eq!(target.unwrap(), "urn:llm:fast:ask"),
        RouteStep::Send { .. } => panic!("the default asks nobody"),
    }
    match facade.route(&no_caps(), None, Some("audio")) {
        RouteStep::Done(target) => assert_eq!(
            target.unwrap_err().message(),
            "endpoint error: urn:llm:ask: no configured backend satisfies `audio` \
             (providers: fast, posh, seer) — see urn:llm:models"
        ),
        RouteStep::Send { .. } => panic!("a capability for nothing asks nobody"),
    }
}

#[test]
fn a_provider_name_that_makes_no_iri_is_refused() {
    let facade = AskFacade::new(registry_of(SELECTABLE));
    match facade.route(&root(), Some("bad name"), None) {
        RouteStep::Done(target) => {
            let msg = target.unwrap_err().message();
            assert!(
                msg.starts_with("endpoint error: urn:llm:ask: bad provider `bad name`: invalid IRI: "),
                "{msg}"
            );
        }
        RouteStep::Send { .. } => panic!("an explicit provider asks nobody"),
    }
}

#[test]
fn a_fan_out_selects_the_backend_that_batches() {
    let reg = registry_of(
        r#"{ "default": "serial", "providers": {
            "serial": { "base_url": "http://localhost:11434/v1", "model": "q",
                        "caps": { "cost": "local", "vendor": "x" } },
            "rapid":  { "base_url": "http://localhost:8000/v1", "model": "q",
                        "caps": { "cost": "local", "vendor": "mlx", "batchAt": 2 } } } }"#,
    );
    let mut servers = Servers::down();
    assert_eq!(selected(&reg, "batchAt<=10", &mut servers).unwrap(), "urn:llm:rapid:ask");
    assert_eq!(selected(&reg, "batchAt<=2", &mut servers).unwrap(), "urn:llm:rapid:ask");
    assert!(selected(&reg, "batchAt<=1", &mut servers).is_err());
    assert!(selected(&reg, "batchAt<=10, provider=serial", &mut servers).is_err());
    assert_eq!(
        selected(&reg, "batchAt<=ten", &mut servers).unwrap_err().message(),
        "invalid argument `needs`: `batchAt<=ten`: expected a request count"
    );
}

// ---- discovery ---------------------------------------------------------------------

#[test]
fn discovery_fills_gaps_and_declared_wins() {
    let reg = registry_of(
        r#"{ "default": "o", "providers": { "o": {
            "base_url": "http://localhost:11434/v1", "model": "llama3.2:3b",
            "caps": { "vendor": "ollama", "cost": "local", "context": 999 } } } }"#,
    );
    let mut servers = Servers::always(SHOW);
    let out = issue(&reg, "urn:llm:models", &[], &root(), &mut servers).unwrap();
    let v = json(&out);
    let caps = &v["models"]["o"]["caps"];
    assert_eq!(caps["context"], 999, "declared context wins over discovered");
    assert_eq!(caps["tools"], true, "tools discovered from /api/show");
    assert_eq!(caps["params"], "3.2B", "params discovered");
    assert_eq!(caps["cost"], "local", "declared cost untouched");
}

#[test]
fn a_shown_context_fills_a_gap() {
    let reg = registry_of(
        r#"{ "default": "o", "providers": { "o": {
            "base_url": "http://localhost:11434/v1", "model": "llama3.2:3b",
            "caps": { "vendor": "ollama" } } } }"#,
    );
    let show = r#"{"model_info":{"b.context_length":2,"a.context_length":1,"c":3},"capabilities":["vision"]}"#;
    let mut servers = Servers::always(show);
    let out = issue(&reg, "urn:llm:models", &[], &root(), &mut servers).unwrap();
    let caps = &json(&out)["models"]["o"]["caps"];
    assert_eq!(caps["context"], 1);
    assert_eq!(caps["modalities"][0], "text");
    assert_eq!(caps["modalities"][1], "vision");
    assert_eq!(caps["tools"], false);
    assert_eq!(servers.log.len(), 1);
    assert_eq!(servers.log[0].url, "http://localhost:11434/api/show");
    assert_eq!(servers.body(0)["model"], "llama3.2:3b");
}

#[test]
fn discovery_only_probes_declared_ollama_vendors() {
    let reg = registry_of(
        r#"{ "default": "x", "providers": { "x": {
            "base_url": "http://localhost:8000/v1", "model": "m" } } }"#,
    );
    let mut servers = Servers::always(SHOW);
    let _ = issue(&reg, "urn:llm:models", &[], &root(), &mut servers).unwrap();
    assert!(servers.log.is_empty(), "an unknown vendor must not be probed");
}

#[test]
fn discovery_failure_degrades_to_declared() {
    let mut servers = Servers::down();
    let out = issue(&ollama("llama3.2:3b"), "urn:llm:models", &[], &root(), &mut servers).unwrap();
    assert_eq!(json(&out)["models"]["ollama"]["caps"]["cost"], "local");
}

#[test]
fn selection_reasons_over_discovered_traits() {
    let reg = registry_of(
        r#"{ "default": "o", "providers": { "o": {
            "base_url": "http://localhost:11434/v1", "model": "llama3.2:3b",
            "caps": { "vendor": "ollama" } } } }"#,
    );
    let mut servers = Servers::always(SHOW);
    assert_eq!(selected(&reg, "tools", &mut servers).unwrap(), "urn:llm:o:ask");
}

#[test]
fn discovery_fills_capability_but_declared_values_win() {
    let reg = registry_of(
        r#"{ "default": "rapid", "providers": { "rapid": {
            "base_url": "http://localhost:8000/v1",
            "caps": { "cost": "local", "vendor": "mlx", "context": 4096 } } } }"#,
    );
    let mut servers = Servers::always(RAPID_MODELS);
    let out = issue(&reg, "urn:llm:models", &[], &root(), &mut servers).unwrap();
    let v = json(&out);
    let entry = &v["models"]["rapid"];
    assert_eq!(entry["model"], CANONICAL, "the model is discovered");
    assert_eq!(entry["caps"]["tools"], true, "tools discovered from listing");
    assert_eq!(entry["caps"]["modalities"][0], "text", "modality discovered");
    assert_eq!(
        entry["caps"]["context"], 4096,
        "a DECLARED context wins over the server's 262144"
    );
    assert_eq!(entry["caps"]["vendor"], "mlx", "declared vendor stands");
    assert_eq!(entry["caps"]["cost"], "local", "declared cost stands");
}

#[test]
fn a_server_cannot_launder_itself_past_a_governance_exclusion() {
    let reg = registry_of(DISCOVERING);
    let mut servers = Servers::always(RAPID_MODELS);
    let out = issue(&reg, "urn:llm:models", &[], &root(), &mut servers).unwrap();
    let v = json(&out);
    assert_eq!(v["models"]["rapid"]["caps"]["vendor"], Value::Null);
    assert_eq!(v["models"]["rapid"]["caps"]["cost"], Value::Null);
    // ...while the capability it DID advertise is there to route on.
    assert_eq!(v["models"]["rapid"]["caps"]["context"], 262144);

    let laundered = selected(&reg, "vendor!=openai", &mut servers);
    assert!(
        laundered.is_err(),
        "a self-reported owner must not satisfy a vendor exclusion"
    );
}

#[test]
fn a_denied_capability_discovers_nothing_and_the_declared_profile_stands() {
    let mut servers = Servers::always(RAPID_MODELS);
    let out = issue(&registry_of(DISCOVERING), "urn:llm:models", &[], &no_caps(), &mut servers)
        .unwrap();
    assert_eq!(json(&out)["models"]["rapid"]["model"], Value::Null);
    assert!(servers.log.is_empty());
}

#[test]
fn an_unreachable_server_leaves_the_others_completed() {
    let reg = registry_of(
        r#"{ "default": "a", "providers": {
            "a": { "base_url": "http://localhost:1/v1" },
            "b": { "base_url": "http://localhost:2/v1" } } }"#,
    );
    let mut servers = Servers::queue(vec![(500, ""), (200, RAPID_MODELS)]);
    let out = issue(&reg, "urn:llm:models", &[], &root(), &mut servers).unwrap();
    assert_eq!(json(&out)["models"]["a"]["model"], Value::Null);
    assert_eq!(json(&out)["models"]["b"]["model"], CANONICAL);
    assert_eq!(servers.log[0].url, "http://localhost:1/v1/models");
    assert_eq!(servers.log[1].url, "http://localhost:2/v1/models");
}

#[test]
fn config_derived_resources_stay_cacheable_for_pinned_registries() {
    let pinned = registry_of(SELECTABLE);
    for (iri, args) in [
        ("urn:llm:models", vec![]),
        ("urn:llm:select", vec![("needs", "vision")]),
    ] {
        let mut servers = Servers::always(CANNED);
        let out = issue(&pinned, iri, &args, &root(), &mut servers).unwrap();
        assert!(out.cacheable, "{iri} is config-derived here");
    }
    // One discovering provider makes the inventory a live fact.
    let mut servers = Servers::always(RAPID_MODELS);
    let out = issue(&registry_of(DISCOVERING), "urn:llm:models", &[], &root(), &mut servers).unwrap();
    assert!(!out.cacheable, "discovery must not be cached");
    let out = issue(
        &registry_of(DISCOVERING),
        "urn:llm:select",
        &[("needs", "text")],
        &root(),
        &mut servers,
    )
    .unwrap();
    assert!(!out.cacheable);
}

// ---- live facts --------------------------------------------------------------------

#[test]
fn supports_filters_out_models_that_cannot_chat() {
    let mut servers = Servers::queue(vec![(200, TAGS), (200, SHOW_EMBED), (200, SHOW_CHAT)]);
    let out = issue(
        &ollama("llama3.1"),
        "urn:llm:ollama:installed",
        &[("supports", "completion")],
        &root(),
        &mut servers,
    )
    .unwrap();
    assert_eq!(out.body, b"big:latest");
}

#[test]
fn unknown_capabilities_pass_the_supports_filter() {
    let mut servers = Servers::always(INSTALLED);
    let out = issue(
        &ollama("llama3.1"),
        "urn:llm:ollama:installed",
        &[("supports", "completion")],
        &root(),
        &mut servers,
    )
    .unwrap();
    assert_eq!(out.body, b"real:latest\nother:7b");
}

#[test]
fn installed_is_smallest_first_with_sizes() {
    let mut servers = Servers::always(TAGS);
    let out =
        issue(&ollama("llama3.1"), "urn:llm:ollama:installed", &[], &root(), &mut servers).unwrap();
    assert_eq!(out.body, b"small:3b\nbig:latest");
    let out = issue(
        &ollama("llama3.1"),
        "urn:llm:ollama:installed",
        &[("as", "application/json")],
        &root(),
        &mut servers,
    )
    .unwrap();
    let v = json(&out);
    assert_eq!(v[0]["model"], "small:3b");
    assert_eq!(v[0]["size"], 2000000000u64);
    assert_eq!(v[1]["model"], "big:latest");
    // `/api/show` is answered with the tags body, which has no capabilities, so the json
    // face reports unknown as an empty array.
    assert_eq!(v[0]["capabilities"], Value::Array(vec![]));
}

#[test]
fn installed_lists_the_servers_models() {
    let mut servers = Servers::always(INSTALLED);
    let out =
        issue(&ollama("llama3.1"), "urn:llm:ollama:installed", &[], &root(), &mut servers).unwrap();
    assert_eq!(out.body, b"real:latest\nother:7b");
    assert!(!out.cacheable);
}

#[test]
fn sizes_tie_in_server_order_and_unknown_sizes_come_last() {
    let tags = r#"{"models":[{"name":"x"},{"name":"c","size":2},{"name":"a","size":1},
        {"name":"b","size":1},{"size":0},{"name":"y"}]}"#;
    let mut servers = Servers::queue(vec![(200, tags)]);
    let out =
        issue(&ollama("llama3.1"), "urn:llm:ollama:installed", &[], &root(), &mut servers).unwrap();
    assert_eq!(out.body, b"a\nb\nc\nx\ny");
    assert_eq!(servers.log.len(), 6, "tags, then one show each");
}

#[test]
fn a_listing_that_fails_says_why() {
    let reg = registry_of(DISCOVERING);
    let list = |servers: &mut Servers, cap: &Capability| -> String {
        issue(&reg, "urn:llm:rapid:installed", &[], cap, servers).unwrap_err().message()
    };
    assert_eq!(
        list(&mut Servers::down(), &root()),
        "endpoint error: llm transport error: connection refused"
    );
    assert_eq!(
        list(&mut Servers::queue(vec![(503, "")]), &root()),
        "endpoint error: urn:llm:rapid:installed: provider returned 503"
    );
    assert!(list(&mut Servers::queue(vec![(200, "{")]), &root())
        .starts_with("endpoint error: llm: model list was not JSON: "));
    assert_eq!(
        list(&mut Servers::down(), &no_caps()),
        "endpoint error: urn:llm:rapid:installed: capability does not allow reaching \
         `localhost` (needs urn:cap:net:localhost)"
    );
}

#[test]
fn up_is_true_when_the_provider_answers() {
    let mut servers = Servers::always("{}");
    let out = issue(&ollama("llama3.1"), "urn:llm:ollama:up", &[], &root(), &mut servers).unwrap();
    assert_eq!(out.body, b"true");
    // and the ping was the cheap models listing, not a completion
    let pinged = servers.log.last().unwrap();
    assert_eq!(pinged.url, "http://localhost:11434/v1/models");
    assert_eq!(pinged.method, Method::Get);
}

#[test]
fn up_is_false_when_the_provider_is_unreachable() {
    let mut servers = Servers::down();
    let out = issue(&ollama("llama3.1"), "urn:llm:ollama:up", &[], &root(), &mut servers).unwrap();
    assert_eq!(out.body, b"false");
}

#[test]
fn denied_is_an_error_and_not_down() {
    let mut servers = Servers::always("{}");
    let denied = issue(&ollama("llama3.1"), "urn:llm:ollama:up", &[], &no_caps(), &mut servers);
    assert_eq!(
        denied,
        Err(Error::Endpoint(
            "urn:llm:ollama:up: capability does not allow reaching `localhost` (needs urn:cap:net:localhost)"
                .to_string()
        ))
    );
    let mut servers = Servers::queue(vec![(404, "")]);
    let out = issue(&ollama("llama3.1"), "urn:llm:ollama:up", &[], &root(), &mut servers).unwrap();
    assert_eq!(out.body, b"false");
    assert!(!out.cacheable);
}

#[test]
fn model_reports_the_configured_id_verbatim() {
    let reg = registry_of(TWO_PROVIDERS);
    let mut servers = Servers::down();
    let out = issue(&reg, "urn:llm:fast:model", &[], &no_caps(), &mut servers).unwrap();
    assert_eq!(out.body, b"llama3.2:3b");
    assert_eq!(out.content_type(), "text/plain;charset=utf-8");
    assert!(out.cacheable, "config-derived: cacheable like urn:llm:config");
    let remote = issue(&reg, "urn:llm:remote:model", &[], &no_caps(), &mut servers).unwrap();
    assert_eq!(remote.body, b"gpt-4o");
    assert!(servers.log.is_empty());
}

#[test]
fn the_identity_face_answers_from_config_or_from_the_server() {
    let mut servers = Servers::down();
    let out =
        issue(&registry_of(TWO_PROVIDERS), "urn:llm:fast:model", &[], &no_caps(), &mut servers)
            .unwrap();
    assert_eq!(out.body, b"llama3.2:3b");
    assert!(out.cacheable);

    let reg = registry_of(DISCOVERING);
    let mut servers = Servers::always(RAPID_MODELS);
    let live = issue(&reg, "urn:llm:rapid:model", &[], &root(), &mut servers).unwrap();
    assert_eq!(text(&live), CANONICAL);
    assert!(!live.cacheable, "uncacheable");

    // ...and it is capability-gated, because it reaches the network.
    let denied = issue(&reg, "urn:llm:rapid:model", &[], &no_caps(), &mut servers);
    assert!(denied.is_err(), "a probing :model needs urn:cap:net");
}
