//! The parts on their own: texts, requirements, profiles, listings and annotations.

use ikigai_llm::annotate::AnnotationConflict;
use ikigai_llm::answer::{plain, structured, wants};
use ikigai_llm::config::{any_discovering, merge_declared_wins, Caps, OpenAiConfig, Registry};
use ikigai_llm::models::{
    keep_supporting, listing_caps, model_supports, read_listing, read_shown, read_tags,
    smallest_first, InstalledModel,
};
use ikigai_llm::needs::{cost_rank, parse_needs, parse_tokens, Need};
use ikigai_llm::net::{allow_native, get, post_json, require_net, Method};
use ikigai_llm::select::{satisfies, select};
use ikigai_llm::text::{
    cut, cut_head, holds, is_among, join, read_natural, split, trim, trim_tails,
    write_natural,
};
use ikigai_llm::turtle::{ttl_str, write_turtle};
use ikigai_llm::Error;
use serde_json::Value;

fn value(text: &str) -> Value {
    serde_json::from_str(text).unwrap()
}

fn provider(name: &str, caps: Caps) -> OpenAiConfig {
    OpenAiConfig {
        provider: name.to_string(),
        base_url: "http://localhost:1/v1".to_string(),
        default_model: Some("m".to_string()),
        api_key: None,
        caps,
    }
}

// ---- texts -------------------------------------------------------------------------

#[test]
fn texts_are_trimmed_of_white_space() {
    assert_eq!(trim("  a b\t\n"), "a b");
    assert_eq!(trim("\u{a0}x\u{2003}"), "x");
    assert_eq!(trim(" \n "), "");
    assert_eq!(trim("x"), "x");
}

#[test]
fn texts_are_cut_split_and_joined() {
    assert_eq!(cut("a>=b>=c", ">="), Some(("a", "b>=c")));
    assert_eq!(cut("abc", "="), None);
    assert_eq!(cut_head("ik:vendor", "ik:"), Some("vendor"));
    assert_eq!(cut_head("vendor", "ik:"), None);
    assert_eq!(cut_head("", "ik:"), None);
    assert!(is_among(&vec!["a".to_string(), "b".to_string()], "b"));
    assert!(!is_among(&vec![], "b"));
    assert_eq!(split("a,,b,", ','), vec!["a", "", "b", ""]);
    assert_eq!(split("", ','), vec![""]);
    assert_eq!(join(&vec!["a".to_string(), "b".to_string()], ", "), "a, b");
    assert_eq!(join(&vec![], ", "), "");
    assert!(holds("application/json", "json"));
    assert!(!holds("text/plain", "json"));
    assert_eq!(trim_tails("http://h/v1//", "/"), "http://h/v1");
    assert_eq!(trim_tails("http://h/v1/v1", "/v1"), "http://h");
}

#[test]
fn naturals_are_read_and_written() {
    assert_eq!(read_natural("0"), Some(0));
    assert_eq!(read_natural("+7"), Some(7));
    assert_eq!(read_natural("18446744073709551615"), Some(u64::MAX));
    assert_eq!(read_natural("18446744073709551616"), None);
    assert_eq!(read_natural(""), None);
    assert_eq!(read_natural("+"), None);
    assert_eq!(read_natural("-1"), None);
    assert_eq!(read_natural(" 1"), None);
    assert_eq!(read_natural("1.0"), None);
    assert_eq!(write_natural(0), "0");
    assert_eq!(write_natural(907), "907");
    assert_eq!(write_natural(u64::MAX), "18446744073709551615");
}

// ---- requirements ------------------------------------------------------------------

#[test]
fn cost_tiers_are_ordered() {
    assert_eq!(cost_rank("local"), Some(0));
    assert_eq!(cost_rank("cheap"), Some(1));
    assert_eq!(cost_rank("premium"), Some(2));
    assert_eq!(cost_rank("free"), None);
}

#[test]
fn token_counts_take_a_k() {
    assert_eq!(parse_tokens("32k"), Some(32768));
    assert_eq!(parse_tokens(" 32 K "), Some(32768));
    assert_eq!(parse_tokens("32000"), Some(32000));
    assert_eq!(parse_tokens("k"), None);
    assert_eq!(parse_tokens("32kk"), None);
    assert_eq!(parse_tokens("many"), None);
    assert_eq!(parse_tokens("18014398509481983k"), Some(18446744073709550592));
    assert_eq!(parse_tokens("18014398509481984k"), None);
}

#[test]
fn every_term_is_read() {
    assert_eq!(
        parse_needs(
            "ctx>=32k, context >= 5, cost<=cheap, cost = local, vision, modality=audio, tools, \
             json, vendor=ollama, vendor != openai, provider=fast, provider!=posh, batchAt<=10,"
        )
        .unwrap(),
        vec![
            Need::ContextAtLeast(32768),
            Need::ContextAtLeast(5),
            Need::CostAtMost(1),
            Need::CostExactly(0),
            Need::Modality("vision".to_string()),
            Need::Modality("audio".to_string()),
            Need::Tools,
            Need::Json,
            Need::VendorIs("ollama".to_string()),
            Need::VendorNot("openai".to_string()),
            Need::ProviderIs("fast".to_string()),
            Need::ProviderNot("posh".to_string()),
            Need::BatchAtMost(10),
        ]
    );
    assert_eq!(parse_needs(" , ,").unwrap(), vec![]);
    assert_eq!(parse_needs("").unwrap(), vec![]);
}

#[test]
fn expressions_join_at_commas() {
    let mut apart = parse_needs("vision, ctx>=32k").unwrap();
    apart.extend(parse_needs(" cost=local").unwrap());
    assert_eq!(parse_needs("vision, ctx>=32k, cost=local").unwrap(), apart);
    // The first complaint is the complaint about the whole.
    assert_eq!(parse_needs("vision,fast,ctx>=x"), parse_needs("fast"));
    assert_eq!(parse_needs("vision,ctx>=x,fast"), parse_needs("ctx>=x"));
}

#[test]
fn mistyped_terms_are_refused_by_name() {
    for (expr, detail) in [
        ("ctx>=lots", "`ctx>=lots`: expected a token count"),
        ("speed >= 9", "`speed >= 9`: `speed` does not support >="),
        ("cost<=free", "`cost<=free`: expected local|cheap|premium"),
        ("ctx<=9", "`ctx<=9`: `ctx` does not support <="),
        ("batchAt<=-1", "`batchAt<=-1`: expected a request count"),
        ("cost!=local", "`cost!=local`: `cost` does not support !="),
        ("cost=free", "`cost=free`: expected local|cheap|premium"),
        ("color=red", "`color=red`: unknown trait `color`"),
        ("vision, sight, sound", "`sight`: unknown requirement `sight`"),
    ] {
        let error = parse_needs(expr).unwrap_err();
        assert_eq!(
            error,
            Error::InvalidArgument { name: "needs".to_string(), detail: detail.to_string() },
            "{expr}"
        );
        assert_eq!(error.message(), format!("invalid argument `needs`: {detail}"));
    }
}

#[test]
fn an_undeclared_trait_meets_no_requirement() {
    let bare = provider("bare", Caps::default());
    for needs in [
        "ctx>=0", "cost<=premium", "cost=local", "text", "tools", "json", "vendor=x", "vendor!=x",
        "batchAt<=1000",
    ] {
        assert!(!satisfies(&bare, &parse_needs(needs).unwrap()), "{needs}");
    }
    assert!(satisfies(&bare, &parse_needs("provider=bare, provider!=x").unwrap()));
    assert!(satisfies(&bare, &parse_needs("").unwrap()));
}

#[test]
fn ties_go_to_registry_order_and_undeclared_tiers_come_last() {
    let tier = |cost: Option<&str>, context: Option<u64>| Caps {
        cost: cost.map(|c| c.to_string()),
        context,
        ..Caps::default()
    };
    let registry = Registry {
        default: "a".to_string(),
        providers: vec![
            provider("undeclared", tier(None, Some(1))),
            provider("odd", tier(Some("free"), Some(1))),
            provider("premium", tier(Some("premium"), Some(1))),
            provider("first", tier(Some("cheap"), None)),
            provider("second", tier(Some("cheap"), None)),
            provider("smaller", tier(Some("cheap"), Some(9))),
        ],
    };
    let pick = |needs: &str| {
        select(&registry, &parse_needs(needs).unwrap()).map(|p| p.provider.clone())
    };
    assert_eq!(pick("").as_deref(), Some("smaller"));
    assert_eq!(pick("provider!=smaller").as_deref(), Some("first"));
    assert_eq!(
        pick("provider!=smaller, provider!=first, provider!=second").as_deref(),
        Some("premium")
    );
    assert_eq!(
        pick("provider!=smaller, provider!=first, provider!=second, provider!=premium").as_deref(),
        Some("undeclared")
    );
    assert_eq!(pick("provider=nobody"), None);
}

#[test]
fn load_shape_does_not_rank() {
    let shaped = |batch_at: Option<u64>| Caps { batch_at, ..Caps::default() };
    let registry = Registry {
        default: "a".to_string(),
        providers: vec![provider("a", shaped(None)), provider("b", shaped(Some(1)))],
    };
    let chosen = select(&registry, &parse_needs("").unwrap()).unwrap();
    assert_eq!(chosen.provider, "a");
}

// ---- profiles ----------------------------------------------------------------------

#[test]
fn declared_values_win_and_gaps_are_filled() {
    let declared = Caps {
        context: Some(1),
        cost: Some("local".to_string()),
        ..Caps::default()
    };
    let discovered = Caps {
        context: Some(2),
        modalities: vec!["text".to_string()],
        tools: Some(true),
        json: Some(false),
        cost: None,
        vendor: None,
        batch_at: None,
        params: Some("3B".to_string()),
    };
    let merged = merge_declared_wins(&declared, discovered.clone());
    assert_eq!(
        merged,
        Caps {
            context: Some(1),
            modalities: vec!["text".to_string()],
            tools: Some(true),
            json: Some(false),
            cost: Some("local".to_string()),
            vendor: None,
            batch_at: None,
            params: Some("3B".to_string()),
        }
    );
    assert_eq!(merge_declared_wins(&merged, discovered), merged);
}

#[test]
fn a_registry_of_one_is_its_own_default() {
    let registry = Registry::default();
    assert_eq!(registry.default, "ollama");
    assert_eq!(registry.providers[0].default_model.as_deref(), Some("llama3.2"));
    assert_eq!(registry.providers[0].base_url, "http://localhost:11434/v1");
    assert_eq!(registry.providers[0].caps.vendor.as_deref(), Some("ollama"));
    assert!(!any_discovering(&registry));
    let server = OpenAiConfig::discovering("rapid", "http://localhost:8000/v1");
    assert_eq!(server.caps, Caps::default());
    assert!(any_discovering(&Registry::from(server)));
}

#[test]
fn annotations_cover_every_trait_and_report_each_override() {
    let mut registry = Registry::single(OpenAiConfig::ollama("m"));
    let first = registry.apply_annotations(&[
        ("ollama", "ik:tools", "true"),
        ("ollama", "jsonMode", "false"),
        ("ollama", "ik:batchAt", "2"),
        ("ollama", "params", "3B"),
        ("ollama", "context", "many"),
        ("ollama", "tools", "yes"),
        ("ollama", "batchAt", "0"),
        ("ollama", "colour", "red"),
    ]);
    assert!(first.is_empty());
    let caps = &registry.providers[0].caps;
    assert_eq!(
        (caps.tools, caps.json, caps.batch_at, caps.context),
        (Some(true), Some(false), Some(2), None)
    );
    let again = registry.apply_annotations(&[
        ("urn:llm:ollama:ask", "https://ikigai-rs.dev/ns#tools", "false"),
        ("ollama", "json", "true"),
        ("ollama", "batchAt", "3"),
        ("ollama", "vendor", "acme"),
        ("ollama", "vendor", "acme"),
        ("ollama", "cost", "cheap"),
        ("ollama", "params", "4B"),
    ]);
    let rows: Vec<(&str, &str, &str)> = again
        .iter()
        .map(|c| (c.trait_name.as_str(), c.declared.as_str(), c.annotated.as_str()))
        .collect();
    assert_eq!(
        rows,
        vec![
            ("tools", "true", "false"),
            ("json", "false", "true"),
            ("batchAt", "2", "3"),
            ("vendor", "ollama", "acme"),
            ("cost", "local", "cheap"),
            ("params", "3B", "4B"),
        ]
    );
}

#[test]
fn predicates_of_other_vocabularies_are_ignored() {
    let mut registry = Registry::single(OpenAiConfig::ollama("m"));
    let conflicts = registry.apply_annotations(&[
        ("ollama", "http://other.example/ns#vendor", "openai"),
        ("ollama", "schema:vendor", "openai"),
        ("ollama", "urn:x:cost", "premium"),
        ("ollama", "https://ikigai-rs.dev/ns#ik:cost", "premium"),
        ("ollama", "ik:ik:cost", "premium"),
        ("ollama", "#vendor", "openai"),
    ]);
    assert!(conflicts.is_empty());
    assert_eq!(registry.providers[0].caps, OpenAiConfig::ollama("m").caps);
}

#[test]
fn facts_act_alike_in_every_form() {
    let mut outcomes = Vec::new();
    for (subject, vendor, context) in [
        ("urn:llm:ollama:ask", "https://ikigai-rs.dev/ns#vendor", "https://ikigai-rs.dev/ns#context"),
        ("ollama", "ik:vendor", "ik:context"),
        ("ollama", "vendor", "context"),
    ] {
        let mut registry = Registry::single(OpenAiConfig::ollama("m"));
        let conflicts =
            registry.apply_annotations(&[(subject, vendor, "acme"), (subject, context, "5")]);
        outcomes.push((conflicts, registry.providers[0].caps.clone()));
    }
    assert_eq!(outcomes[0].0.len(), 1);
    assert_eq!(outcomes[0].1.context, Some(5));
    assert_eq!(outcomes[0], outcomes[1]);
    assert_eq!(outcomes[0], outcomes[2]);
}

#[test]
fn facts_applied_again_change_nothing() {
    let facts = [
        ("ollama", "vendor", "acme"),
        ("ollama", "modality", "text"),
        ("ollama", "ik:modality", "vision"),
        ("ollama", "context", "+5"),
        ("ollama", "context", "5"),
        ("nobody", "context", "6"),
    ];
    let mut registry = Registry::single(OpenAiConfig::ollama("m"));
    assert_eq!(registry.apply_annotations(&facts).len(), 1);
    let once = registry.providers[0].caps.clone();
    assert!(registry.apply_annotations(&facts).is_empty());
    assert_eq!(registry.providers[0].caps, once);

    // Facts that disagree report again, and leave the same registry.
    let disagreeing = [("ollama", "cost", "cheap"), ("ollama", "cost", "premium")];
    assert_eq!(registry.apply_annotations(&disagreeing).len(), 2);
    let once = registry.providers[0].caps.clone();
    assert_eq!(registry.apply_annotations(&disagreeing).len(), 2);
    assert_eq!(registry.providers[0].caps, once);
}

#[test]
fn the_trait_graph_fed_back_restores_the_profile() {
    let caps = Caps {
        context: Some(131072),
        modalities: vec!["text".to_string(), "vision".to_string()],
        tools: Some(true),
        json: Some(false),
        cost: Some("local".to_string()),
        vendor: Some("a \"b\"\n".to_string()),
        batch_at: Some(2),
        params: Some("3B".to_string()),
    };
    let registry = Registry::single(provider("p", caps.clone()));
    let facts = facts_about("p", &registry);
    assert_eq!(facts.len(), 11);
    let mut bare = Registry::single(provider("p", Caps::default()));
    assert!(annotate(&mut bare, &facts).is_empty());
    assert_eq!(bare.providers[0].caps, caps);
}

/// The facts about a provider, read off the Turtle of the registry's graph.
fn facts_about(name: &str, registry: &Registry) -> Vec<(String, String, String)> {
    let turtle = write_turtle(registry);
    let subject = format!("urn:llm:{name}:ask");
    let head = format!("<{subject}> ");
    let block = turtle.split(head.as_str()).nth(1).unwrap().split(" .\n").next().unwrap();
    let mut facts = Vec::new();
    for property in block.split(" ;\n    ") {
        let (predicate, object) = property.split_once(' ').unwrap();
        let object = match object.strip_prefix('"') {
            Some(quoted) => quoted
                .strip_suffix('"')
                .unwrap()
                .replace("\\n", "\n")
                .replace("\\\"", "\""),
            None => object.to_string(),
        };
        facts.push((subject.clone(), predicate.to_string(), object));
    }
    facts
}

fn annotate(registry: &mut Registry, facts: &[(String, String, String)]) -> Vec<AnnotationConflict> {
    let facts: Vec<(&str, &str, &str)> =
        facts.iter().map(|(s, p, o)| (s.as_str(), p.as_str(), o.as_str())).collect();
    registry.apply_annotations(&facts)
}

fn row(names: [&str; 2], profiles: [Caps; 2]) -> Registry {
    let [first, second] = profiles;
    let mut registry = Registry::single(provider(names[0], first));
    registry.providers.push(provider(names[1], second));
    registry
}

fn with_context(context: u64) -> Caps {
    Caps { context: Some(context), ..Caps::default() }
}

fn fed_back(names: [&str; 2], profiles: [Caps; 2]) -> Vec<Caps> {
    let registry = row(names, profiles);
    let mut bare = row(names, [Caps::default(), Caps::default()]);
    for name in names {
        assert!(annotate(&mut bare, &facts_about(name, &registry)).is_empty());
    }
    bare.providers.into_iter().map(|config| config.caps).collect()
}

#[test]
fn a_later_provider_may_be_named_like_an_earlier_backend() {
    let profiles = [with_context(1), with_context(2)];
    assert_eq!(fed_back(["a", "urn:llm:a:ask"], profiles.clone()), profiles);

    // The other way round the facts about `a` reach the provider named like its backend.
    let restored = fed_back(["urn:llm:a:ask", "a"], [Caps::default(), with_context(2)]);
    assert_eq!(restored, [with_context(2), Caps::default()]);

    // Without a profile there is nothing to mix up.
    let profiles = [with_context(1), Caps::default()];
    assert_eq!(fed_back(["urn:llm:a:ask", "a"], profiles.clone()), profiles);
    assert_eq!(fed_back(["a", "urn:llm:a:ask"], profiles.clone()), profiles);
}

#[test]
fn facts_act_alike_where_the_first_of_two_names_is_clear() {
    for subject in ["a", "urn:llm:a:ask"] {
        let mut registry = row(["a", "urn:llm:a:ask"], [Caps::default(), Caps::default()]);
        assert!(registry.apply_annotations(&[(subject, "context", "5")]).is_empty());
        assert_eq!(registry.providers[0].caps, with_context(5));
        assert_eq!(registry.providers[1].caps, Caps::default());
    }
}

// ---- listings ----------------------------------------------------------------------

#[test]
fn a_listing_entry_advertises_capability_and_no_governance() {
    let caps = listing_caps(&value(
        r#"{"id":"m","owned_by":"x","vendor":"x","cost":"local","batchAt":1,
            "modality":"text","context_window":5,"capabilities":["audio","text","tools",7]}"#,
    ))
    .unwrap();
    assert_eq!(
        caps,
        Caps {
            context: Some(5),
            modalities: vec!["text".to_string(), "audio".to_string()],
            tools: Some(true),
            ..Caps::default()
        }
    );
    assert_eq!(listing_caps(&value(r#"{"id":"m","context_window":-5}"#)), None);
    assert_eq!(
        listing_caps(&value(r#"{"capabilities":[]}"#)).unwrap().tools,
        Some(false)
    );
}

#[test]
fn listings_keep_the_entries_that_have_an_id() {
    let listed = read_listing(&value(r#"{"data":[{"id":"a"},{"id":7},{"name":"b"},{"id":"c"}]}"#));
    let names: Vec<&str> = listed.iter().map(|m| m.model.as_str()).collect();
    assert_eq!(names, vec!["a", "c"]);
    assert!(read_listing(&value("[]")).is_empty());
    let tagged = read_tags(&value(r#"{"models":[{"name":"a","size":3},{"id":"b"},{"name":"c"}]}"#));
    assert_eq!(tagged.len(), 2);
    assert_eq!((tagged[0].size, tagged[1].size), (Some(3), None));
}

#[test]
fn sorting_by_size_is_stable() {
    let model = |name: &str, size: Option<u64>| InstalledModel {
        model: name.to_string(),
        size,
        capabilities: vec![],
        advertised: None,
    };
    let sorted = smallest_first(&vec![
        model("x", None),
        model("b", Some(2)),
        model("a", Some(1)),
        model("c", Some(2)),
        model("y", Some(u64::MAX)),
    ]);
    let names: Vec<&str> = sorted.iter().map(|m| m.model.as_str()).collect();
    assert_eq!(names, vec!["a", "b", "c", "x", "y"]);
}

#[test]
fn support_is_checked_where_it_is_known() {
    let model = |capabilities: &[&str]| InstalledModel {
        model: "m".to_string(),
        size: None,
        capabilities: capabilities.iter().map(|c| c.to_string()).collect(),
        advertised: None,
    };
    assert!(model_supports(&model(&[]), "completion"));
    assert!(model_supports(&model(&["tools", "completion"]), "completion"));
    assert!(!model_supports(&model(&["embedding"]), "completion"));
    let kept = keep_supporting(&vec![model(&["embedding"]), model(&[])], "completion");
    assert_eq!(kept, vec![model(&[])]);
}

#[test]
fn what_is_shown_of_a_model_is_read() {
    let caps = read_shown(&value(
        r#"{"details":{"parameter_size":"3.2B"},"model_info":{"z.context_length":9,
            "llama.context_length":131072,"general.x":1},"capabilities":["completion","vision"]}"#,
    ));
    assert_eq!(
        caps,
        Caps {
            context: Some(131072),
            modalities: vec!["text".to_string(), "vision".to_string()],
            tools: Some(false),
            params: Some("3.2B".to_string()),
            ..Caps::default()
        }
    );
    assert_eq!(read_shown(&value("{}")), Caps::default());
}

// ---- requests and answers ----------------------------------------------------------

#[test]
fn requests_are_built() {
    let call = get("http://h/models");
    assert_eq!(call.method, Method::Get);
    assert!(call.headers.is_empty() && call.body.is_empty());
    let call = post_json("http://h/api/show", &value(r#"{"b":[1,null,true],"a":"x"}"#));
    assert_eq!(call.method, Method::Post);
    assert_eq!(
        call.headers,
        vec![("Content-Type".to_string(), "application/json".to_string())]
    );
    assert_eq!(call.body, br#"{"a":"x","b":[1,null,true]}"#);
}

#[test]
fn the_gate_goes_by_host() {
    let root = ikigai_core::Capability::root();
    assert_eq!(
        require_net(&root, "http://localhost:11434/v1//", "models", "who").unwrap(),
        "http://localhost:11434/v1/models"
    );
    assert_eq!(
        allow_native(&root, "http://localhost:11434/v1/", "tags").as_deref(),
        Some("http://localhost:11434/api/tags")
    );
    assert_eq!(allow_native(&root, "nonsense", "tags"), None);
    let other = root.attenuate(["urn:cap:net:example.com".to_string()]);
    assert_eq!(allow_native(&other, "http://localhost:11434/v1", "tags"), None);
    assert!(require_net(&other, "https://example.com/v1", "models", "who").is_ok());
    assert_eq!(
        allow_native(&other, "https://example.com/v1", "tags").as_deref(),
        Some("https://example.com/api/tags")
    );
}

#[test]
fn literals_are_quoted_and_escaped() {
    assert_eq!(ttl_str("plain"), "\"plain\"");
    assert_eq!(ttl_str("a\"b\\c"), "\"a\\\"b\\\\c\"");
    assert_eq!(ttl_str(""), "\"\"");
    assert_eq!(ttl_str("a\nb"), "\"a\\nb\"");
    assert_eq!(ttl_str("a\r\nb\\n\t"), "\"a\\r\\nb\\\\n\t\"");
}

#[test]
fn answers_are_utf8() {
    let answer = plain("née", true);
    assert_eq!(answer.media, "text/plain");
    assert_eq!(answer.body, "née".as_bytes());
    assert!(answer.cacheable);
    assert_eq!(answer.content_type(), "text/plain;charset=utf-8");
    let answer = structured(b"{}".to_vec(), false);
    assert_eq!(answer.media, "application/json");
    assert!(wants(&Some("application/json".to_string()), "json"));
    assert!(!wants(&Some("text/turtle".to_string()), "json"));
    assert!(!wants(&None, "json"));
}
