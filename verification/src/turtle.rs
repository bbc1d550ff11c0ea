//! The trait graph: what is known of every provider as triples, and their form in Turtle.

use crate::annotate::{
    a_subject_is_the_first_it_names, an_unknown_trait_is_ignored, annotated, annotated_caps,
    annotating_in_parts, backend_iri, backend_of, backends_differ_by_name, blank, conflicts,
    flag_in, flag_text, known_trait, names_provider, overridden, place_follows_names,
    subject_place, trait_names_differ, trait_of, write_flag, ConflictView, FactView, NAMESPACE,
};
use crate::config::{no_caps, CapsView, OpenAiConfig, OpenAiConfigView, Registry, RegistryView};
use crate::text::{
    a_written_number_reads_back, chars_of, decimal, join, joined, stands_at, write_natural,
};
use vstd::prelude::*;
use vstd::string::*;

verus! {

// ---- string literals ---------------------------------------------------------------

/// How a character stands in a string literal: a backslash, a quote, a line feed and a
/// carriage return escaped, and any other as it is.
pub open spec fn escape(c: char) -> Seq<char> {
    if c == '\\' || c == '"' {
        seq!['\\', c]
    } else if c == '\n' {
        seq!['\\', 'n']
    } else if c == '\r' {
        seq!['\\', 'r']
    } else {
        seq![c]
    }
}

/// A text as it stands in a string literal.
pub open spec fn escaped(text: Seq<char>) -> Seq<char>
    decreases text.len(),
{
    if text.len() == 0 {
        Seq::empty()
    } else {
        escaped(text.drop_last()) + escape(text.last())
    }
}

/// A Turtle string literal.
pub open spec fn literal(text: Seq<char>) -> Seq<char> {
    "\""@ + escaped(text) + "\""@
}

/// A Turtle string literal: quoted and escaped.
pub fn ttl_str(text: &str) -> (quoted: String)
    ensures
        quoted@ == literal(text@),
{
    let chars = chars_of(text);
    let mut quoted = "\"".to_owned();
    let mut i: usize = 0;
    assert(quoted@ =~= "\""@ + escaped(text@.take(0)));
    while i < chars.len()
        invariant
            i <= chars.len(),
            chars@ == text@,
            quoted@ == "\""@ + escaped(text@.take(i as int)),
        decreases chars.len() - i,
    {
        let c = chars[i];
        assert(text@.take(i + 1).drop_last() =~= text@.take(i as int));
        assert(text@.take(i + 1).last() == c);
        let one = text.substring_char(i, i + 1);
        assert(one@ =~= seq![c]);
        proof {
            reveal_strlit("\\");
            reveal_strlit("\\n");
            reveal_strlit("\\r");
            assert("\\"@ =~= seq!['\\']);
            assert("\\n"@ =~= seq!['\\', 'n']);
            assert("\\r"@ =~= seq!['\\', 'r']);
        }
        if c == '\n' {
            quoted.append("\\n");
        } else if c == '\r' {
            quoted.append("\\r");
        } else {
            if c == '\\' || c == '"' {
                quoted.append("\\");
            }
            quoted.append(one);
        }
        i = i + 1;
        assert(quoted@ =~= "\""@ + escaped(text@.take(i as int)));
    }
    assert(text@.take(i as int) =~= text@);
    quoted.append("\"");
    quoted
}

/// The character that a Turtle escape stands for, by what follows the backslash; `None` where
/// that is none of its escapes.
pub open spec fn escape_in(c: char) -> Option<char> {
    if c == 't' {
        Some('\t')
    } else if c == 'b' {
        Some('\u{8}')
    } else if c == 'n' {
        Some('\n')
    } else if c == 'r' {
        Some('\r')
    } else if c == 'f' {
        Some('\u{c}')
    } else if c == '"' || c == '\'' || c == '\\' {
        Some(c)
    } else {
        None
    }
}

/// The text that Turtle reads between the quotes of a string literal, numeric escapes aside;
/// `None` where that is no such literal: it holds a raw quote, line feed or carriage return,
/// or a backslash that begins no escape.
pub open spec fn read_quoted(inner: Seq<char>) -> Option<Seq<char>>
    decreases inner.len(),
{
    if inner.len() == 0 {
        Some(Seq::empty())
    } else if inner[0] == '"' || inner[0] == '\n' || inner[0] == '\r' {
        None
    } else if inner[0] == '\\' {
        if inner.len() == 1 {
            None
        } else {
            match (escape_in(inner[1]), read_quoted(inner.skip(2))) {
                (Some(c), Some(rest)) => Some(seq![c] + rest),
                _ => None,
            }
        }
    } else {
        match read_quoted(inner.skip(1)) {
            Some(rest) => Some(seq![inner[0]] + rest),
            None => None,
        }
    }
}

proof fn reading_goes_on(head: Seq<char>, tail: Seq<char>)
    requires
        read_quoted(tail) is Some,
    ensures
        read_quoted(escaped(head) + tail) == Some(head + read_quoted(tail)->0),
    decreases head.len(),
{
    if head.len() == 0 {
        assert(escaped(head) + tail =~= tail);
        assert(head + read_quoted(tail)->0 =~= read_quoted(tail)->0);
    } else {
        let c = head.last();
        let rest = head.drop_last();
        let more = escape(c) + tail;
        assert(escaped(head) + tail =~= escaped(rest) + more);
        assert(more.skip(escape(c).len() as int) =~= tail);
        assert(read_quoted(more) == Some(seq![c] + read_quoted(tail)->0));
        reading_goes_on(rest, more);
        assert(rest + (seq![c] + read_quoted(tail)->0) =~= head + read_quoted(tail)->0);
    }
}

/// Whatever a text holds, its literal is one that Turtle reads, and it reads it as the text.
pub proof fn a_literal_reads_back(text: Seq<char>)
    ensures
        read_quoted(escaped(text)) == Some(text),
{
    reading_goes_on(text, Seq::empty());
    assert(escaped(text) + Seq::<char>::empty() =~= escaped(text));
    assert(text + Seq::<char>::empty() =~= text);
}

// ---- the graph ---------------------------------------------------------------------

/// What a trait is said to be.
pub enum ObjectView {
    Text(Seq<char>),
    Number(u64),
    Flag(bool),
}

impl ObjectView {
    /// The object in Turtle.
    pub open spec fn written(self) -> Seq<char> {
        match self {
            ObjectView::Text(text) => literal(text),
            ObjectView::Number(number) => decimal(number as nat),
            ObjectView::Flag(flag) => flag_text(flag),
        }
    }

    /// The object as a fact states it: a literal's text without its quotes.
    pub open spec fn plain(self) -> Seq<char> {
        match self {
            ObjectView::Text(text) => text,
            ObjectView::Number(number) => decimal(number as nat),
            ObjectView::Flag(flag) => flag_text(flag),
        }
    }
}

/// A trait's name and what it is said to be.
pub type TraitView = (Seq<char>, ObjectView);

/// A trait with a text, where there is one.
pub open spec fn text_trait(name: Seq<char>, value: Option<Seq<char>>) -> Seq<TraitView> {
    match value {
        Some(value) => seq![(name, ObjectView::Text(value))],
        None => Seq::empty(),
    }
}

/// A trait with a number, where there is one.
pub open spec fn number_trait(name: Seq<char>, value: Option<u64>) -> Seq<TraitView> {
    match value {
        Some(value) => seq![(name, ObjectView::Number(value))],
        None => Seq::empty(),
    }
}

/// A trait with a flag, where there is one.
pub open spec fn flag_trait(name: Seq<char>, value: Option<bool>) -> Seq<TraitView> {
    match value {
        Some(value) => seq![(name, ObjectView::Flag(value))],
        None => Seq::empty(),
    }
}

/// A trait for every modality.
pub open spec fn modality_traits(modalities: Seq<Seq<char>>) -> Seq<TraitView> {
    modalities.map_values(|modality: Seq<char>| ("modality"@, ObjectView::Text(modality)))
}

/// What the graph says of one provider, in order.
pub open spec fn traits(config: OpenAiConfigView) -> Seq<TraitView> {
    text_trait("model"@, config.default_model) + number_trait("context"@, config.caps.context)
        + modality_traits(config.caps.modalities) + flag_trait("tools"@, config.caps.tools)
        + flag_trait("jsonMode"@, config.caps.json) + text_trait("cost"@, config.caps.cost)
        + text_trait("vendor"@, config.caps.vendor) + number_trait(
        "batchAt"@,
        config.caps.batch_at,
    ) + text_trait("params"@, config.caps.params)
}

/// A trait in Turtle.
pub open spec fn property(said: TraitView) -> Seq<char> {
    "ik:"@ + said.0 + " "@ + said.1.written()
}

/// The traits in Turtle, in order.
pub open spec fn properties(list: Seq<TraitView>) -> Seq<Seq<char>> {
    list.map_values(|said: TraitView| property(said))
}

/// One provider in Turtle.
pub open spec fn described(config: OpenAiConfigView) -> Seq<char> {
    "\n<"@ + backend_iri(config.provider) + "> "@ + joined(
        seq!["a ik:LlmBackend"@] + properties(traits(config)),
        " ;\n    "@,
    ) + " .\n"@
}

/// The providers in Turtle, in order.
pub open spec fn described_all(providers: Seq<OpenAiConfigView>) -> Seq<char>
    decreases providers.len(),
{
    if providers.len() == 0 {
        Seq::empty()
    } else {
        described_all(providers.drop_last()) + described(providers.last())
    }
}

/// The trait graph in Turtle.
pub open spec fn inventory_turtle(registry: RegistryView) -> Seq<char> {
    "@prefix ik: <"@ + NAMESPACE@ + "> .\n"@ + described_all(registry.providers)
        + "\n<urn:llm:ask> ik:routesTo <"@ + backend_iri(registry.default) + "> .\n"@
}

fn add_property(list: &mut Vec<String>, name: &str, written: &str)
    ensures
        final(list).deep_view() == old(list).deep_view().push(
            "ik:"@ + name@ + " "@ + written@,
        ),
{
    let ghost before = list.deep_view();
    let mut property = "ik:".to_owned();
    property.append(name);
    property.append(" ");
    property.append(written);
    list.push(property);
    assert(list.deep_view() =~= before.push(property@));
}

fn add_text(list: &mut Vec<String>, name: &str, value: &Option<String>)
    ensures
        final(list).deep_view() == old(list).deep_view() + properties(
            text_trait(name@, value.deep_view()),
        ),
{
    let ghost before = list.deep_view();
    if let Some(value) = value {
        add_property(list, name, ttl_str(value.as_str()).as_str());
    }
    assert(list.deep_view() =~= before + properties(text_trait(name@, value.deep_view())));
}

fn add_number(list: &mut Vec<String>, name: &str, value: Option<u64>)
    ensures
        final(list).deep_view() == old(list).deep_view() + properties(number_trait(name@, value)),
{
    let ghost before = list.deep_view();
    if let Some(value) = value {
        add_property(list, name, write_natural(value).as_str());
    }
    assert(list.deep_view() =~= before + properties(number_trait(name@, value)));
}

fn add_flag(list: &mut Vec<String>, name: &str, value: Option<bool>)
    ensures
        final(list).deep_view() == old(list).deep_view() + properties(flag_trait(name@, value)),
{
    let ghost before = list.deep_view();
    if let Some(value) = value {
        add_property(list, name, write_flag(value).as_str());
    }
    assert(list.deep_view() =~= before + properties(flag_trait(name@, value)));
}

fn add_modalities(list: &mut Vec<String>, modalities: &Vec<String>)
    ensures
        final(list).deep_view() == old(list).deep_view() + properties(
            modality_traits(modalities.deep_view()),
        ),
{
    let ghost before = list.deep_view();
    let ghost all = properties(modality_traits(modalities.deep_view()));
    let mut i: usize = 0;
    assert(list.deep_view() =~= before + all.take(0));
    while i < modalities.len()
        invariant
            i <= modalities.len(),
            all == properties(modality_traits(modalities.deep_view())),
            list.deep_view() == before + all.take(i as int),
        decreases modalities.len() - i,
    {
        add_property(list, "modality", ttl_str(modalities[i].as_str()).as_str());
        assert(all[i as int] == property(
            ("modality"@, ObjectView::Text(modalities.deep_view()[i as int])),
        ));
        i = i + 1;
        assert(list.deep_view() =~= before + all.take(i as int));
    }
    assert(all.take(i as int) =~= all);
}

proof fn properties_join(start: Seq<Seq<char>>, left: Seq<TraitView>, right: Seq<TraitView>)
    ensures
        start + properties(left) + properties(right) == start + properties(left + right),
{
    assert(start + properties(left) + properties(right) =~= start + properties(left + right));
}

fn write_properties(config: &OpenAiConfig) -> (list: Vec<String>)
    ensures
        list.deep_view() == seq!["a ik:LlmBackend"@] + properties(traits(config@)),
{
    let ghost start = seq!["a ik:LlmBackend"@];
    let ghost caps = config@.caps;
    let mut list: Vec<String> = Vec::new();
    list.push("a ik:LlmBackend".to_owned());
    assert(list.deep_view() =~= start);
    add_text(&mut list, "model", &config.default_model);
    let ghost said = text_trait("model"@, config@.default_model);
    add_number(&mut list, "context", config.caps.context);
    proof {
        properties_join(start, said, number_trait("context"@, caps.context));
        said = said + number_trait("context"@, caps.context);
    }
    add_modalities(&mut list, &config.caps.modalities);
    proof {
        properties_join(start, said, modality_traits(caps.modalities));
        said = said + modality_traits(caps.modalities);
    }
    add_flag(&mut list, "tools", config.caps.tools);
    proof {
        properties_join(start, said, flag_trait("tools"@, caps.tools));
        said = said + flag_trait("tools"@, caps.tools);
    }
    add_flag(&mut list, "jsonMode", config.caps.json);
    proof {
        properties_join(start, said, flag_trait("jsonMode"@, caps.json));
        said = said + flag_trait("jsonMode"@, caps.json);
    }
    add_text(&mut list, "cost", &config.caps.cost);
    proof {
        properties_join(start, said, text_trait("cost"@, caps.cost));
        said = said + text_trait("cost"@, caps.cost);
    }
    add_text(&mut list, "vendor", &config.caps.vendor);
    proof {
        properties_join(start, said, text_trait("vendor"@, caps.vendor));
        said = said + text_trait("vendor"@, caps.vendor);
    }
    add_number(&mut list, "batchAt", config.caps.batch_at);
    proof {
        properties_join(start, said, number_trait("batchAt"@, caps.batch_at));
        said = said + number_trait("batchAt"@, caps.batch_at);
    }
    add_text(&mut list, "params", &config.caps.params);
    proof {
        properties_join(start, said, text_trait("params"@, caps.params));
    }
    list
}

fn describe_provider(config: &OpenAiConfig) -> (text: String)
    ensures
        text@ == described(config@),
{
    let backend = backend_of(config.provider.as_str());
    let list = join(&write_properties(config), " ;\n    ");
    let mut text = "\n<".to_owned();
    text.append(backend.as_str());
    text.append("> ");
    text.append(list.as_str());
    text.append(" .\n");
    text
}

/// The trait graph in Turtle.
pub fn write_turtle(registry: &Registry) -> (text: String)
    ensures
        text@ == inventory_turtle(registry@),
{
    let providers = &registry.providers;
    let ghost all = registry@.providers;
    let ghost prefix = "@prefix ik: <"@ + NAMESPACE@ + "> .\n"@;
    let mut text = "@prefix ik: <".to_owned();
    text.append(NAMESPACE);
    text.append("> .\n");
    let mut i: usize = 0;
    assert(text@ =~= prefix + described_all(all.take(0)));
    while i < providers.len()
        invariant
            i <= providers.len(),
            all == providers.deep_view(),
            text@ == prefix + described_all(all.take(i as int)),
        decreases providers.len() - i,
    {
        assert(all.take(i + 1).drop_last() =~= all.take(i as int));
        assert(all.take(i + 1).last() == providers@[i as int]@);
        let one = describe_provider(&providers[i]);
        text.append(one.as_str());
        i = i + 1;
        assert(text@ =~= prefix + described_all(all.take(i as int)));
    }
    assert(all.take(i as int) =~= all);
    let target = backend_of(registry.default.as_str());
    text.append("\n<urn:llm:ask> ik:routesTo <");
    text.append(target.as_str());
    text.append("> .\n");
    text
}

// ---- the graph as facts ------------------------------------------------------------

/// The IRI that Turtle abbreviates by `a`.
pub open spec fn type_iri() -> Seq<char> {
    "http://www.w3.org/1999/02/22-rdf-syntax-ns#type"@
}

/// Traits as facts about a subject.
pub open spec fn facts_of(subject: Seq<char>, list: Seq<TraitView>) -> Seq<FactView> {
    list.map_values(|said: TraitView| (subject, NAMESPACE@ + said.0, said.1.plain()))
}

/// The triples of one provider.
pub open spec fn provider_facts(config: OpenAiConfigView) -> Seq<FactView> {
    seq![(backend_iri(config.provider), type_iri(), NAMESPACE@ + "LlmBackend"@)] + facts_of(
        backend_iri(config.provider),
        traits(config),
    )
}

/// The triples of all providers, in order.
pub open spec fn all_facts(providers: Seq<OpenAiConfigView>) -> Seq<FactView>
    decreases providers.len(),
{
    if providers.len() == 0 {
        Seq::empty()
    } else {
        all_facts(providers.drop_last()) + provider_facts(providers.last())
    }
}

/// The triples of the trait graph.
pub open spec fn graph_facts(registry: RegistryView) -> Seq<FactView> {
    all_facts(registry.providers).push(
        ("urn:llm:ask"@, NAMESPACE@ + "routesTo"@, backend_iri(registry.default)),
    )
}

/// The profile once the traits are asserted, one after the other.
spec fn told(caps: CapsView, list: Seq<TraitView>) -> CapsView
    decreases list.len(),
{
    if list.len() == 0 {
        caps
    } else {
        annotated_caps(told(caps, list.drop_last()), list.last().0, list.last().1.plain())
    }
}

/// Whether asserting the traits overrides nothing.
spec fn quiet(caps: CapsView, list: Seq<TraitView>) -> bool
    decreases list.len(),
{
    list.len() == 0 || {
        &&& quiet(caps, list.drop_last())
        &&& overridden(
            told(caps, list.drop_last()),
            list.last().0,
            list.last().1.plain(),
        ) is None
    }
}

proof fn telling_in_parts(caps: CapsView, left: Seq<TraitView>, right: Seq<TraitView>)
    ensures
        told(caps, left + right) == told(told(caps, left), right),
        quiet(caps, left + right) == (quiet(caps, left) && quiet(told(caps, left), right)),
    decreases right.len(),
{
    if right.len() == 0 {
        assert(left + right =~= left);
    } else {
        assert((left + right).drop_last() =~= left + right.drop_last());
        assert((left + right).last() == right.last());
        telling_in_parts(caps, left, right.drop_last());
    }
}

proof fn telling_one(caps: CapsView, said: TraitView)
    ensures
        told(caps, seq![said]) == annotated_caps(caps, said.0, said.1.plain()),
        quiet(caps, seq![said]) == (overridden(caps, said.0, said.1.plain()) is None),
{
    assert(seq![said].drop_last() =~= Seq::<TraitView>::empty());
    assert(told(caps, seq![said].drop_last()) == caps);
    assert(quiet(caps, seq![said].drop_last()));
}

proof fn telling_texts(caps: CapsView, value: Option<Seq<char>>)
    ensures
        told(caps, text_trait("model"@, value)) == caps,
        quiet(caps, text_trait("model"@, value)),
        caps.cost is None ==> told(caps, text_trait("cost"@, value)) == (CapsView {
            cost: value,
            ..caps
        }) && quiet(caps, text_trait("cost"@, value)),
        caps.vendor is None ==> told(caps, text_trait("vendor"@, value)) == (CapsView {
            vendor: value,
            ..caps
        }) && quiet(caps, text_trait("vendor"@, value)),
        caps.params is None ==> told(caps, text_trait("params"@, value)) == (CapsView {
            params: value,
            ..caps
        }) && quiet(caps, text_trait("params"@, value)),
{
    trait_names_differ();
    reveal_strlit("model");
    assert("model"@.len() == 5 && "model"@[0] == 'm');
    if let Some(text) = value {
        telling_one(caps, ("model"@, ObjectView::Text(text)));
        telling_one(caps, ("cost"@, ObjectView::Text(text)));
        telling_one(caps, ("vendor"@, ObjectView::Text(text)));
        telling_one(caps, ("params"@, ObjectView::Text(text)));
    }
}

proof fn telling_numbers(caps: CapsView, value: Option<u64>)
    ensures
        caps.context is None ==> told(caps, number_trait("context"@, value)) == (CapsView {
            context: value,
            ..caps
        }) && quiet(caps, number_trait("context"@, value)),
        caps.batch_at is None && value != Some(0u64) ==> told(
            caps,
            number_trait("batchAt"@, value),
        ) == (CapsView { batch_at: value, ..caps }) && quiet(
            caps,
            number_trait("batchAt"@, value),
        ),
{
    trait_names_differ();
    if let Some(number) = value {
        a_written_number_reads_back(number);
        telling_one(caps, ("context"@, ObjectView::Number(number)));
        telling_one(caps, ("batchAt"@, ObjectView::Number(number)));
    }
}

proof fn telling_flags(caps: CapsView, value: Option<bool>)
    ensures
        caps.tools is None ==> told(caps, flag_trait("tools"@, value)) == (CapsView {
            tools: value,
            ..caps
        }) && quiet(caps, flag_trait("tools"@, value)),
        caps.json is None ==> told(caps, flag_trait("jsonMode"@, value)) == (CapsView {
            json: value,
            ..caps
        }) && quiet(caps, flag_trait("jsonMode"@, value)),
{
    trait_names_differ();
    reveal_strlit("true");
    reveal_strlit("false");
    assert("true"@.len() == 4 && "false"@.len() == 5);
    if let Some(flag) = value {
        assert(flag_in(flag_text(flag)) == Some(flag));
        telling_one(caps, ("tools"@, ObjectView::Flag(flag)));
        telling_one(caps, ("jsonMode"@, ObjectView::Flag(flag)));
    }
}

proof fn telling_modalities(caps: CapsView, modalities: Seq<Seq<char>>)
    requires
        caps.modalities.len() == 0,
        modalities.no_duplicates(),
    ensures
        told(caps, modality_traits(modalities)) == (CapsView { modalities, ..caps }),
        quiet(caps, modality_traits(modalities)),
    decreases modalities.len(),
{
    trait_names_differ();
    let list = modality_traits(modalities);
    if modalities.len() == 0 {
        assert(caps.modalities =~= modalities);
    } else {
        let head = modalities.drop_last();
        assert(list.drop_last() =~= modality_traits(head));
        assert(list.last() == ("modality"@, ObjectView::Text(modalities.last())));
        assert(head.no_duplicates());
        telling_modalities(caps, head);
        assert(!head.contains(modalities.last())) by {
            if head.contains(modalities.last()) {
                let i = choose|i: int| 0 <= i < head.len() && head[i] == modalities.last();
                assert(modalities[i] == modalities[modalities.len() - 1]);
            }
        }
        assert(head.push(modalities.last()) =~= modalities);
    }
}

proof fn traits_tell_the_profile(config: OpenAiConfigView)
    requires
        config.caps.modalities.no_duplicates(),
        config.caps.batch_at != Some(0u64),
    ensures
        told(no_caps(), traits(config)) == config.caps,
        quiet(no_caps(), traits(config)),
{
    let caps = config.caps;
    let told0 = no_caps();
    let said1 = text_trait("model"@, config.default_model);
    telling_texts(told0, config.default_model);
    let part2 = number_trait("context"@, caps.context);
    let told2 = CapsView { context: caps.context, ..told0 };
    telling_numbers(told0, caps.context);
    telling_in_parts(told0, said1, part2);
    let part3 = modality_traits(caps.modalities);
    let told3 = CapsView { modalities: caps.modalities, ..told2 };
    telling_modalities(told2, caps.modalities);
    telling_in_parts(told0, said1 + part2, part3);
    let part4 = flag_trait("tools"@, caps.tools);
    let told4 = CapsView { tools: caps.tools, ..told3 };
    telling_flags(told3, caps.tools);
    telling_in_parts(told0, said1 + part2 + part3, part4);
    let part5 = flag_trait("jsonMode"@, caps.json);
    let told5 = CapsView { json: caps.json, ..told4 };
    telling_flags(told4, caps.json);
    telling_in_parts(told0, said1 + part2 + part3 + part4, part5);
    let part6 = text_trait("cost"@, caps.cost);
    let told6 = CapsView { cost: caps.cost, ..told5 };
    telling_texts(told5, caps.cost);
    telling_in_parts(told0, said1 + part2 + part3 + part4 + part5, part6);
    let part7 = text_trait("vendor"@, caps.vendor);
    let told7 = CapsView { vendor: caps.vendor, ..told6 };
    telling_texts(told6, caps.vendor);
    telling_in_parts(told0, said1 + part2 + part3 + part4 + part5 + part6, part7);
    let part8 = number_trait("batchAt"@, caps.batch_at);
    let told8 = CapsView { batch_at: caps.batch_at, ..told7 };
    telling_numbers(told7, caps.batch_at);
    telling_in_parts(told0, said1 + part2 + part3 + part4 + part5 + part6 + part7, part8);
    let part9 = text_trait("params"@, caps.params);
    telling_texts(told8, caps.params);
    telling_in_parts(
        told0,
        said1 + part2 + part3 + part4 + part5 + part6 + part7 + part8,
        part9,
    );
}

/// The registry with another profile at a place.
spec fn with_caps(registry: RegistryView, place: int, caps: CapsView) -> RegistryView {
    RegistryView {
        providers: registry.providers.update(
            place,
            OpenAiConfigView { caps, ..registry.providers[place] },
        ),
        ..registry
    }
}

proof fn facts_tell(
    registry: RegistryView,
    place: int,
    subject: Seq<char>,
    list: Seq<TraitView>,
)
    requires
        0 <= place < registry.providers.len(),
        subject_place(registry.providers, subject) == Some(place),
    ensures
        annotated(registry, facts_of(subject, list)) == with_caps(
            registry,
            place,
            told(registry.providers[place].caps, list),
        ),
        quiet(registry.providers[place].caps, list) ==> conflicts(
            registry,
            facts_of(subject, list),
        ) == Seq::<ConflictView>::empty(),
    decreases list.len(),
{
    let facts = facts_of(subject, list);
    let caps = registry.providers[place].caps;
    if list.len() == 0 {
        assert(with_caps(registry, place, caps).providers =~= registry.providers);
    } else {
        let head = list.drop_last();
        let said = list.last();
        facts_tell(registry, place, subject, head);
        assert(facts.drop_last() =~= facts_of(subject, head));
        assert(facts.last() == (subject, NAMESPACE@ + said.0, said.1.plain()));
        full_iri_names_its_trait(said.0);
        let before = with_caps(registry, place, told(caps, head));
        place_follows_names(registry.providers, before.providers, subject);
        assert(annotated(registry, facts).providers =~= with_caps(
            registry,
            place,
            told(caps, list),
        ).providers);
    }
}

proof fn full_iri_names_its_trait(name: Seq<char>)
    ensures
        trait_of(NAMESPACE@ + name) == name,
{
    let predicate = NAMESPACE@ + name;
    assert(predicate.subrange(0, NAMESPACE@.len() as int) =~= NAMESPACE@);
    assert(predicate.skip(NAMESPACE@.len() as int) =~= name);
}

proof fn the_type_is_no_trait()
    ensures
        !known_trait(trait_of(type_iri())),
{
    reveal_strlit("http://www.w3.org/1999/02/22-rdf-syntax-ns#type");
    reveal_strlit("https://ikigai-rs.dev/ns#");
    reveal_strlit("ik:");
    trait_names_differ();
    let iri = type_iri();
    assert(iri[0] == 'h' && iri[4] == ':');
    assert(NAMESPACE@[4] == 's' && NAMESPACE@.len() > 4);
    assert("ik:"@[0] == 'i' && "ik:"@.len() == 3);
    if stands_at(iri, NAMESPACE@, 0) {
        assert(iri.subrange(0, NAMESPACE@.len() as int)[4] == iri[4]);
    }
    if stands_at(iri, "ik:"@, 0) {
        assert(iri.subrange(0, 3)[0] == iri[0]);
    }
}

/// Whether the providers with a profile can be told apart in the graph: no earlier one has
/// the same name, or is named like the backend.
pub open spec fn told_apart(providers: Seq<OpenAiConfigView>) -> bool {
    forall|i: int, j: int|
        #![trigger providers[i], providers[j]]
        0 <= i < j < providers.len() && providers[j].caps != no_caps() ==> {
            &&& providers[i].provider != providers[j].provider
            &&& providers[i].provider != backend_iri(providers[j].provider)
        }
}

/// A profile that the graph can hold: no modality stands twice, and a load shape is at least
/// one.
pub open spec fn graphic(caps: CapsView) -> bool {
    caps.modalities.no_duplicates() && caps.batch_at != Some(0u64)
}

/// The registry with the profiles from `place` on empty.
spec fn blank_from(registry: RegistryView, place: int) -> RegistryView {
    RegistryView {
        providers: Seq::new(
            registry.providers.len(),
            |i: int|
                if i < place {
                    registry.providers[i]
                } else {
                    OpenAiConfigView { caps: no_caps(), ..registry.providers[i] }
                },
        ),
        ..registry
    }
}

proof fn a_backend_is_its_own(providers: Seq<OpenAiConfigView>, place: int)
    requires
        0 <= place < providers.len(),
        told_apart(providers),
        providers[place].caps != no_caps(),
    ensures
        subject_place(providers, backend_iri(providers[place].provider)) == Some(place),
{
    let subject = backend_iri(providers[place].provider);
    a_subject_is_the_first_it_names(providers, subject);
    match subject_place(providers, subject) {
        Some(found) => {
            if found < place {
                assert(providers[found].provider != backend_iri(providers[place].provider));
                backends_differ_by_name(providers[place].provider, providers[found].provider);
            } else if found > place {
                assert(!names_provider(subject, providers[place].provider));
            }
        },
        None => {
            assert(!names_provider(subject, providers[place].provider));
        },
    }
}

proof fn an_unknown_trait_says_nothing(registry: RegistryView, fact: FactView)
    requires
        !known_trait(trait_of(fact.1)),
    ensures
        annotated(registry, seq![fact]) == registry,
        conflicts(registry, seq![fact]) == Seq::<ConflictView>::empty(),
{
    let facts = seq![fact];
    an_unknown_trait_is_ignored(registry, fact);
    assert(facts.drop_last() =~= Seq::<FactView>::empty());
    assert(annotated(registry, facts.drop_last()) == registry);
    assert(conflicts(registry, facts.drop_last()) =~= Seq::<ConflictView>::empty());
}

proof fn an_empty_profile_says_nothing(registry: RegistryView, config: OpenAiConfigView)
    requires
        config.caps == no_caps(),
    ensures
        annotated(registry, facts_of(backend_iri(config.provider), traits(config))) == registry,
        conflicts(registry, facts_of(backend_iri(config.provider), traits(config)))
            == Seq::<ConflictView>::empty(),
{
    let subject = backend_iri(config.provider);
    let facts = facts_of(subject, traits(config));
    assert(modality_traits(config.caps.modalities) =~= Seq::<TraitView>::empty());
    assert(traits(config) =~= text_trait("model"@, config.default_model));
    if let Some(model) = config.default_model {
        let fact = (subject, NAMESPACE@ + "model"@, model);
        assert(facts =~= seq![fact]);
        trait_names_differ();
        reveal_strlit("model");
        assert("model"@.len() == 5 && "model"@[0] == 'm');
        full_iri_names_its_trait("model"@);
        an_unknown_trait_says_nothing(registry, fact);
    } else {
        assert(facts =~= Seq::<FactView>::empty());
    }
}

proof fn provider_facts_restore(registry: RegistryView, place: int)
    requires
        0 <= place < registry.providers.len(),
        told_apart(registry.providers),
        graphic(registry.providers[place].caps),
    ensures
        annotated(blank_from(registry, place), provider_facts(registry.providers[place]))
            == blank_from(registry, place + 1),
        conflicts(blank_from(registry, place), provider_facts(registry.providers[place]))
            == Seq::<ConflictView>::empty(),
{
    let config = registry.providers[place];
    let before = blank_from(registry, place);
    let subject = backend_iri(config.provider);
    let kind = (subject, type_iri(), NAMESPACE@ + "LlmBackend"@);
    the_type_is_no_trait();
    an_unknown_trait_says_nothing(before, kind);
    annotating_in_parts(before, seq![kind], facts_of(subject, traits(config)));
    if config.caps == no_caps() {
        an_empty_profile_says_nothing(before, config);
        assert(before.providers =~= blank_from(registry, place + 1).providers);
    } else {
        a_backend_is_its_own(registry.providers, place);
        place_follows_names(registry.providers, before.providers, subject);
        traits_tell_the_profile(config);
        facts_tell(before, place, subject, traits(config));
        assert(with_caps(before, place, config.caps).providers =~= blank_from(
            registry,
            place + 1,
        ).providers);
    }
}

proof fn all_facts_restore(registry: RegistryView, count: int)
    requires
        0 <= count <= registry.providers.len(),
        told_apart(registry.providers),
        forall|i: int|
            0 <= i < registry.providers.len() ==> graphic((#[trigger] registry.providers[i]).caps),
    ensures
        annotated(blank_from(registry, 0), all_facts(registry.providers.take(count)))
            == blank_from(registry, count),
        conflicts(blank_from(registry, 0), all_facts(registry.providers.take(count)))
            == Seq::<ConflictView>::empty(),
    decreases count,
{
    if count > 0 {
        let taken = registry.providers.take(count);
        assert(taken.drop_last() =~= registry.providers.take(count - 1));
        assert(taken.last() == registry.providers[count - 1]);
        all_facts_restore(registry, count - 1);
        provider_facts_restore(registry, count - 1);
        annotating_in_parts(
            blank_from(registry, 0),
            all_facts(taken.drop_last()),
            provider_facts(taken.last()),
        );
    }
}

/// The trait graph, fed back as facts to the registry with empty profiles, restores every
/// profile and reports nothing. Left out are registries in which a provider with a profile
/// comes after one of the same name, or after one that is named like its backend, and
/// profiles that the graph cannot hold: in each of these a profile is not restored.
pub proof fn the_trait_graph_restores_every_profile(registry: RegistryView)
    requires
        told_apart(registry.providers),
        forall|i: int|
            0 <= i < registry.providers.len() ==> graphic((#[trigger] registry.providers[i]).caps),
    ensures
        annotated(blank(registry), graph_facts(registry)) == registry,
        conflicts(blank(registry), graph_facts(registry)) == Seq::<ConflictView>::empty(),
{
    let facts = graph_facts(registry);
    let count = registry.providers.len() as int;
    assert(blank(registry).providers =~= blank_from(registry, 0).providers);
    assert(blank_from(registry, count).providers =~= registry.providers);
    assert(registry.providers.take(count) =~= registry.providers);
    all_facts_restore(registry, count);
    assert(facts.drop_last() =~= all_facts(registry.providers));
    trait_names_differ();
    reveal_strlit("routesTo");
    assert("routesTo"@.len() == 8 && "routesTo"@[0] == 'r');
    full_iri_names_its_trait("routesTo"@);
    an_unknown_trait_is_ignored(registry, facts.last());
}

// ---- what the text says ------------------------------------------------------------

/// A literal is the text between quotes, as Turtle reads it.
pub proof fn a_literal_stands_between_quotes(text: &str, quoted: String)
    requires
        call_ensures(ttl_str, (text,), quoted),
    ensures
        exists|inner: Seq<char>|
            quoted@ == seq!['"'] + inner + seq!['"'] && #[trigger] read_quoted(inner) == Some(
                text@,
            ),
{
    reveal_strlit("\"");
    assert("\""@ =~= seq!['"']);
    a_literal_reads_back(text@);
}

/// What a sentence says of one more trait: behind a semicolon on a line of its own, the
/// trait's name with the prefix, and the value.
pub open spec fn further(name: Seq<char>, value: Seq<char>) -> Seq<char> {
    " ;\n    "@ + ("ik:"@ + name + " "@ + value)
}

/// What a sentence says of a trait with a text, nothing where there is none.
pub open spec fn further_text(name: Seq<char>, value: Option<Seq<char>>) -> Seq<char> {
    if value is Some {
        further(name, literal(value->0))
    } else {
        Seq::empty()
    }
}

/// What a sentence says of a trait with a number, nothing where there is none.
pub open spec fn further_number(name: Seq<char>, value: Option<u64>) -> Seq<char> {
    if value is Some {
        further(name, decimal(value->0 as nat))
    } else {
        Seq::empty()
    }
}

/// What a sentence says of a trait with a flag, nothing where there is none.
pub open spec fn further_flag(name: Seq<char>, value: Option<bool>) -> Seq<char> {
    match value {
        Some(true) => further(name, "true"@),
        Some(false) => further(name, "false"@),
        None => Seq::empty(),
    }
}

/// The sentence about a provider: that its backend is one, its model, and trait by trait what
/// is known of it.
pub open spec fn sentence(config: OpenAiConfigView) -> Seq<char> {
    let start = "\n<"@ + ("urn:llm:"@ + config.provider + ":ask"@) + "> "@;
    start + ("a ik:LlmBackend"@ + (further_text("model"@, config.default_model) + further_number(
        "context"@,
        config.caps.context,
    ) + config.caps.modalities.fold_left(
        Seq::<char>::empty(),
        |text: Seq<char>, modality: Seq<char>| text + further("modality"@, literal(modality)),
    ) + further_flag("tools"@, config.caps.tools) + further_flag("jsonMode"@, config.caps.json)
        + further_text("cost"@, config.caps.cost) + further_text("vendor"@, config.caps.vendor)
        + further_number("batchAt"@, config.caps.batch_at) + further_text(
        "params"@,
        config.caps.params,
    ))) + " .\n"@
}

/// The properties run on, each behind the glue.
spec fn run_on(list: Seq<TraitView>) -> Seq<char>
    decreases list.len(),
{
    if list.len() == 0 {
        Seq::empty()
    } else {
        run_on(list.drop_last()) + (" ;\n    "@ + property(list.last()))
    }
}

proof fn joining_runs_on(start: Seq<char>, list: Seq<TraitView>)
    ensures
        joined(seq![start] + properties(list), " ;\n    "@) == start + run_on(list),
    decreases list.len(),
{
    let parts = seq![start] + properties(list);
    if list.len() == 0 {
        assert(parts =~= seq![start]);
        assert(start + run_on(list) =~= start);
    } else {
        joining_runs_on(start, list.drop_last());
        assert(parts.drop_last() =~= seq![start] + properties(list.drop_last()));
        assert(parts.last() == property(list.last()));
        assert(joined(parts, " ;\n    "@) =~= start + run_on(list));
    }
}

proof fn running_on_goes_on(left: Seq<TraitView>, right: Seq<TraitView>)
    ensures
        run_on(left + right) == run_on(left) + run_on(right),
    decreases right.len(),
{
    if right.len() == 0 {
        assert(left + right =~= left);
        assert(run_on(left) + run_on(right) =~= run_on(left));
    } else {
        running_on_goes_on(left, right.drop_last());
        assert((left + right).drop_last() =~= left + right.drop_last());
        assert((left + right).last() == right.last());
        assert(run_on(left + right) =~= run_on(left) + run_on(right));
    }
}

proof fn one_trait_runs_on(name: Seq<char>, object: ObjectView)
    ensures
        run_on(seq![(name, object)]) == further(name, object.written()),
{
    let list = seq![(name, object)];
    assert(list.drop_last() =~= Seq::<TraitView>::empty());
    assert(run_on(list.drop_last()) =~= Seq::<char>::empty());
    assert(run_on(list) =~= further(name, object.written()));
}

proof fn optional_traits_run_on(
    name: Seq<char>,
    text: Option<Seq<char>>,
    number: Option<u64>,
    flag: Option<bool>,
)
    ensures
        run_on(text_trait(name, text)) == further_text(name, text),
        run_on(number_trait(name, number)) == further_number(name, number),
        run_on(flag_trait(name, flag)) == further_flag(name, flag),
{
    if let Some(value) = text {
        one_trait_runs_on(name, ObjectView::Text(value));
    }
    if let Some(value) = number {
        one_trait_runs_on(name, ObjectView::Number(value));
    }
    if let Some(value) = flag {
        one_trait_runs_on(name, ObjectView::Flag(value));
    }
}

proof fn modalities_run_on(modalities: Seq<Seq<char>>)
    ensures
        run_on(modality_traits(modalities)) == modalities.fold_left(
            Seq::<char>::empty(),
            |text: Seq<char>, modality: Seq<char>| text + further("modality"@, literal(modality)),
        ),
    decreases modalities.len(),
{
    if modalities.len() > 0 {
        modalities_run_on(modalities.drop_last());
        assert(modality_traits(modalities).drop_last() =~= modality_traits(
            modalities.drop_last(),
        ));
    }
}

proof fn a_provider_is_one_sentence(config: OpenAiConfigView)
    ensures
        described(config) == sentence(config),
{
    let caps = config.caps;
    let first = text_trait("model"@, config.default_model);
    let second = first + number_trait("context"@, caps.context);
    let third = second + modality_traits(caps.modalities);
    let fourth = third + flag_trait("tools"@, caps.tools);
    let fifth = fourth + flag_trait("jsonMode"@, caps.json);
    let sixth = fifth + text_trait("cost"@, caps.cost);
    let seventh = sixth + text_trait("vendor"@, caps.vendor);
    let eighth = seventh + number_trait("batchAt"@, caps.batch_at);
    running_on_goes_on(first, number_trait("context"@, caps.context));
    running_on_goes_on(second, modality_traits(caps.modalities));
    running_on_goes_on(third, flag_trait("tools"@, caps.tools));
    running_on_goes_on(fourth, flag_trait("jsonMode"@, caps.json));
    running_on_goes_on(fifth, text_trait("cost"@, caps.cost));
    running_on_goes_on(sixth, text_trait("vendor"@, caps.vendor));
    running_on_goes_on(seventh, number_trait("batchAt"@, caps.batch_at));
    running_on_goes_on(eighth, text_trait("params"@, caps.params));
    optional_traits_run_on("model"@, config.default_model, None, None);
    optional_traits_run_on("context"@, None, caps.context, None);
    optional_traits_run_on("tools"@, None, None, caps.tools);
    optional_traits_run_on("jsonMode"@, None, None, caps.json);
    optional_traits_run_on("cost"@, caps.cost, None, None);
    optional_traits_run_on("vendor"@, caps.vendor, None, None);
    optional_traits_run_on("batchAt"@, None, caps.batch_at, None);
    optional_traits_run_on("params"@, caps.params, None, None);
    modalities_run_on(caps.modalities);
    joining_runs_on("a ik:LlmBackend"@, traits(config));
    assert(run_on(traits(config)) == run_on(eighth) + run_on(text_trait("params"@, caps.params)));
    assert(described(config) == sentence(config));
}

proof fn providers_are_sentences(providers: Seq<OpenAiConfigView>)
    ensures
        described_all(providers) == providers.fold_left(
            Seq::<char>::empty(),
            |text: Seq<char>, config: OpenAiConfigView| text + sentence(config),
        ),
    decreases providers.len(),
{
    if providers.len() > 0 {
        providers_are_sentences(providers.drop_last());
        a_provider_is_one_sentence(providers.last());
    }
}

/// The trait graph in Turtle: the prefix, a sentence about each provider in order, and that
/// a request is routed to the default's backend.
pub proof fn the_graph_is_one_sentence_for_each(registry: &Registry, text: String)
    requires
        call_ensures(write_turtle, (registry,), text),
    ensures
        text@ == "@prefix ik: <"@ + "https://ikigai-rs.dev/ns#"@ + "> .\n"@
            + registry@.providers.fold_left(
            Seq::<char>::empty(),
            |text: Seq<char>, config: OpenAiConfigView| text + sentence(config),
        ) + "\n<urn:llm:ask> ik:routesTo <"@ + ("urn:llm:"@ + registry@.default + ":ask"@)
            + "> .\n"@,
{
    providers_are_sentences(registry@.providers);
}

} // verus!
