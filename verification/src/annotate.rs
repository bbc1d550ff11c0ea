//! Annotations: facts from an alignment graph that complete or correct what the
//! configuration declares.

use crate::config::{
    declared_wins, no_caps, Caps, CapsView, OpenAiConfigView, Registry, RegistryView,
};
use crate::needs::NeedView;
use crate::select::meets;
use crate::text::{
    a_written_number_reads_back, after_head, cut_head, decimal, is_among, natural_in, read_natural, same_text, stands_at,
    write_natural,
};
use vstd::prelude::*;
use vstd::string::*;

verus! {

/// An annotation overrode a declared value: annotations are authoritative, but never
/// silently.
#[derive(Debug, PartialEq, Eq)]
pub struct AnnotationConflict {
    /// The provider whose trait was overridden.
    pub provider: String,
    /// The trait, such as `vendor` or `context`.
    pub trait_name: String,
    /// What was declared.
    pub declared: String,
    /// What the annotation asserts, now in effect.
    pub annotated: String,
}

/// [`AnnotationConflict`] over sequences of characters.
#[verifier::ext_equal]
pub struct ConflictView {
    pub provider: Seq<char>,
    pub trait_name: Seq<char>,
    pub declared: Seq<char>,
    pub annotated: Seq<char>,
}

impl View for AnnotationConflict {
    type V = ConflictView;

    open spec fn view(&self) -> ConflictView {
        ConflictView {
            provider: self.provider@,
            trait_name: self.trait_name@,
            declared: self.declared@,
            annotated: self.annotated@,
        }
    }
}

impl DeepView for AnnotationConflict {
    type V = ConflictView;

    open spec fn deep_view(&self) -> ConflictView {
        self@
    }
}

impl Clone for AnnotationConflict {
    fn clone(&self) -> (copy: AnnotationConflict)
        ensures
            copy@ == self@,
    {
        AnnotationConflict {
            provider: self.provider.clone(),
            trait_name: self.trait_name.clone(),
            declared: self.declared.clone(),
            annotated: self.annotated.clone(),
        }
    }
}

/// A fact: subject, predicate and object.
pub type FactView = (Seq<char>, Seq<char>, Seq<char>);

/// The facts over sequences of characters.
pub open spec fn facts_view(facts: Seq<(&str, &str, &str)>) -> Seq<FactView> {
    facts.map_values(|fact: (&str, &str, &str)| (fact.0@, fact.1@, fact.2@))
}

// ---- what a fact speaks of ---------------------------------------------------------

/// The namespace of the traits.
pub const NAMESPACE: &'static str = "https://ikigai-rs.dev/ns#";

/// The trait that a predicate names: by its full IRI in [`NAMESPACE`], with the prefix
/// `ik:`, or bare. A predicate of another vocabulary names nothing but itself, and no trait
/// is called so.
pub open spec fn trait_of(predicate: Seq<char>) -> Seq<char> {
    match after_head(predicate, NAMESPACE@) {
        Some(name) => name,
        None => match after_head(predicate, "ik:"@) {
            Some(name) => name,
            None => predicate,
        },
    }
}

/// The IRI of a provider's backend.
pub open spec fn backend_iri(provider: Seq<char>) -> Seq<char> {
    "urn:llm:"@ + provider + ":ask"@
}

/// Whether a subject names this provider: by its bare name or its backend's IRI.
pub open spec fn names_provider(subject: Seq<char>, provider: Seq<char>) -> bool {
    subject == provider || subject == backend_iri(provider)
}

/// The first provider that the subject names.
pub open spec fn subject_place(providers: Seq<OpenAiConfigView>, subject: Seq<char>) -> Option<int>
    decreases providers.len(),
{
    if providers.len() == 0 {
        None
    } else {
        match subject_place(providers.drop_last(), subject) {
            Some(place) => Some(place),
            None => if names_provider(subject, providers.last().provider) {
                Some(providers.len() - 1)
            } else {
                None
            },
        }
    }
}

/// A flag as it is written.
pub open spec fn flag_text(flag: bool) -> Seq<char> {
    if flag {
        "true"@
    } else {
        "false"@
    }
}

/// The flag that a text writes.
pub open spec fn flag_in(text: Seq<char>) -> Option<bool> {
    if text == "true"@ {
        Some(true)
    } else if text == "false"@ {
        Some(false)
    } else {
        None
    }
}

/// A load shape: a whole number of at least one.
pub open spec fn crossover_in(text: Seq<char>) -> Option<u64> {
    match natural_in(text) {
        Some(n) if n >= 1 => Some(n),
        _ => None,
    }
}

// ---- what a fact changes -----------------------------------------------------------

/// The modalities with one more, unless it is there.
pub open spec fn with_modality(modalities: Seq<Seq<char>>, name: Seq<char>) -> Seq<Seq<char>> {
    if modalities.contains(name) {
        modalities
    } else {
        modalities.push(name)
    }
}

/// The profile once a trait is asserted. An object that is no value of the trait, and
/// an unknown trait, assert nothing.
pub open spec fn annotated_caps(caps: CapsView, name: Seq<char>, object: Seq<char>) -> CapsView {
    if name == "vendor"@ {
        CapsView { vendor: Some(object), ..caps }
    } else if name == "cost"@ {
        CapsView { cost: Some(object), ..caps }
    } else if name == "params"@ {
        CapsView { params: Some(object), ..caps }
    } else if name == "context"@ {
        match natural_in(object) {
            Some(n) => CapsView { context: Some(n), ..caps },
            None => caps,
        }
    } else if name == "batchAt"@ {
        match crossover_in(object) {
            Some(n) => CapsView { batch_at: Some(n), ..caps },
            None => caps,
        }
    } else if name == "tools"@ {
        match flag_in(object) {
            Some(flag) => CapsView { tools: Some(flag), ..caps },
            None => caps,
        }
    } else if name == "jsonMode"@ || name == "json"@ {
        match flag_in(object) {
            Some(flag) => CapsView { json: Some(flag), ..caps },
            None => caps,
        }
    } else if name == "modality"@ {
        CapsView { modalities: with_modality(caps.modalities, object), ..caps }
    } else {
        caps
    }
}

/// A declared text that an asserted one differs from.
pub open spec fn differing_text(
    trait_name: Seq<char>,
    declared: Option<Seq<char>>,
    object: Seq<char>,
) -> Option<(Seq<char>, Seq<char>)> {
    match declared {
        Some(declared) if declared != object => Some((trait_name, declared)),
        _ => None,
    }
}

/// A declared number that an asserted one differs from.
pub open spec fn differing_number(
    trait_name: Seq<char>,
    declared: Option<u64>,
    asserted: Option<u64>,
) -> Option<(Seq<char>, Seq<char>)> {
    match (declared, asserted) {
        (Some(declared), Some(asserted)) if declared != asserted => Some(
            (trait_name, decimal(declared as nat)),
        ),
        _ => None,
    }
}

/// A declared flag that an asserted one differs from.
pub open spec fn differing_flag(
    trait_name: Seq<char>,
    declared: Option<bool>,
    asserted: Option<bool>,
) -> Option<(Seq<char>, Seq<char>)> {
    match (declared, asserted) {
        (Some(declared), Some(asserted)) if declared != asserted => Some(
            (trait_name, flag_text(declared)),
        ),
        _ => None,
    }
}

/// The trait and the declared value that an assertion overrides.
pub open spec fn overridden(caps: CapsView, name: Seq<char>, object: Seq<char>) -> Option<
    (Seq<char>, Seq<char>),
> {
    if name == "vendor"@ {
        differing_text("vendor"@, caps.vendor, object)
    } else if name == "cost"@ {
        differing_text("cost"@, caps.cost, object)
    } else if name == "params"@ {
        differing_text("params"@, caps.params, object)
    } else if name == "context"@ {
        differing_number("context"@, caps.context, natural_in(object))
    } else if name == "batchAt"@ {
        differing_number("batchAt"@, caps.batch_at, crossover_in(object))
    } else if name == "tools"@ {
        differing_flag("tools"@, caps.tools, flag_in(object))
    } else if name == "jsonMode"@ || name == "json"@ {
        differing_flag("json"@, caps.json, flag_in(object))
    } else {
        None
    }
}

/// The registry once a fact is applied.
pub open spec fn annotated_by(registry: RegistryView, fact: FactView) -> RegistryView {
    match subject_place(registry.providers, fact.0) {
        Some(place) => RegistryView {
            providers: registry.providers.update(
                place,
                OpenAiConfigView {
                    caps: annotated_caps(
                        registry.providers[place].caps,
                        trait_of(fact.1),
                        fact.2,
                    ),
                    ..registry.providers[place]
                },
            ),
            ..registry
        },
        None => registry,
    }
}

/// The conflict that applying a fact reports.
pub open spec fn conflict_by(registry: RegistryView, fact: FactView) -> Option<ConflictView> {
    match subject_place(registry.providers, fact.0) {
        Some(place) => match overridden(
            registry.providers[place].caps,
            trait_of(fact.1),
            fact.2,
        ) {
            Some((trait_name, declared)) => Some(
                ConflictView {
                    provider: registry.providers[place].provider,
                    trait_name,
                    declared,
                    annotated: fact.2,
                },
            ),
            None => None,
        },
        None => None,
    }
}

/// The registry once the facts are applied, one after the other.
pub open spec fn annotated(registry: RegistryView, facts: Seq<FactView>) -> RegistryView
    decreases facts.len(),
{
    if facts.len() == 0 {
        registry
    } else {
        annotated_by(annotated(registry, facts.drop_last()), facts.last())
    }
}

/// The conflicts that applying the facts reports, in order.
pub open spec fn conflicts(registry: RegistryView, facts: Seq<FactView>) -> Seq<ConflictView>
    decreases facts.len(),
{
    if facts.len() == 0 {
        Seq::empty()
    } else {
        let before = conflicts(registry, facts.drop_last());
        match conflict_by(annotated(registry, facts.drop_last()), facts.last()) {
            Some(conflict) => before.push(conflict),
            None => before,
        }
    }
}

// ---- applying them -----------------------------------------------------------------

fn local_name(predicate: &str) -> (name: &str)
    ensures
        name@ == trait_of(predicate@),
{
    match cut_head(predicate, NAMESPACE) {
        Some(name) => name,
        None => match cut_head(predicate, "ik:") {
            Some(name) => name,
            None => predicate,
        },
    }
}

/// The IRI of one of a provider's resources, which `kind` tells apart.
pub(crate) fn iri_of(provider: &str, kind: &str) -> (iri: String)
    ensures
        iri@ == "urn:llm:"@ + provider@ + kind@,
{
    let mut iri = "urn:llm:".to_owned();
    iri.append(provider);
    iri.append(kind);
    iri
}

/// The IRI of a provider's backend.
pub fn backend_of(provider: &str) -> (iri: String)
    ensures
        iri@ == backend_iri(provider@),
{
    iri_of(provider, ":ask")
}

/// A flag as it is written.
pub fn write_flag(flag: bool) -> (text: String)
    ensures
        text@ == flag_text(flag),
{
    if flag {
        "true".to_owned()
    } else {
        "false".to_owned()
    }
}

fn read_flag(text: &str) -> (flag: Option<bool>)
    ensures
        flag == flag_in(text@),
{
    if same_text(text, "true") {
        Some(true)
    } else if same_text(text, "false") {
        Some(false)
    } else {
        None
    }
}

fn read_crossover(text: &str) -> (number: Option<u64>)
    ensures
        number == crossover_in(text@),
{
    match read_natural(text) {
        Some(n) => if n >= 1 {
            Some(n)
        } else {
            None
        },
        None => None,
    }
}

/// An overridden trait and its declared value, over sequences of characters.
pub open spec fn override_view(found: Option<(String, String)>) -> Option<(Seq<char>, Seq<char>)> {
    match found {
        Some((trait_name, declared)) => Some((trait_name@, declared@)),
        None => None,
    }
}

fn set_text(field: &mut Option<String>, trait_name: &str, object: &str) -> (found: Option<
    (String, String),
>)
    ensures
        final(field).deep_view() == Some(object@),
        override_view(found) == differing_text(trait_name@, old(field).deep_view(), object@),
{
    let found = match field {
        Some(declared) => if same_text(declared.as_str(), object) {
            None
        } else {
            Some((trait_name.to_owned(), declared.clone()))
        },
        None => None,
    };
    *field = Some(object.to_owned());
    found
}

fn set_number(field: &mut Option<u64>, trait_name: &str, asserted: u64) -> (found: Option<
    (String, String),
>)
    ensures
        *final(field) == Some(asserted),
        override_view(found) == differing_number(trait_name@, *old(field), Some(asserted)),
{
    let found = match *field {
        Some(declared) => if declared == asserted {
            None
        } else {
            Some((trait_name.to_owned(), write_natural(declared)))
        },
        None => None,
    };
    *field = Some(asserted);
    found
}

fn set_flag(field: &mut Option<bool>, trait_name: &str, asserted: bool) -> (found: Option<
    (String, String),
>)
    ensures
        *final(field) == Some(asserted),
        override_view(found) == differing_flag(trait_name@, *old(field), Some(asserted)),
{
    let found = match *field {
        Some(declared) => if declared == asserted {
            None
        } else {
            Some((trait_name.to_owned(), write_flag(declared)))
        },
        None => None,
    };
    *field = Some(asserted);
    found
}

/// Add a modality, unless it is there.
pub(crate) fn add_modality(modalities: &mut Vec<String>, name: &str)
    ensures
        final(modalities).deep_view() == with_modality(old(modalities).deep_view(), name@),
{
    let ghost before = modalities.deep_view();
    if !is_among(modalities, name) {
        modalities.push(name.to_owned());
        assert(modalities.deep_view() =~= before.push(name@));
    }
}

fn assert_trait(caps: &mut Caps, name: &str, object: &str) -> (found: Option<(String, String)>)
    ensures
        final(caps)@ == annotated_caps(old(caps)@, name@, object@),
        override_view(found) == overridden(old(caps)@, name@, object@),
{
    if same_text(name, "vendor") {
        set_text(&mut caps.vendor, "vendor", object)
    } else if same_text(name, "cost") {
        set_text(&mut caps.cost, "cost", object)
    } else if same_text(name, "params") {
        set_text(&mut caps.params, "params", object)
    } else if same_text(name, "context") {
        match read_natural(object) {
            Some(n) => set_number(&mut caps.context, "context", n),
            None => None,
        }
    } else if same_text(name, "batchAt") {
        match read_crossover(object) {
            Some(n) => set_number(&mut caps.batch_at, "batchAt", n),
            None => None,
        }
    } else if same_text(name, "tools") {
        match read_flag(object) {
            Some(flag) => set_flag(&mut caps.tools, "tools", flag),
            None => None,
        }
    } else if same_text(name, "jsonMode") || same_text(name, "json") {
        match read_flag(object) {
            Some(flag) => set_flag(&mut caps.json, "json", flag),
            None => None,
        }
    } else if same_text(name, "modality") {
        add_modality(&mut caps.modalities, object);
        None
    } else {
        None
    }
}

impl Registry {
    fn find_subject(&self, subject: &str) -> (place: Option<usize>)
        ensures
            match place {
                Some(place) => place < self.providers@.len() && subject_place(
                    self@.providers,
                    subject@,
                ) == Some(place as int),
                None => subject_place(self@.providers, subject@) is None,
            },
    {
        let ghost all = self@.providers;
        let mut i: usize = 0;
        while i < self.providers.len()
            invariant
                i <= self.providers.len(),
                all == self@.providers,
                subject_place(all.take(i as int), subject@) is None,
            decreases self.providers.len() - i,
        {
            let name = &self.providers[i].provider;
            assert(all[i as int].provider == name@);
            assert(all.take(i + 1).drop_last() =~= all.take(i as int));
            if same_text(subject, name.as_str()) || same_text(
                subject,
                backend_of(name.as_str()).as_str(),
            ) {
                proof {
                    subject_place_stays(all, i + 1, subject@);
                }
                return Some(i);
            }
            i = i + 1;
        }
        assert(all.take(i as int) =~= all);
        None
    }

    /// Apply annotation facts: triples from an alignment graph that complete or correct
    /// what the providers' configuration states.
    ///
    /// The subject is a backend IRI (`urn:llm:<name>:ask`) or a bare provider name; the
    /// predicate is an `ik:` trait, by its full IRI in [`NAMESPACE`], with the prefix `ik:`, or
    /// bare: `vendor`, `cost`, `context`, `batchAt`, `tools`, `jsonMode` or `json`, `modality`,
    /// `params`. Annotations are authoritative: they fill gaps and override declared values,
    /// and every override is reported. Modalities join the declared ones and never conflict.
    /// Unknown subjects and predicates, those of other vocabularies among them, are ignored:
    /// an annotation graph may say more about the world than this registry knows.
    pub fn apply_annotations(&mut self, facts: &[(&str, &str, &str)]) -> (found: Vec<
        AnnotationConflict,
    >)
        ensures
            final(self)@ == annotated(old(self)@, facts_view(facts@)),
            found.deep_view() == conflicts(old(self)@, facts_view(facts@)),
    {
        let ghost start = self@;
        let ghost all = facts_view(facts@);
        let mut found: Vec<AnnotationConflict> = Vec::new();
        let mut i: usize = 0;
        assert(found.deep_view() =~= Seq::<ConflictView>::empty());
        while i < facts.len()
            invariant
                i <= facts@.len(),
                start == old(self)@,
                all == facts_view(facts@),
                self@ == annotated(start, all.take(i as int)),
                found.deep_view() == conflicts(start, all.take(i as int)),
            decreases facts.len() - i,
        {
            let (subject, predicate, object) = facts[i];
            let ghost before = self@;
            let ghost reported = found.deep_view();
            let ghost row = self.providers@;
            assert(all.take(i + 1).drop_last() =~= all.take(i as int));
            assert(all.take(i + 1).last() == (subject@, predicate@, object@));
            if let Some(place) = self.find_subject(subject) {
                assert(before.providers[place as int] == row[place as int]@);
                let outcome = assert_trait(
                    &mut self.providers[place].caps,
                    local_name(predicate),
                    object,
                );
                assert(self@ =~= annotated_by(before, (subject@, predicate@, object@)));
                if let Some((trait_name, declared)) = outcome {
                    let conflict = AnnotationConflict {
                        provider: self.providers[place].provider.clone(),
                        trait_name,
                        declared,
                        annotated: object.to_owned(),
                    };
                    found.push(conflict);
                    assert(found.deep_view() =~= reported.push(conflict@));
                }
            }
            i = i + 1;
        }
        assert(all.take(i as int) =~= all);
        found
    }
}

proof fn subject_place_stays(providers: Seq<OpenAiConfigView>, count: int, subject: Seq<char>)
    requires
        0 <= count <= providers.len(),
        subject_place(providers.take(count), subject) is Some,
    ensures
        subject_place(providers, subject) == subject_place(providers.take(count), subject),
    decreases providers.len(),
{
    if count == providers.len() {
        assert(providers.take(count) =~= providers);
    } else {
        assert(providers.drop_last().take(count) =~= providers.take(count));
        subject_place_stays(providers.drop_last(), count, subject);
    }
}

// ---- what annotations promise ------------------------------------------------------

/// The provider that a subject speaks of is the first it names, and it speaks of none
/// if and only if it names none.
pub proof fn a_subject_is_the_first_it_names(providers: Seq<OpenAiConfigView>, subject: Seq<char>)
    ensures
        match subject_place(providers, subject) {
            Some(place) => {
                &&& 0 <= place < providers.len()
                &&& names_provider(subject, providers[place].provider)
                &&& forall|i: int|
                    0 <= i < place ==> !names_provider(subject, (#[trigger] providers[i]).provider)
            },
            None => forall|i: int|
                0 <= i < providers.len() ==> !names_provider(
                    subject,
                    (#[trigger] providers[i]).provider,
                ),
        },
    decreases providers.len(),
{
    if providers.len() > 0 {
        let head = providers.drop_last();
        a_subject_is_the_first_it_names(head, subject);
        assert forall|i: int| 0 <= i < head.len() implies head[i] == #[trigger] providers[i] by {}
        assert(providers.last() == providers[providers.len() - 1]);
    }
}

/// A fact about a provider that the registry does not know changes nothing and reports
/// nothing.
pub proof fn an_unknown_subject_is_ignored(registry: RegistryView, fact: FactView)
    requires
        forall|i: int|
            0 <= i < registry.providers.len() ==> !names_provider(
                fact.0,
                (#[trigger] registry.providers[i]).provider,
            ),
    ensures
        annotated_by(registry, fact) == registry,
        conflict_by(registry, fact) is None,
{
    a_subject_is_the_first_it_names(registry.providers, fact.0);
}

/// Whether a name is that of a trait.
pub open spec fn known_trait(name: Seq<char>) -> bool {
    ||| name == "vendor"@
    ||| name == "cost"@
    ||| name == "params"@
    ||| name == "context"@
    ||| name == "batchAt"@
    ||| name == "tools"@
    ||| name == "jsonMode"@
    ||| name == "json"@
    ||| name == "modality"@
}

/// The traits' names differ in their length or where they begin.
pub(crate) proof fn trait_names_differ()
    ensures
        "vendor"@.len() == 6 && "vendor"@[0] == 'v',
        "cost"@.len() == 4 && "cost"@[0] == 'c',
        "params"@.len() == 6 && "params"@[0] == 'p',
        "context"@.len() == 7 && "context"@[0] == 'c',
        "batchAt"@.len() == 7 && "batchAt"@[0] == 'b',
        "tools"@.len() == 5 && "tools"@[0] == 't',
        "jsonMode"@.len() == 8 && "jsonMode"@[0] == 'j',
        "json"@.len() == 4 && "json"@[0] == 'j',
        "modality"@.len() == 8 && "modality"@[0] == 'm',
{
    reveal_strlit("vendor");
    reveal_strlit("cost");
    reveal_strlit("params");
    reveal_strlit("context");
    reveal_strlit("batchAt");
    reveal_strlit("tools");
    reveal_strlit("jsonMode");
    reveal_strlit("json");
    reveal_strlit("modality");
}

/// A fact about a trait that the registry does not know, by a predicate of another
/// vocabulary say, changes nothing and reports nothing.
pub proof fn an_unknown_trait_is_ignored(registry: RegistryView, fact: FactView)
    requires
        !known_trait(trait_of(fact.1)),
    ensures
        annotated_by(registry, fact) == registry,
        conflict_by(registry, fact) is None,
{
    a_subject_is_the_first_it_names(registry.providers, fact.0);
    if let Some(place) = subject_place(registry.providers, fact.0) {
        assert(annotated_by(registry, fact).providers =~= registry.providers);
    }
}

/// Every value that `before` states, `after` states too.
pub open spec fn keeps(before: CapsView, after: CapsView) -> bool {
    &&& before.context is Some ==> after.context == before.context
    &&& before.modalities.is_prefix_of(after.modalities)
    &&& before.tools is Some ==> after.tools == before.tools
    &&& before.json is Some ==> after.json == before.json
    &&& before.cost is Some ==> after.cost == before.cost
    &&& before.vendor is Some ==> after.vendor == before.vendor
    &&& before.batch_at is Some ==> after.batch_at == before.batch_at
    &&& before.params is Some ==> after.params == before.params
}

/// No override is silent: a fact is reported if and only if it changes a value that was
/// stated, and what was stated of modalities stays in any case.
pub proof fn no_override_is_silent(registry: RegistryView, fact: FactView)
    ensures
        conflict_by(registry, fact) is None <==> forall|i: int|
            0 <= i < registry.providers.len() ==> keeps(
                (#[trigger] registry.providers[i]).caps,
                annotated_by(registry, fact).providers[i].caps,
            ),
        forall|i: int|
            0 <= i < registry.providers.len() ==> (
            #[trigger] registry.providers[i]).caps.modalities.is_prefix_of(
                annotated_by(registry, fact).providers[i].caps.modalities,
            ),
{
    a_subject_is_the_first_it_names(registry.providers, fact.0);
    let after = annotated_by(registry, fact);
    if let Some(place) = subject_place(registry.providers, fact.0) {
        let caps = registry.providers[place].caps;
        assert(after.providers[place].caps == annotated_caps(caps, trait_of(fact.1), fact.2));
        assert(conflict_by(registry, fact) is None <==> keeps(caps, after.providers[place].caps));
        assert forall|i: int| 0 <= i < registry.providers.len() && i != place implies keeps(
            (#[trigger] registry.providers[i]).caps,
            after.providers[i].caps,
        ) by {
            assert(after.providers[i] == registry.providers[i]);
        }
    }
}

/// Modalities are a set that an assertion joins: it never conflicts, and afterwards the
/// provider has the modality and all it had before.
pub proof fn a_modality_joins_without_conflict(registry: RegistryView, fact: FactView)
    requires
        trait_of(fact.1) == "modality"@,
        subject_place(registry.providers, fact.0) is Some,
    ensures
        conflict_by(registry, fact) is None,
        ({
            let place = subject_place(registry.providers, fact.0)->0;
            let before = registry.providers[place].caps.modalities;
            let after = annotated_by(registry, fact).providers[place].caps.modalities;
            after.contains(fact.2) && before.is_prefix_of(after)
        }),
{
    a_subject_is_the_first_it_names(registry.providers, fact.0);
    no_override_is_silent(registry, fact);
    let place = subject_place(registry.providers, fact.0)->0;
    let caps = registry.providers[place].caps;
    trait_names_differ();
    let after = annotated_caps(caps, "modality"@, fact.2).modalities;
    if !caps.modalities.contains(fact.2) {
        assert(after.last() == fact.2);
    }
    assert(after.contains(fact.2));
}

/// Whether two registries differ in nothing but profiles.
pub open spec fn same_but_profiles(left: RegistryView, right: RegistryView) -> bool {
    &&& left.default == right.default
    &&& left.providers.len() == right.providers.len()
    &&& forall|i: int|
        0 <= i < left.providers.len() ==> #[trigger] right.providers[i] == (OpenAiConfigView {
            caps: right.providers[i].caps,
            ..left.providers[i]
        })
}

/// Annotations touch profiles only: names, servers, models, keys and the default stay.
pub proof fn annotations_touch_only_profiles(registry: RegistryView, facts: Seq<FactView>)
    ensures
        same_but_profiles(registry, annotated(registry, facts)),
    decreases facts.len(),
{
    if facts.len() > 0 {
        annotations_touch_only_profiles(registry, facts.drop_last());
        let before = annotated(registry, facts.drop_last());
        let after = annotated(registry, facts);
        a_subject_is_the_first_it_names(before.providers, facts.last().0);
        assert forall|i: int| 0 <= i < registry.providers.len() implies #[trigger]
            after.providers[i] == (OpenAiConfigView {
            caps: after.providers[i].caps,
            ..registry.providers[i]
        }) by {
            assert(before.providers[i] == (OpenAiConfigView {
                caps: before.providers[i].caps,
                ..registry.providers[i]
            }));
        }
    }
}

/// Annotations are authoritative: once a vendor is asserted of a known provider, that is
/// its vendor, and `vendor!=` excludes it by that name and lets it pass by any other.
pub proof fn an_asserted_vendor_is_the_vendor(
    registry: RegistryView,
    fact: FactView,
    other: Seq<char>,
)
    requires
        trait_of(fact.1) == "vendor"@,
        subject_place(registry.providers, fact.0) is Some,
        other != fact.2,
    ensures
        ({
            let place = subject_place(registry.providers, fact.0)->0;
            let provider = annotated_by(registry, fact).providers[place];
            &&& provider.caps.vendor == Some(fact.2)
            &&& !meets(provider, NeedView::VendorNot(fact.2))
            &&& meets(provider, NeedView::VendorNot(other))
        }),
{
    a_subject_is_the_first_it_names(registry.providers, fact.0);
}

pub(crate) proof fn place_follows_names(
    left: Seq<OpenAiConfigView>,
    right: Seq<OpenAiConfigView>,
    subject: Seq<char>,
)
    requires
        left.len() == right.len(),
        forall|i: int|
            0 <= i < left.len() ==> (#[trigger] left[i]).provider == right[i].provider,
    ensures
        subject_place(left, subject) == subject_place(right, subject),
    decreases left.len(),
{
    if left.len() > 0 {
        place_follows_names(left.drop_last(), right.drop_last(), subject);
        assert(left[left.len() - 1].provider == right[right.len() - 1].provider);
    }
}

/// Applying a fact again changes nothing and reports nothing.
pub proof fn a_repeated_fact_changes_nothing(registry: RegistryView, fact: FactView)
    ensures
        annotated_by(annotated_by(registry, fact), fact) == annotated_by(registry, fact),
        conflict_by(annotated_by(registry, fact), fact) is None,
{
    let after = annotated_by(registry, fact);
    a_subject_is_the_first_it_names(registry.providers, fact.0);
    place_follows_names(registry.providers, after.providers, fact.0);
    if let Some(place) = subject_place(registry.providers, fact.0) {
        let caps = registry.providers[place].caps;
        let name = trait_of(fact.1);
        let again = annotated_caps(annotated_caps(caps, name, fact.2), name, fact.2);
        if name == "modality"@ && !caps.modalities.contains(fact.2) {
            assert(caps.modalities.push(fact.2).last() == fact.2);
            assert(caps.modalities.push(fact.2).contains(fact.2));
        }
        assert(again == annotated_caps(caps, name, fact.2));
        assert(annotated_by(after, fact).providers =~= after.providers);
    }
}

/// Annotations outrank what is discovered, as what is declared does: an asserted value
/// survives the merge with any discovered profile.
pub proof fn annotations_outrank_discovery(
    caps: CapsView,
    name: Seq<char>,
    object: Seq<char>,
    discovered: CapsView,
)
    ensures
        ({
            let merged = declared_wins(annotated_caps(caps, name, object), discovered);
            &&& name == "vendor"@ ==> merged.vendor == Some(object)
            &&& name == "cost"@ ==> merged.cost == Some(object)
            &&& name == "params"@ ==> merged.params == Some(object)
            &&& name == "context"@ && natural_in(object) is Some ==> merged.context
                == natural_in(object)
            &&& name == "batchAt"@ && crossover_in(object) is Some ==> merged.batch_at
                == crossover_in(object)
            &&& name == "tools"@ && flag_in(object) is Some ==> merged.tools == flag_in(object)
            &&& (name == "json"@ || name == "jsonMode"@) && flag_in(object) is Some ==> merged.json
                == flag_in(object)
            &&& name == "modality"@ ==> merged.modalities.contains(object)
        }),
{
    trait_names_differ();
    if name == "modality"@ {
        let after = annotated_caps(caps, name, object).modalities;
        if !caps.modalities.contains(object) {
            assert(after.last() == object);
        }
        assert(after.contains(object));
    }
}

/// A predicate that holds a `:` or a `#`, and begins neither as the namespace does nor with
/// `ik:`, is one of another vocabulary: the fact is ignored.
pub proof fn a_foreign_predicate_is_ignored(registry: RegistryView, fact: FactView)
    requires
        after_head(fact.1, NAMESPACE@) is None,
        after_head(fact.1, "ik:"@) is None,
        fact.1.contains(':') || fact.1.contains('#'),
    ensures
        annotated_by(registry, fact) == registry,
        conflict_by(registry, fact) is None,
{
    trait_names_are_plain(fact.1);
    an_unknown_trait_is_ignored(registry, fact);
}

proof fn trait_names_are_plain(name: Seq<char>)
    ensures
        known_trait(name) ==> !name.contains(':') && !name.contains('#'),
{
    reveal_strlit("vendor");
    reveal_strlit("cost");
    reveal_strlit("params");
    reveal_strlit("context");
    reveal_strlit("batchAt");
    reveal_strlit("tools");
    reveal_strlit("jsonMode");
    reveal_strlit("json");
    reveal_strlit("modality");
    if known_trait(name) {
        assert(name.len() <= 8);
        assert forall|i: int| 0 <= i < name.len() implies #[trigger] name[i] != ':' && name[i]
            != '#' by {
            assert(i == 0 || i == 1 || i == 2 || i == 3 || i == 4 || i == 5 || i == 6 || i == 7);
        }
    }
}

// ---- the forms of a fact -----------------------------------------------------------

/// Whether a predicate is a trait's name in one of its forms: bare, with the prefix `ik:`,
/// or the full IRI.
pub open spec fn is_form_of(predicate: Seq<char>, name: Seq<char>) -> bool {
    ||| predicate == name
    ||| predicate == "ik:"@ + name
    ||| predicate == NAMESPACE@ + name
}

proof fn a_form_names_its_trait(predicate: Seq<char>, name: Seq<char>)
    requires
        known_trait(name),
        is_form_of(predicate, name),
    ensures
        trait_of(predicate) == name,
{
    trait_names_differ();
    reveal_strlit("ik:");
    reveal_strlit("https://ikigai-rs.dev/ns#");
    assert("ik:"@[0] == 'i' && "ik:"@.len() == 3);
    assert(NAMESPACE@[0] == 'h' && NAMESPACE@.len() > 0);
    if stands_at(predicate, NAMESPACE@, 0) {
        assert(predicate.subrange(0, NAMESPACE@.len() as int)[0] == predicate[0]);
    }
    if stands_at(predicate, "ik:"@, 0) {
        assert(predicate.subrange(0, "ik:"@.len() as int)[0] == predicate[0]);
    }
    if predicate == NAMESPACE@ + name {
        assert(predicate.subrange(0, NAMESPACE@.len() as int) =~= NAMESPACE@);
        assert(predicate.skip(NAMESPACE@.len() as int) =~= name);
    } else if predicate == "ik:"@ + name {
        assert(predicate[0] == 'i');
        assert(predicate.subrange(0, "ik:"@.len() as int) =~= "ik:"@);
        assert(predicate.skip("ik:"@.len() as int) =~= name);
    }
}

/// Whether no earlier provider can be taken for the one at a place: none is named like its
/// backend, nor is it named like the backend of one.
pub open spec fn is_clear(providers: Seq<OpenAiConfigView>, place: int) -> bool {
    forall|i: int|
        0 <= i < place ==> {
            &&& (#[trigger] providers[i]).provider != backend_iri(providers[place].provider)
            &&& providers[place].provider != backend_iri(providers[i].provider)
        }
}

/// Whether two subjects are the same, or both name one provider that no earlier one can be
/// taken for.
pub open spec fn same_subject(
    providers: Seq<OpenAiConfigView>,
    left: Seq<char>,
    right: Seq<char>,
) -> bool {
    left == right || exists|place: int| #[trigger]
        is_clear(providers, place) && 0 <= place < providers.len() && names_provider(
            left,
            providers[place].provider,
        ) && names_provider(right, providers[place].provider)
}

/// Whether two predicates are the same, or both are forms of one trait's name.
pub open spec fn same_predicate(left: Seq<char>, right: Seq<char>) -> bool {
    left == right || exists|name: Seq<char>| #[trigger]
        known_trait(name) && is_form_of(left, name) && is_form_of(right, name)
}

/// Whether two facts say the same of one of the providers, in whatever forms.
pub open spec fn same_fact(
    providers: Seq<OpenAiConfigView>,
    left: FactView,
    right: FactView,
) -> bool {
    &&& same_subject(providers, left.0, right.0)
    &&& same_predicate(left.1, right.1)
    &&& left.2 == right.2
}

pub(crate) proof fn backends_differ_by_name(left: Seq<char>, right: Seq<char>)
    requires
        backend_iri(left) == backend_iri(right),
    ensures
        left == right,
{
    let front = "urn:llm:"@.len() as int;
    assert(backend_iri(left).len() == front + left.len() + ":ask"@.len());
    assert(backend_iri(right).len() == front + right.len() + ":ask"@.len());
    assert(left =~= backend_iri(left).subrange(front, front + left.len()));
    assert(right =~= backend_iri(right).subrange(front, front + right.len()));
}

/// A subject that names the provider at a clear place speaks of a provider of that name.
proof fn a_clear_subject_keeps_the_name(
    providers: Seq<OpenAiConfigView>,
    place: int,
    subject: Seq<char>,
)
    requires
        0 <= place < providers.len(),
        is_clear(providers, place),
        names_provider(subject, providers[place].provider),
    ensures
        subject_place(providers, subject) matches Some(found) && 0 <= found <= place
            && providers[found].provider == providers[place].provider,
{
    a_subject_is_the_first_it_names(providers, subject);
    match subject_place(providers, subject) {
        Some(found) => {
            let name = providers[place].provider;
            let other = providers[found].provider;
            if found < place {
                assert(providers[found].provider != backend_iri(name));
                if backend_iri(name) == backend_iri(other) {
                    backends_differ_by_name(name, other);
                }
            }
        },
        None => {
            assert(!names_provider(subject, providers[place].provider));
        },
    }
}

proof fn same_subject_same_place(
    providers: Seq<OpenAiConfigView>,
    left: Seq<char>,
    right: Seq<char>,
)
    requires
        same_subject(providers, left, right),
    ensures
        subject_place(providers, left) == subject_place(providers, right),
{
    if left != right {
        let place = choose|place: int| #[trigger]
            is_clear(providers, place) && 0 <= place < providers.len() && names_provider(
                left,
                providers[place].provider,
            ) && names_provider(right, providers[place].provider);
        a_clear_subject_keeps_the_name(providers, place, left);
        a_clear_subject_keeps_the_name(providers, place, right);
        a_subject_is_the_first_it_names(providers, left);
        a_subject_is_the_first_it_names(providers, right);
        let here = subject_place(providers, left)->0;
        let there = subject_place(providers, right)->0;
        assert(names_provider(left, providers[there].provider));
        assert(names_provider(right, providers[here].provider));
    }
}

/// Facts act alike in whatever forms they are written: the subject as a backend's IRI or a
/// bare name, the predicate as a full IRI, with the prefix `ik:` or bare. Left out are
/// subjects of a provider that an earlier one can be taken for, which speak of that one in
/// one of their forms.
pub proof fn every_form_of_a_fact_acts_alike(
    registry: RegistryView,
    left: Seq<FactView>,
    right: Seq<FactView>,
)
    requires
        left.len() == right.len(),
        forall|i: int|
            #![trigger left[i]]
            0 <= i < left.len() ==> same_fact(registry.providers, left[i], right[i]),
    ensures
        annotated(registry, left) == annotated(registry, right),
        conflicts(registry, left) == conflicts(registry, right),
    decreases left.len(),
{
    if left.len() > 0 {
        let last = left.len() - 1;
        assert forall|i: int| 0 <= i < last implies #[trigger] left.drop_last()[i] == left[i] by {}
        every_form_of_a_fact_acts_alike(registry, left.drop_last(), right.drop_last());
        let before = annotated(registry, left.drop_last());
        annotations_touch_only_profiles(registry, left.drop_last());
        assert(same_fact(registry.providers, left[last], right[last]));
        same_subject_same_place(registry.providers, left[last].0, right[last].0);
        assert forall|i: int| 0 <= i < registry.providers.len() implies (
        #[trigger] registry.providers[i]).provider == before.providers[i].provider by {
            assert(before.providers[i].provider == registry.providers[i].provider);
        }
        place_follows_names(registry.providers, before.providers, left[last].0);
        place_follows_names(registry.providers, before.providers, right[last].0);
        if left[last].1 != right[last].1 {
            let name = choose|name: Seq<char>| #[trigger]
                known_trait(name) && is_form_of(left[last].1, name) && is_form_of(
                    right[last].1,
                    name,
                );
            a_form_names_its_trait(left[last].1, name);
            a_form_names_its_trait(right[last].1, name);
        }
    }
}

/// Facts can be applied in parts, one part after the other.
pub proof fn annotating_in_parts(
    registry: RegistryView,
    left: Seq<FactView>,
    right: Seq<FactView>,
)
    ensures
        annotated(registry, left + right) == annotated(annotated(registry, left), right),
        conflicts(registry, left + right) == conflicts(registry, left) + conflicts(
            annotated(registry, left),
            right,
        ),
    decreases right.len(),
{
    if right.len() == 0 {
        assert(left + right =~= left);
        assert(conflicts(registry, left) + Seq::<ConflictView>::empty() =~= conflicts(
            registry,
            left,
        ));
    } else {
        let head = right.drop_last();
        assert((left + right).drop_last() =~= left + head);
        assert((left + right).last() == right.last());
        annotating_in_parts(registry, left, head);
        assert(conflicts(registry, left + right) =~= conflicts(registry, left) + conflicts(
            annotated(registry, left),
            right,
        ));
    }
}

/// Whether an object is no value of the trait.
pub open spec fn is_unreadable(name: Seq<char>, object: Seq<char>) -> bool {
    ||| name == "context"@ && natural_in(object) is None
    ||| name == "batchAt"@ && crossover_in(object) is None
    ||| (name == "tools"@ || name == "jsonMode"@ || name == "json"@) && flag_in(object) is None
}

/// Whether a fact says nothing that the registry knows: it names none of the providers, or no
/// trait, or no value of the trait.
pub open spec fn says_nothing(providers: Seq<OpenAiConfigView>, fact: FactView) -> bool {
    ||| forall|i: int|
        0 <= i < providers.len() ==> !names_provider(fact.0, (#[trigger] providers[i]).provider)
    ||| !known_trait(trait_of(fact.1))
    ||| is_unreadable(trait_of(fact.1), fact.2)
}

proof fn saying_nothing_changes_nothing(registry: RegistryView, fact: FactView)
    requires
        says_nothing(registry.providers, fact),
    ensures
        annotated_by(registry, fact) == registry,
        conflict_by(registry, fact) is None,
{
    trait_names_differ();
    a_subject_is_the_first_it_names(registry.providers, fact.0);
    if let Some(place) = subject_place(registry.providers, fact.0) {
        assert(annotated_by(registry, fact).providers =~= registry.providers);
    }
}

/// A fact that says nothing the registry knows is ignored wherever it stands: left out, the
/// registry and the conflicts are the same.
pub proof fn an_ignored_fact_can_be_left_out(
    registry: RegistryView,
    left: Seq<FactView>,
    fact: FactView,
    right: Seq<FactView>,
)
    requires
        says_nothing(registry.providers, fact),
    ensures
        annotated(registry, left.push(fact) + right) == annotated(registry, left + right),
        conflicts(registry, left.push(fact) + right) == conflicts(registry, left + right),
{
    let before = annotated(registry, left);
    annotations_touch_only_profiles(registry, left);
    assert(says_nothing(before.providers, fact)) by {
        if forall|i: int|
            0 <= i < registry.providers.len() ==> !names_provider(
                fact.0,
                (#[trigger] registry.providers[i]).provider,
            ) {
            assert forall|i: int| 0 <= i < before.providers.len() implies !names_provider(
                fact.0,
                (#[trigger] before.providers[i]).provider,
            ) by {
                assert(!names_provider(fact.0, registry.providers[i].provider));
            }
        }
    }
    saying_nothing_changes_nothing(before, fact);
    assert(left.push(fact).drop_last() =~= left);
    annotating_in_parts(registry, left.push(fact), right);
    annotating_in_parts(registry, left, right);
}

// ---- facts applied again -----------------------------------------------------------

/// The modalities, followed by those of the second row that are not there yet.
pub open spec fn with_modalities(
    modalities: Seq<Seq<char>>,
    more: Seq<Seq<char>>,
) -> Seq<Seq<char>>
    decreases more.len(),
{
    if more.len() == 0 {
        modalities
    } else {
        with_modality(with_modalities(modalities, more.drop_last()), more.last())
    }
}

/// A profile overlaid on another: what it states counts, and modalities are joined.
pub open spec fn overlaid(top: CapsView, base: CapsView) -> CapsView {
    CapsView {
        modalities: with_modalities(base.modalities, top.modalities),
        ..declared_wins(top, base)
    }
}

/// The registry with every profile empty.
pub open spec fn blank(registry: RegistryView) -> RegistryView {
    RegistryView {
        providers: registry.providers.map_values(
            |config: OpenAiConfigView| OpenAiConfigView { caps: no_caps(), ..config },
        ),
        ..registry
    }
}

proof fn joined_modalities_hold_both(modalities: Seq<Seq<char>>, more: Seq<Seq<char>>)
    ensures
        forall|name: Seq<char>| #[trigger]
            with_modalities(modalities, more).contains(name) <==> modalities.contains(name)
                || more.contains(name),
    decreases more.len(),
{
    if more.len() > 0 {
        let head = more.drop_last();
        let so_far = with_modalities(modalities, head);
        let all = with_modalities(modalities, more);
        joined_modalities_hold_both(modalities, head);
        assert forall|name: Seq<char>| #[trigger] all.contains(name) <==> modalities.contains(name)
            || more.contains(name) by {
            assert(more =~= head.push(more.last()));
            assert(so_far.contains(name) <==> modalities.contains(name) || head.contains(name));
            pushed_holds(head, more.last(), name);
            pushed_holds(so_far, more.last(), name);
        }
    }
}

proof fn pushed_holds(texts: Seq<Seq<char>>, last: Seq<char>, name: Seq<char>)
    ensures
        texts.push(last).contains(name) <==> texts.contains(name) || name == last,
{
    if texts.contains(name) {
        let i = choose|i: int| 0 <= i < texts.len() && texts[i] == name;
        assert(texts.push(last)[i] == name);
    }
    assert(texts.push(last)[texts.len() as int] == last);
    if texts.push(last).contains(name) && name != last {
        let i = choose|i: int| 0 <= i < texts.push(last).len() && texts.push(last)[i] == name;
        assert(texts[i] == name);
    }
}

proof fn an_assertion_is_overlaid(
    top: CapsView,
    base: CapsView,
    name: Seq<char>,
    object: Seq<char>,
)
    ensures
        annotated_caps(overlaid(top, base), name, object) == overlaid(
            annotated_caps(top, name, object),
            base,
        ),
{
    joined_modalities_hold_both(base.modalities, top.modalities);
    let more = top.modalities.push(object);
    assert(more.drop_last() =~= top.modalities);
    assert(more.last() == object);
    assert(with_modalities(base.modalities, more) == with_modality(
        with_modalities(base.modalities, top.modalities),
        object,
    ));
}

proof fn facts_are_overlaid(registry: RegistryView, facts: Seq<FactView>)
    ensures
        same_but_profiles(registry, annotated(registry, facts)),
        same_but_profiles(registry, annotated(blank(registry), facts)),
        forall|i: int|
            0 <= i < registry.providers.len() ==> (
            #[trigger] annotated(registry, facts).providers[i]).caps == overlaid(
                annotated(blank(registry), facts).providers[i].caps,
                registry.providers[i].caps,
            ),
    decreases facts.len(),
{
    annotations_touch_only_profiles(registry, facts);
    annotations_touch_only_profiles(blank(registry), facts);
    let after = annotated(registry, facts);
    let claimed = annotated(blank(registry), facts);
    assert forall|i: int| 0 <= i < registry.providers.len() implies #[trigger] claimed.providers[i]
        == (OpenAiConfigView { caps: claimed.providers[i].caps, ..registry.providers[i] }) by {
        assert(claimed.providers[i] == (OpenAiConfigView {
            caps: claimed.providers[i].caps,
            ..blank(registry).providers[i]
        }));
    }
    if facts.len() > 0 {
        let head = facts.drop_last();
        let fact = facts.last();
        facts_are_overlaid(registry, head);
        let before = annotated(registry, head);
        let claims = annotated(blank(registry), head);
        assert forall|i: int| 0 <= i < registry.providers.len() implies (
        #[trigger] before.providers[i]).provider == claims.providers[i].provider by {
            assert(before.providers[i].provider == registry.providers[i].provider);
            assert(claims.providers[i].provider == registry.providers[i].provider);
        }
        place_follows_names(before.providers, claims.providers, fact.0);
        a_subject_is_the_first_it_names(before.providers, fact.0);
        assert forall|i: int| 0 <= i < registry.providers.len() implies (
        #[trigger] after.providers[i]).caps == overlaid(
            claimed.providers[i].caps,
            registry.providers[i].caps,
        ) by {
            assert(before.providers[i].caps == overlaid(
                claims.providers[i].caps,
                registry.providers[i].caps,
            ));
            an_assertion_is_overlaid(
                claims.providers[i].caps,
                registry.providers[i].caps,
                trait_of(fact.1),
                fact.2,
            );
        }
    } else {
        assert forall|i: int| 0 <= i < registry.providers.len() implies (
        #[trigger] after.providers[i]).caps == overlaid(
            claimed.providers[i].caps,
            registry.providers[i].caps,
        ) by {
            assert(claimed.providers[i].caps == no_caps());
        }
    }
}

proof fn overlaying_again_changes_nothing(top: CapsView, base: CapsView)
    ensures
        overlaid(top, overlaid(top, base)) == overlaid(top, base),
{
    let joined = with_modalities(base.modalities, top.modalities);
    joined_modalities_hold_both(base.modalities, top.modalities);
    assert forall|i: int| 0 <= i < top.modalities.len() implies joined.contains(
        #[trigger] top.modalities[i],
    ) by {}
    nothing_new_joins(joined, top.modalities);
}

proof fn nothing_new_joins(modalities: Seq<Seq<char>>, more: Seq<Seq<char>>)
    requires
        forall|i: int| 0 <= i < more.len() ==> modalities.contains(#[trigger] more[i]),
    ensures
        with_modalities(modalities, more) == modalities,
    decreases more.len(),
{
    if more.len() > 0 {
        assert forall|i: int| 0 <= i < more.drop_last().len() implies modalities.contains(
            #[trigger] more.drop_last()[i],
        ) by {
            assert(more[i] == more.drop_last()[i]);
        }
        nothing_new_joins(modalities, more.drop_last());
        assert(more.last() == more[more.len() - 1]);
    }
}

/// Facts applied again leave the registry as it is.
pub proof fn repeated_facts_change_nothing(registry: RegistryView, facts: Seq<FactView>)
    ensures
        annotated(annotated(registry, facts), facts) == annotated(registry, facts),
{
    let once = annotated(registry, facts);
    let twice = annotated(once, facts);
    facts_are_overlaid(registry, facts);
    facts_are_overlaid(once, facts);
    assert(blank(once) == blank(registry)) by {
        assert forall|i: int| 0 <= i < registry.providers.len() implies #[trigger] blank(
            once,
        ).providers[i] == blank(registry).providers[i] by {
            assert(once.providers[i] == (OpenAiConfigView {
                caps: once.providers[i].caps,
                ..registry.providers[i]
            }));
        }
        assert(blank(once).providers =~= blank(registry).providers);
    }
    let claimed = annotated(blank(registry), facts);
    assert forall|i: int| 0 <= i < once.providers.len() implies #[trigger] twice.providers[i]
        == once.providers[i] by {
        assert(twice.providers[i] == (OpenAiConfigView {
            caps: twice.providers[i].caps,
            ..once.providers[i]
        }));
        assert(once.providers[i].caps == overlaid(
            claimed.providers[i].caps,
            registry.providers[i].caps,
        ));
        overlaying_again_changes_nothing(claimed.providers[i].caps, registry.providers[i].caps);
    }
    assert(twice.providers =~= once.providers);
}

/// Whether a fact gives a trait of a provider another value than an earlier one did.
pub open spec fn contradicts(
    providers: Seq<OpenAiConfigView>,
    fact: FactView,
    earlier: FactView,
) -> bool {
    &&& subject_place(providers, fact.0) is Some
    &&& subject_place(providers, fact.0) == subject_place(providers, earlier.0)
    &&& overridden(
        annotated_caps(no_caps(), trait_of(earlier.1), earlier.2),
        trait_of(fact.1),
        fact.2,
    ) is Some
}

/// No two facts give one trait of a provider different values.
pub open spec fn agree(providers: Seq<OpenAiConfigView>, facts: Seq<FactView>) -> bool {
    forall|i: int, j: int|
        #![trigger facts[i], facts[j]]
        0 <= i < j < facts.len() ==> !contradicts(providers, facts[j], facts[i])
}

proof fn a_settled_trait_stays(
    caps: CapsView,
    name: Seq<char>,
    object: Seq<char>,
    other: Seq<char>,
    value: Seq<char>,
)
    requires
        annotated_caps(caps, name, object) == caps,
        overridden(annotated_caps(no_caps(), name, object), other, value) is None,
    ensures
        annotated_caps(annotated_caps(caps, other, value), name, object) == annotated_caps(
            caps,
            other,
            value,
        ),
{
    pushed_holds(caps.modalities, value, object);
    if name == "modality"@ {
        trait_names_differ();
        if !caps.modalities.contains(object) {
            assert(caps.modalities.push(object).len() == caps.modalities.len() + 1);
        }
    }
}

proof fn every_fact_is_settled(registry: RegistryView, facts: Seq<FactView>, place: int)
    requires
        agree(registry.providers, facts),
        0 <= place < facts.len(),
    ensures
        annotated_by(annotated(registry, facts), facts[place]) == annotated(registry, facts),
    decreases facts.len(),
{
    let head = facts.drop_last();
    let before = annotated(registry, head);
    let after = annotated(registry, facts);
    let last = facts.last();
    let fact = facts[place];
    if place == facts.len() - 1 {
        a_repeated_fact_changes_nothing(before, last);
    } else {
        assert(agree(registry.providers, head)) by {
            assert forall|i: int, j: int|
                #![trigger head[i], head[j]]
                0 <= i < j < head.len() implies !contradicts(
                registry.providers,
                head[j],
                head[i],
            ) by {
                assert(head[i] == facts[i] && head[j] == facts[j]);
            }
        }
        assert(head[place] == fact);
        every_fact_is_settled(registry, head, place);
        annotations_touch_only_profiles(registry, head);
        assert forall|i: int| 0 <= i < registry.providers.len() implies (
        #[trigger] registry.providers[i]).provider == before.providers[i].provider by {
            assert(before.providers[i].provider == registry.providers[i].provider);
        }
        place_follows_names(registry.providers, before.providers, last.0);
        place_follows_names(registry.providers, before.providers, fact.0);
        a_subject_is_the_first_it_names(before.providers, last.0);
        a_subject_is_the_first_it_names(before.providers, fact.0);
        place_follows_names(before.providers, after.providers, fact.0);
        assert(!contradicts(registry.providers, facts[facts.len() - 1], facts[place]));
        if let Some(k) = subject_place(before.providers, fact.0) {
            let caps = before.providers[k].caps;
            assert(annotated_by(before, fact).providers[k].caps == caps);
            if subject_place(before.providers, last.0) == Some(k) {
                a_settled_trait_stays(caps, trait_of(fact.1), fact.2, trait_of(last.1), last.2);
            }
            assert(annotated_by(after, fact).providers =~= after.providers);
        }
    }
}

proof fn a_settled_fact_is_quiet(registry: RegistryView, fact: FactView)
    requires
        annotated_by(registry, fact) == registry,
    ensures
        conflict_by(registry, fact) is None,
{
    no_override_is_silent(registry, fact);
    assert forall|i: int| 0 <= i < registry.providers.len() implies keeps(
        (#[trigger] registry.providers[i]).caps,
        annotated_by(registry, fact).providers[i].caps,
    ) by {}
}

proof fn settled_facts_are_quiet(registry: RegistryView, facts: Seq<FactView>)
    requires
        forall|i: int|
            0 <= i < facts.len() ==> annotated_by(registry, #[trigger] facts[i]) == registry,
    ensures
        annotated(registry, facts) == registry,
        conflicts(registry, facts) == Seq::<ConflictView>::empty(),
    decreases facts.len(),
{
    if facts.len() > 0 {
        let head = facts.drop_last();
        assert forall|i: int| 0 <= i < head.len() implies annotated_by(
            registry,
            #[trigger] head[i],
        ) == registry by {
            assert(head[i] == facts[i]);
        }
        settled_facts_are_quiet(registry, head);
        assert(facts.last() == facts[facts.len() - 1]);
        a_settled_fact_is_quiet(registry, facts.last());
    }
}

/// Facts applied again report nothing, where no two of them give one trait of a provider
/// different values.
pub proof fn repeated_facts_report_nothing(registry: RegistryView, facts: Seq<FactView>)
    requires
        agree(registry.providers, facts),
    ensures
        conflicts(annotated(registry, facts), facts) == Seq::<ConflictView>::empty(),
{
    let once = annotated(registry, facts);
    assert forall|i: int| 0 <= i < facts.len() implies annotated_by(once, #[trigger] facts[i])
        == once by {
        every_fact_is_settled(registry, facts, i);
    }
    settled_facts_are_quiet(once, facts);
}

// ---- what a fact says --------------------------------------------------------------

/// Whether a subject speaks of the provider at a place: it is its name, or the IRI of its
/// backend, and neither of any provider before.
pub open spec fn speaks_of(
    providers: Seq<OpenAiConfigView>,
    subject: Seq<char>,
    place: int,
) -> bool {
    &&& 0 <= place < providers.len()
    &&& subject == providers[place].provider || subject == "urn:llm:"@ + providers[place].provider
        + ":ask"@
    &&& forall|i: int|
        0 <= i < place ==> subject != (#[trigger] providers[i]).provider && subject != "urn:llm:"@
            + providers[i].provider + ":ask"@
}

/// Whether a predicate is written for a trait: bare, with the prefix `ik:`, or in full.
pub open spec fn is_written_for(predicate: Seq<char>, name: Seq<char>) -> bool {
    predicate == name || predicate == "ik:"@ + name || predicate == "https://ikigai-rs.dev/ns#"@
        + name
}

/// Whether `after` is a profile once a fact about a trait is taken in: texts are taken as they
/// are, numbers and flags where the object is one, a load shape only from one on, and a
/// modality joins the others unless it is there; and nothing else changes.
pub open spec fn takes_in(
    after: CapsView,
    before: CapsView,
    name: Seq<char>,
    object: Seq<char>,
    n: u64,
) -> bool {
    &&& name == "vendor"@ ==> after == (CapsView { vendor: Some(object), ..before })
    &&& name == "cost"@ ==> after == (CapsView { cost: Some(object), ..before })
    &&& name == "params"@ ==> after == (CapsView { params: Some(object), ..before })
    &&& name == "context"@ && object == decimal(n as nat) ==> after == (CapsView {
        context: Some(n),
        ..before
    })
    &&& name == "context"@ && natural_in(object) is None ==> after == before
    &&& name == "batchAt"@ && object == decimal(n as nat) ==> after == (if n >= 1 {
        CapsView { batch_at: Some(n), ..before }
    } else {
        before
    })
    &&& name == "batchAt"@ && natural_in(object) is None ==> after == before
    &&& name == "tools"@ ==> after == (if object == "true"@ {
        CapsView { tools: Some(true), ..before }
    } else if object == "false"@ {
        CapsView { tools: Some(false), ..before }
    } else {
        before
    })
    &&& name == "json"@ || name == "jsonMode"@ ==> after == (if object == "true"@ {
        CapsView { json: Some(true), ..before }
    } else if object == "false"@ {
        CapsView { json: Some(false), ..before }
    } else {
        before
    })
    &&& name == "modality"@ ==> after == (if before.modalities.contains(object) {
        before
    } else {
        CapsView { modalities: before.modalities + seq![object], ..before }
    })
}

/// What a profile states of a trait other than modalities, as it is written.
pub open spec fn stated_as(caps: CapsView, name: Seq<char>) -> Option<Seq<char>> {
    let flag = |flag: Option<bool>|
        match flag {
            Some(true) => Some("true"@),
            Some(false) => Some("false"@),
            None => None,
        };
    if name == "vendor"@ {
        caps.vendor
    } else if name == "cost"@ {
        caps.cost
    } else if name == "params"@ {
        caps.params
    } else if name == "context"@ && caps.context is Some {
        Some(decimal(caps.context->0 as nat))
    } else if name == "batchAt"@ && caps.batch_at is Some {
        Some(decimal(caps.batch_at->0 as nat))
    } else if name == "tools"@ {
        flag(caps.tools)
    } else if name == "json"@ || name == "jsonMode"@ {
        flag(caps.json)
    } else {
        None
    }
}

/// A fact sets the trait it names of the provider it speaks of, and nothing else of it or of
/// any other; and it is reported if and only if it changes what was stated, with the
/// provider, the trait, what was stated and what is asserted.
pub proof fn a_fact_sets_what_it_says(
    registry: RegistryView,
    fact: FactView,
    place: int,
    name: Seq<char>,
    n: u64,
)
    requires
        speaks_of(registry.providers, fact.0, place),
        known_trait(name),
        is_written_for(fact.1, name),
    ensures
        ({
            let after = annotated(registry, seq![fact]);
            let found = conflicts(registry, seq![fact]);
            let config = registry.providers[place];
            let caps = after.providers[place].caps;
            let was = stated_as(config.caps, name);
            &&& after.default == registry.default
            &&& after.providers == registry.providers.update(
                place,
                OpenAiConfigView { caps, ..config },
            )
            &&& takes_in(caps, config.caps, name, fact.2, n)
            &&& if was is Some && stated_as(caps, name) != was {
                &&& found.len() == 1
                &&& found[0].provider == config.provider
                &&& found[0].trait_name == if name == "jsonMode"@ {
                    "json"@
                } else {
                    name
                }
                &&& found[0].declared == was->0
                &&& found[0].annotated == fact.2
            } else {
                found.len() == 0
            }
        }),
{
    let facts = seq![fact];
    assert(facts.drop_last() =~= Seq::<FactView>::empty());
    assert(annotated(registry, facts.drop_last()) == registry);
    assert(conflicts(registry, facts.drop_last()) =~= Seq::<ConflictView>::empty());
    a_subject_is_the_first_it_names(registry.providers, fact.0);
    match subject_place(registry.providers, fact.0) {
        Some(found) => {
            if found < place {
                assert(!names_provider(fact.0, registry.providers[found].provider));
            } else if place < found {
                assert(!names_provider(fact.0, registry.providers[place].provider));
            }
        },
        None => {
            assert(!names_provider(fact.0, registry.providers[place].provider));
        },
    }
    assert(subject_place(registry.providers, fact.0) == Some(place));
    a_form_names_its_trait(fact.1, name);
    trait_names_differ();
    a_written_number_reads_back(n);
    let before = registry.providers[place].caps;
    assert(before.modalities.push(fact.2) =~= before.modalities + seq![fact.2]);
    reveal_strlit("true");
    reveal_strlit("false");
    assert("true"@.len() == 4 && "false"@.len() == 5);
    if let Some(was) = before.context {
        a_written_number_reads_back(was);
    }
    if let Some(was) = before.batch_at {
        a_written_number_reads_back(was);
    }
    if let Some(now) = natural_in(fact.2) {
        a_written_number_reads_back(now);
    }
}

/// A fact that speaks of no provider, or names no trait, changes and reports nothing; and
/// facts are taken in one after the other.
pub proof fn facts_are_taken_in_one_by_one(
    registry: RegistryView,
    facts: Seq<FactView>,
    fact: FactView,
)
    ensures
        annotated(registry, Seq::empty()) == registry,
        conflicts(registry, Seq::empty()) == Seq::<ConflictView>::empty(),
        annotated(registry, facts.push(fact)) == annotated(annotated(registry, facts), seq![fact]),
        conflicts(registry, facts.push(fact)) == conflicts(registry, facts) + conflicts(
            annotated(registry, facts),
            seq![fact],
        ),
        (forall|place: int| !#[trigger] speaks_of(registry.providers, fact.0, place)) || !(exists|
            name: Seq<char>,
        | #[trigger] known_trait(name) && is_written_for(fact.1, name)) ==> annotated(
            registry,
            seq![fact],
        ) == registry && conflicts(registry, seq![fact]).len() == 0,
{
    annotating_in_parts(registry, facts, seq![fact]);
    assert(facts.push(fact) =~= facts + seq![fact]);
    let row = seq![fact];
    assert(row.drop_last() =~= Seq::<FactView>::empty());
    assert(annotated(registry, row.drop_last()) == registry);
    assert(conflicts(registry, row.drop_last()) =~= Seq::<ConflictView>::empty());
    if forall|place: int| !#[trigger] speaks_of(registry.providers, fact.0, place) {
        a_subject_is_the_first_it_names(registry.providers, fact.0);
        if let Some(place) = subject_place(registry.providers, fact.0) {
            assert forall|i: int| 0 <= i < place implies fact.0 != (
            #[trigger] registry.providers[i]).provider && fact.0 != "urn:llm:"@
                + registry.providers[i].provider + ":ask"@ by {
                assert(!names_provider(fact.0, registry.providers[i].provider));
            }
            assert(speaks_of(registry.providers, fact.0, place));
        }
    } else if !(exists|name: Seq<char>| #[trigger]
        known_trait(name) && is_written_for(fact.1, name)) {
        let name = trait_of(fact.1);
        if known_trait(name) {
            match after_head(fact.1, NAMESPACE@) {
                Some(rest) => {
                    assert(fact.1 =~= NAMESPACE@ + rest);
                },
                None => {
                    if let Some(rest) = after_head(fact.1, "ik:"@) {
                        assert(fact.1 =~= "ik:"@ + rest);
                    }
                },
            }
            assert(is_written_for(fact.1, name));
        }
        an_unknown_trait_is_ignored(registry, fact);
    }
}

/// Applying facts comes to what they say, one after the other: one more fact changes what the
/// others came to as it does alone, and adds what it reports to what they report.
pub proof fn applying_facts_goes_fact_by_fact(
    registry: &mut Registry,
    facts: &[(&str, &str, &str)],
    found: Vec<AnnotationConflict>,
    rest: Seq<FactView>,
    fact: FactView,
    place: int,
    name: Seq<char>,
    n: u64,
)
    requires
        call_ensures(Registry::apply_annotations, (registry, facts), found),
        facts_view(facts@) == rest.push(fact),
        speaks_of(old(registry)@.providers, fact.0, place),
        known_trait(name),
        is_written_for(fact.1, name),
    ensures
        ({
            let before = annotated(old(registry)@, rest);
            let after = final(registry)@;
            let alone = conflicts(before, seq![fact]);
            &&& found.deep_view() == conflicts(old(registry)@, rest) + alone
            &&& after.default == old(registry)@.default
            &&& after.providers.len() == old(registry)@.providers.len()
            &&& takes_in(
                after.providers[place].caps,
                before.providers[place].caps,
                name,
                fact.2,
                n,
            )
            &&& forall|i: int|
                0 <= i < after.providers.len() ==> {
                    &&& (#[trigger] after.providers[i]) == (OpenAiConfigView {
                        caps: after.providers[i].caps,
                        ..old(registry)@.providers[i]
                    })
                    &&& i != place ==> after.providers[i] == before.providers[i]
                }
        }),
{
    let start = old(registry)@;
    let before = annotated(start, rest);
    facts_are_taken_in_one_by_one(start, rest, fact);
    annotations_touch_only_profiles(start, rest);
    assert(speaks_of(before.providers, fact.0, place)) by {
        assert forall|i: int| 0 <= i < place implies fact.0 != (
        #[trigger] before.providers[i]).provider && fact.0 != "urn:llm:"@
            + before.providers[i].provider + ":ask"@ by {
            assert(fact.0 != start.providers[i].provider);
        }
    }
    a_fact_sets_what_it_says(before, fact, place, name, n);
}

} // verus!
