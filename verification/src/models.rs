//! What a server says about its models: listings, sizes and capabilities.

use crate::annotate::{add_modality, with_modality};
use crate::config::{copy_texts, no_caps, ungoverned, Caps, CapsView};
use crate::json::{
    json_all, json_array, json_field, json_members, json_of, json_str, json_u64, text_before,
    JsonView,
};
use crate::text::{ends_in, has_tail, is_among, same_text};
use vstd::prelude::*;
use vstd::string::*;

verus! {

/// One installed model.
#[derive(Debug, PartialEq, Eq)]
pub struct InstalledModel {
    /// The model's id, such as `llama3.2:3b`.
    pub model: String,
    /// Its size in bytes, where the provider reports one.
    pub size: Option<u64>,
    /// What the model can do (`completion`, `embedding`, `tools`), in Ollama's
    /// vocabulary, where the provider reports it. Empty means unknown, and unknown
    /// passes every check.
    pub capabilities: Vec<String>,
    /// What an OpenAI-compatible listing advertises about the model, in the listing's own
    /// vocabulary. Never a cost, a vendor or a load shape.
    pub advertised: Option<Caps>,
}

/// [`InstalledModel`] over sequences.
#[verifier::ext_equal]
pub struct InstalledModelView {
    pub model: Seq<char>,
    pub size: Option<u64>,
    pub capabilities: Seq<Seq<char>>,
    pub advertised: Option<CapsView>,
}

impl View for InstalledModel {
    type V = InstalledModelView;

    open spec fn view(&self) -> InstalledModelView {
        InstalledModelView {
            model: self.model@,
            size: self.size,
            capabilities: self.capabilities.deep_view(),
            advertised: self.advertised.deep_view(),
        }
    }
}

impl DeepView for InstalledModel {
    type V = InstalledModelView;

    open spec fn deep_view(&self) -> InstalledModelView {
        self@
    }
}

impl Clone for InstalledModel {
    fn clone(&self) -> (copy: InstalledModel)
        ensures
            copy@ == self@,
    {
        InstalledModel {
            model: self.model.clone(),
            size: self.size,
            capabilities: copy_texts(&self.capabilities),
            advertised: match &self.advertised {
                Some(caps) => Some(caps.clone()),
                None => None,
            },
        }
    }
}

// ---- what a listing entry advertises -----------------------------------------------

/// Whether a list holds this text.
pub open spec fn lists(items: Seq<JsonView>, name: Seq<char>) -> bool {
    items.contains(JsonView::Text(name))
}

fn list_holds(items: &Vec<serde_json::Value>, name: &str) -> (found: bool)
    ensures
        found == lists(json_all(items@), name@),
{
    let mut i: usize = 0;
    while i < items.len()
        invariant
            i <= items.len(),
            forall|k: int| 0 <= k < i ==> json_all(items@)[k] != JsonView::Text(name@),
        decreases items.len() - i,
    {
        assert(json_all(items@)[i as int] == json_of(items@[i as int]));
        if let Some(text) = json_str(&items[i]) {
            if same_text(text, name) {
                return true;
            }
        }
        i = i + 1;
    }
    false
}

/// The modalities with one more, where the list names it and it is not there yet.
pub open spec fn with_listed(
    modalities: Seq<Seq<char>>,
    items: Seq<JsonView>,
    name: Seq<char>,
) -> Seq<Seq<char>> {
    if lists(items, name) {
        with_modality(modalities, name)
    } else {
        modalities
    }
}

/// The modalities an entry names: its `modality`, then those of its `capabilities`.
pub open spec fn listed_modalities(entry: JsonView) -> Seq<Seq<char>> {
    let named = match entry.field("modality"@).text() {
        Some(modality) => seq![modality],
        None => Seq::empty(),
    };
    match entry.field("capabilities"@).list() {
        Some(items) => with_listed(
            with_listed(with_listed(named, items, "text"@), items, "vision"@),
            items,
            "audio"@,
        ),
        None => named,
    }
}

/// The profile a listing entry advertises; `None` where it says nothing beyond its id.
pub open spec fn listed_caps(entry: JsonView) -> Option<CapsView> {
    if entry.field("context_window"@).natural() is None && entry.field("modality"@).text() is None
        && entry.field("capabilities"@).list() is None {
        None
    } else {
        Some(
            CapsView {
                context: entry.field("context_window"@).natural(),
                modalities: listed_modalities(entry),
                tools: match entry.field("capabilities"@).list() {
                    Some(items) => Some(lists(items, "tools"@)),
                    None => None,
                },
                ..no_caps()
            },
        )
    }
}

fn add_listed(modalities: &mut Vec<String>, items: &Vec<serde_json::Value>, name: &str)
    ensures
        final(modalities).deep_view() == with_listed(
            old(modalities).deep_view(),
            json_all(items@),
            name@,
        ),
{
    if list_holds(items, name) {
        add_modality(modalities, name);
    }
}

/// The capability facts that an OpenAI-compatible listing entry advertises about its
/// model. A cost, a vendor or a load shape is not among them, whatever the entry says: a
/// server is no witness about itself on what a policy excludes by.
pub fn listing_caps(entry: &serde_json::Value) -> (caps: Option<Caps>)
    ensures
        caps.deep_view() == listed_caps(json_of(*entry)),
{
    let mut caps = Caps::default();
    let mut found = false;
    if let Some(context) = json_u64(json_field(entry, "context_window")) {
        caps.context = Some(context);
        found = true;
    }
    if let Some(modality) = json_str(json_field(entry, "modality")) {
        caps.modalities.push(modality.to_owned());
        found = true;
    }
    assert(caps.modalities.deep_view() =~= (match json_of(*entry).field("modality"@).text() {
        Some(modality) => seq![modality],
        None => Seq::empty(),
    }));
    if let Some(items) = json_array(json_field(entry, "capabilities")) {
        caps.tools = Some(list_holds(items, "tools"));
        add_listed(&mut caps.modalities, items, "text");
        add_listed(&mut caps.modalities, items, "vision");
        add_listed(&mut caps.modalities, items, "audio");
        found = true;
    }
    if found {
        Some(caps)
    } else {
        None
    }
}

// ---- listings ----------------------------------------------------------------------

/// The models that the entries of an OpenAI-compatible listing name, in order.
pub open spec fn listed_models(items: Seq<JsonView>) -> Seq<InstalledModelView>
    decreases items.len(),
{
    if items.len() == 0 {
        Seq::empty()
    } else {
        let before = listed_models(items.drop_last());
        match items.last().field("id"@).text() {
            Some(id) => before.push(
                InstalledModelView {
                    model: id,
                    size: None,
                    capabilities: Seq::empty(),
                    advertised: listed_caps(items.last()),
                },
            ),
            None => before,
        }
    }
}

/// The models that the entries of an Ollama tags listing name, in order.
pub open spec fn tagged_models(items: Seq<JsonView>) -> Seq<InstalledModelView>
    decreases items.len(),
{
    if items.len() == 0 {
        Seq::empty()
    } else {
        let before = tagged_models(items.drop_last());
        match items.last().field("name"@).text() {
            Some(name) => before.push(
                InstalledModelView {
                    model: name,
                    size: items.last().field("size"@).natural(),
                    capabilities: Seq::empty(),
                    advertised: None,
                },
            ),
            None => before,
        }
    }
}

/// The items of a list, none for anything else.
pub open spec fn items_of(content: JsonView) -> Seq<JsonView> {
    match content.list() {
        Some(items) => items,
        None => Seq::empty(),
    }
}

/// The models of an OpenAI-compatible listing, in the server's order.
pub fn read_listing(listing: &serde_json::Value) -> (models: Vec<InstalledModel>)
    ensures
        models.deep_view() == listed_models(items_of(json_of(*listing).field("data"@))),
{
    let mut models: Vec<InstalledModel> = Vec::new();
    assert(models.deep_view() =~= Seq::<InstalledModelView>::empty());
    if let Some(items) = json_array(json_field(listing, "data")) {
        let ghost all = json_all(items@);
        let mut i: usize = 0;
        while i < items.len()
            invariant
                i <= items.len(),
                all == json_all(items@),
                models.deep_view() == listed_models(all.take(i as int)),
            decreases items.len() - i,
        {
            let entry = &items[i];
            let ghost before = models.deep_view();
            assert(all.take(i + 1).drop_last() =~= all.take(i as int));
            assert(all.take(i + 1).last() == json_of(*entry));
            if let Some(id) = json_str(json_field(entry, "id")) {
                let model = InstalledModel {
                    model: id.to_owned(),
                    size: None,
                    capabilities: Vec::new(),
                    advertised: listing_caps(entry),
                };
                models.push(model);
                assert(model@.capabilities =~= Seq::<Seq<char>>::empty());
                assert(models.deep_view() =~= before.push(model@));
            }
            i = i + 1;
        }
        assert(all.take(i as int) =~= all);
    }
    models
}

/// The models of an Ollama tags listing, in the server's order.
pub fn read_tags(listing: &serde_json::Value) -> (models: Vec<InstalledModel>)
    ensures
        models.deep_view() == tagged_models(items_of(json_of(*listing).field("models"@))),
{
    let mut models: Vec<InstalledModel> = Vec::new();
    assert(models.deep_view() =~= Seq::<InstalledModelView>::empty());
    if let Some(items) = json_array(json_field(listing, "models")) {
        let ghost all = json_all(items@);
        let mut i: usize = 0;
        while i < items.len()
            invariant
                i <= items.len(),
                all == json_all(items@),
                models.deep_view() == tagged_models(all.take(i as int)),
            decreases items.len() - i,
        {
            let entry = &items[i];
            let ghost before = models.deep_view();
            assert(all.take(i + 1).drop_last() =~= all.take(i as int));
            assert(all.take(i + 1).last() == json_of(*entry));
            if let Some(name) = json_str(json_field(entry, "name")) {
                let model = InstalledModel {
                    model: name.to_owned(),
                    size: json_u64(json_field(entry, "size")),
                    capabilities: Vec::new(),
                    advertised: None,
                };
                models.push(model);
                assert(model@.capabilities =~= Seq::<Seq<char>>::empty());
                assert(models.deep_view() =~= before.push(model@));
            }
            i = i + 1;
        }
        assert(all.take(i as int) =~= all);
    }
    models
}

// ---- smallest first ----------------------------------------------------------------

/// The size that the order compares: an unknown one comes last.
pub open spec fn size_key(model: InstalledModelView) -> u64 {
    match model.size {
        Some(size) => size,
        None => u64::MAX,
    }
}

/// The models with one more, behind all that are no larger.
pub open spec fn placed_by_size(
    models: Seq<InstalledModelView>,
    model: InstalledModelView,
) -> Seq<InstalledModelView>
    decreases models.len(),
{
    if models.len() == 0 || size_key(models.last()) <= size_key(model) {
        models.push(model)
    } else {
        placed_by_size(models.drop_last(), model).push(models.last())
    }
}

/// The models, smallest first; those of one size as they stood.
pub open spec fn by_size(models: Seq<InstalledModelView>) -> Seq<InstalledModelView>
    decreases models.len(),
{
    if models.len() == 0 {
        Seq::empty()
    } else {
        placed_by_size(by_size(models.drop_last()), models.last())
    }
}

fn size_or_max(model: &InstalledModel) -> (size: u64)
    ensures
        size == size_key(model@),
{
    match model.size {
        Some(size) => size,
        None => u64::MAX,
    }
}

/// Where the placed model ends up.
proof fn placed_at(models: Seq<InstalledModelView>, model: InstalledModelView, place: int)
    requires
        0 <= place <= models.len(),
        place > 0 ==> size_key(models[place - 1]) <= size_key(model),
        forall|i: int|
            place <= i < models.len() ==> size_key(#[trigger] models[i]) > size_key(model),
    ensures
        placed_by_size(models, model) == models.insert(place, model),
    decreases models.len(),
{
    if place == models.len() {
        assert(models.insert(place, model) =~= models.push(model));
    } else {
        assert(models.last() == models[models.len() - 1]);
        placed_at(models.drop_last(), model, place);
        assert(models.insert(place, model) =~= models.drop_last().insert(place, model).push(
            models.last(),
        ));
    }
}

/// The models, smallest first; those of one size as they stood.
pub fn smallest_first(models: &Vec<InstalledModel>) -> (sorted: Vec<InstalledModel>)
    ensures
        sorted.deep_view() == by_size(models.deep_view()),
{
    let ghost all = models.deep_view();
    let mut sorted: Vec<InstalledModel> = Vec::new();
    let mut i: usize = 0;
    assert(sorted.deep_view() =~= Seq::<InstalledModelView>::empty());
    while i < models.len()
        invariant
            i <= models.len(),
            all == models.deep_view(),
            sorted.deep_view() == by_size(all.take(i as int)),
        decreases models.len() - i,
    {
        let model = &models[i];
        let size: u64 = size_or_max(model);
        let ghost before = sorted.deep_view();
        let mut place: usize = sorted.len();
        while place > 0 && size_or_max(&sorted[place - 1]) > size
            invariant
                place <= sorted.len(),
                sorted.deep_view() == before,
                size == size_key(model@),
                forall|k: int|
                    place <= k < before.len() ==> size_key(#[trigger] before[k]) > size_key(model@),
            decreases place,
        {
            assert(before[place - 1] == sorted@[place - 1]@);
            place = place - 1;
        }
        assert(place > 0 ==> before[place - 1] == sorted@[place - 1]@);
        proof {
            placed_at(before, model@, place as int);
        }
        sorted.insert(place, model.clone());
        assert(sorted.deep_view() =~= before.insert(place as int, model@));
        assert(all.take(i + 1).drop_last() =~= all.take(i as int));
        assert(all.take(i + 1).last() == model@);
        i = i + 1;
    }
    assert(all.take(i as int) =~= all);
    sorted
}

/// Smallest first: no model stands behind a larger one.
pub proof fn sizes_ascend(models: Seq<InstalledModelView>)
    ensures
        forall|i: int, j: int|
            #![trigger by_size(models)[i], by_size(models)[j]]
            0 <= i < j < by_size(models).len() ==> size_key(by_size(models)[i]) <= size_key(
                by_size(models)[j],
            ),
    decreases models.len(),
{
    if models.len() > 0 {
        sizes_ascend(models.drop_last());
        placing_keeps_order(by_size(models.drop_last()), models.last());
    }
}

spec fn ascending(models: Seq<InstalledModelView>) -> bool {
    forall|i: int, j: int|
        #![trigger models[i], models[j]]
        0 <= i < j < models.len() ==> size_key(models[i]) <= size_key(models[j])
}

proof fn placing_keeps_order(models: Seq<InstalledModelView>, model: InstalledModelView)
    requires
        ascending(models),
    ensures
        ascending(placed_by_size(models, model)),
        forall|i: int|
            0 <= i < placed_by_size(models, model).len() ==> {
                ||| #[trigger] placed_by_size(models, model)[i] == model
                ||| models.contains(placed_by_size(models, model)[i])
            },
    decreases models.len(),
{
    let placed = placed_by_size(models, model);
    if models.len() == 0 || size_key(models.last()) <= size_key(model) {
        assert forall|i: int| 0 <= i < placed.len() implies #[trigger] placed[i] == model
            || models.contains(placed[i]) by {
            if i < models.len() {
                assert(placed[i] == models[i]);
            }
        }
    } else {
        let head = models.drop_last();
        let rest = placed_by_size(head, model);
        placing_keeps_order(head, model);
        assert forall|i: int| 0 <= i < rest.len() implies size_key(#[trigger] rest[i]) <= size_key(
            models.last(),
        ) by {
            if rest[i] != model {
                let k = choose|k: int| 0 <= k < head.len() && head[k] == rest[i];
                assert(models[k] == rest[i]);
                assert(models.last() == models[models.len() - 1]);
            }
        }
        assert forall|i: int| 0 <= i < placed.len() implies #[trigger] placed[i] == model
            || models.contains(placed[i]) by {
            if i < rest.len() {
                assert(placed[i] == rest[i]);
                if rest[i] != model {
                    let k = choose|k: int| 0 <= k < head.len() && head[k] == rest[i];
                    assert(models[k] == rest[i]);
                }
            } else {
                assert(placed[i] == models[models.len() - 1]);
            }
        }
    }
}

/// The models of one size.
pub open spec fn of_size(models: Seq<InstalledModelView>, size: u64) -> Seq<InstalledModelView> {
    models.filter(|model: InstalledModelView| size_key(model) == size)
}

/// Sorting loses, adds and reorders no models of one size: those of each size are the
/// same, in the same order.
pub proof fn sorting_is_stable(models: Seq<InstalledModelView>, size: u64)
    ensures
        of_size(by_size(models), size) == of_size(models, size),
        by_size(models).len() == models.len(),
    decreases models.len(),
{
    reveal(Seq::filter);
    if models.len() > 0 {
        sorting_is_stable(models.drop_last(), size);
        sizes_ascend(models.drop_last());
        placing_adds_one(by_size(models.drop_last()), models.last(), size);
    }
}

proof fn placing_adds_one(models: Seq<InstalledModelView>, model: InstalledModelView, size: u64)
    requires
        ascending(models),
    ensures
        of_size(placed_by_size(models, model), size) == (if size_key(model) == size {
            of_size(models, size).push(model)
        } else {
            of_size(models, size)
        }),
        placed_by_size(models, model).len() == models.len() + 1,
    decreases models.len(),
{
    reveal(Seq::filter);
    let placed = placed_by_size(models, model);
    if models.len() == 0 || size_key(models.last()) <= size_key(model) {
        assert(placed.drop_last() =~= models);
    } else {
        let head = models.drop_last();
        placing_adds_one(head, model, size);
        assert(placed.drop_last() =~= placed_by_size(head, model));
        assert(placed.last() == models.last());
    }
}

// ---- capabilities ------------------------------------------------------------------

/// Whether a model can serve `what`. Unknown capabilities pass: no facts, no policy.
pub open spec fn supports(model: InstalledModelView, what: Seq<char>) -> bool {
    model.capabilities.len() == 0 || model.capabilities.contains(what)
}

/// Whether a model can serve `what` (`completion`, `embedding`). Unknown capabilities
/// pass: no facts, no policy.
pub fn model_supports(model: &InstalledModel, what: &str) -> (yes: bool)
    ensures
        yes == supports(model@, what@),
{
    model.capabilities.len() == 0 || is_among(&model.capabilities, what)
}

/// The place of the first model that can serve `what`.
pub open spec fn first_supporting(models: Seq<InstalledModelView>, what: Seq<char>) -> Option<int>
    decreases models.len(),
{
    if models.len() == 0 {
        None
    } else {
        match first_supporting(models.drop_last(), what) {
            Some(place) => Some(place),
            None => if supports(models.last(), what) {
                Some(models.len() - 1)
            } else {
                None
            },
        }
    }
}

proof fn first_supporting_stays(models: Seq<InstalledModelView>, count: int, what: Seq<char>)
    requires
        0 <= count <= models.len(),
        first_supporting(models.take(count), what) is Some,
    ensures
        first_supporting(models, what) == first_supporting(models.take(count), what),
    decreases models.len(),
{
    if count == models.len() {
        assert(models.take(count) =~= models);
    } else {
        assert(models.drop_last().take(count) =~= models.take(count));
        first_supporting_stays(models.drop_last(), count, what);
    }
}

/// The place of the first model that can serve `what`.
pub fn find_supporting(models: &Vec<InstalledModel>, what: &str) -> (place: Option<usize>)
    ensures
        match place {
            Some(place) => place < models@.len() && first_supporting(models.deep_view(), what@)
                == Some(place as int),
            None => first_supporting(models.deep_view(), what@) is None,
        },
{
    let ghost all = models.deep_view();
    let mut i: usize = 0;
    while i < models.len()
        invariant
            i <= models.len(),
            all == models.deep_view(),
            first_supporting(all.take(i as int), what@) is None,
        decreases models.len() - i,
    {
        assert(all.take(i + 1).drop_last() =~= all.take(i as int));
        assert(all.take(i + 1).last() == models@[i as int]@);
        if model_supports(&models[i], what) {
            proof {
                first_supporting_stays(all, i + 1, what@);
            }
            return Some(i);
        }
        i = i + 1;
    }
    assert(all.take(i as int) =~= all);
    None
}

/// The first model that can serve `what` does, and none before it does; there is none
/// if and only if no model does.
pub proof fn the_first_supporting_is_the_first(models: Seq<InstalledModelView>, what: Seq<char>)
    ensures
        match first_supporting(models, what) {
            Some(place) => {
                &&& 0 <= place < models.len()
                &&& supports(models[place], what)
                &&& forall|i: int| 0 <= i < place ==> !supports(#[trigger] models[i], what)
            },
            None => forall|i: int|
                0 <= i < models.len() ==> !supports(#[trigger] models[i], what),
        },
    decreases models.len(),
{
    if models.len() > 0 {
        let head = models.drop_last();
        the_first_supporting_is_the_first(head, what);
        assert forall|i: int| 0 <= i < head.len() implies head[i] == #[trigger] models[i] by {}
        assert(models.last() == models[models.len() - 1]);
    }
}

/// The models that can serve `what`, in order.
pub open spec fn supporting(models: Seq<InstalledModelView>, what: Seq<char>) -> Seq<
    InstalledModelView,
> {
    models.filter(|model: InstalledModelView| supports(model, what))
}

/// The models that can serve `what`, in order.
pub fn keep_supporting(models: &Vec<InstalledModel>, what: &str) -> (kept: Vec<InstalledModel>)
    ensures
        kept.deep_view() == supporting(models.deep_view(), what@),
{
    let ghost all = models.deep_view();
    let mut kept: Vec<InstalledModel> = Vec::new();
    let mut i: usize = 0;
    proof {
        reveal(Seq::filter);
    }
    assert(kept.deep_view() =~= supporting(all.take(0), what@));
    while i < models.len()
        invariant
            i <= models.len(),
            all == models.deep_view(),
            kept.deep_view() == supporting(all.take(i as int), what@),
        decreases models.len() - i,
    {
        let ghost before = kept.deep_view();
        proof {
            reveal(Seq::filter);
        }
        assert(all.take(i + 1).drop_last() =~= all.take(i as int));
        assert(all.take(i + 1).last() == models@[i as int]@);
        if model_supports(&models[i], what) {
            let model = models[i].clone();
            kept.push(model);
            assert(kept.deep_view() =~= before.push(model@));
        }
        i = i + 1;
    }
    assert(all.take(i as int) =~= all);
    kept
}

/// A model of unknown capabilities serves whatever is asked.
pub proof fn unknown_capabilities_pass(model: InstalledModelView, what: Seq<char>)
    requires
        model.capabilities.len() == 0,
    ensures
        supports(model, what),
{
}

// ---- what Ollama shows of a model --------------------------------------------------

/// The texts among the items, in order.
pub open spec fn texts_in(items: Seq<JsonView>) -> Seq<Seq<char>>
    decreases items.len(),
{
    if items.len() == 0 {
        Seq::empty()
    } else {
        match items.last().text() {
            Some(text) => texts_in(items.drop_last()).push(text),
            None => texts_in(items.drop_last()),
        }
    }
}

/// The texts among the items, in order.
pub fn read_texts(items: &Vec<serde_json::Value>) -> (texts: Vec<String>)
    ensures
        texts.deep_view() == texts_in(json_all(items@)),
{
    let ghost all = json_all(items@);
    let mut texts: Vec<String> = Vec::new();
    let mut i: usize = 0;
    assert(texts.deep_view() =~= Seq::<Seq<char>>::empty());
    while i < items.len()
        invariant
            i <= items.len(),
            all == json_all(items@),
            texts.deep_view() == texts_in(all.take(i as int)),
        decreases items.len() - i,
    {
        let ghost before = texts.deep_view();
        assert(all.take(i + 1).drop_last() =~= all.take(i as int));
        assert(all.take(i + 1).last() == json_of(items@[i as int]));
        if let Some(text) = json_str(&items[i]) {
            texts.push(text.to_owned());
            assert(texts.deep_view() =~= before.push(text@));
        }
        i = i + 1;
    }
    assert(all.take(i as int) =~= all);
    texts
}

/// Whether `name` is the first of the members' names that end in `tail`.
pub open spec fn first_ending(
    members: Map<Seq<char>, JsonView>,
    tail: Seq<char>,
    name: Seq<char>,
) -> bool {
    &&& members.contains_key(name)
    &&& ends_in(name, tail)
    &&& forall|other: Seq<char>| #[trigger]
        members.contains_key(other) && ends_in(other, tail) && other != name ==> text_before(
            name,
            other,
        )
}

/// The member whose name is the first of those that end in `tail`.
pub open spec fn ending_member(members: Map<Seq<char>, JsonView>, tail: Seq<char>) -> Option<
    JsonView,
> {
    if exists|name: Seq<char>| first_ending(members, tail, name) {
        Some(members[choose|name: Seq<char>| first_ending(members, tail, name)])
    } else {
        None
    }
}

/// The context length that `model_info` states.
pub open spec fn shown_context(info: JsonView) -> Option<u64> {
    match info {
        JsonView::Object(members) => match ending_member(members, ".context_length"@) {
            Some(member) => member.natural(),
            None => None,
        },
        _ => None,
    }
}

/// The profile that Ollama shows of a model.
pub open spec fn shown_caps(content: JsonView) -> CapsView {
    CapsView {
        context: shown_context(content.field("model_info"@)),
        modalities: match content.field("capabilities"@).list() {
            Some(items) => if lists(items, "vision"@) {
                seq!["text"@, "vision"@]
            } else {
                seq!["text"@]
            },
            None => Seq::empty(),
        },
        tools: match content.field("capabilities"@).list() {
            Some(items) => Some(lists(items, "tools"@)),
            None => None,
        },
        params: content.field("details"@).field("parameter_size"@).text(),
        ..no_caps()
    }
}

/// Of two texts at most one comes before the other.
pub proof fn text_order_is_strict(a: Seq<char>, b: Seq<char>)
    ensures
        text_before(a, b) ==> !text_before(b, a) && a != b,
    decreases a.len(),
{
    if a.len() > 0 && b.len() > 0 && a[0] == b[0] {
        text_order_is_strict(a.drop_first(), b.drop_first());
    }
}

fn read_context(info: &serde_json::Value) -> (context: Option<u64>)
    ensures
        context == shown_context(json_of(*info)),
{
    let tail = ".context_length";
    match json_members(info) {
        None => None,
        Some(members) => {
            let ghost content = json_of(*info)->Object_0;
            let mut i: usize = 0;
            while i < members.len()
                invariant
                    i <= members.len(),
                    tail@ == ".context_length"@,
                    json_of(*info) == JsonView::Object(content),
                    forall|k: int|
                        #![trigger members@[k]]
                        0 <= k < members@.len() ==> content.contains_key(members@[k].0@)
                            && content[members@[k].0@] == json_of(*members@[k].1),
                    forall|name: Seq<char>| #[trigger]
                        content.contains_key(name) ==> exists|k: int|
                            0 <= k < members@.len() && #[trigger] members@[k].0@ == name,
                    forall|k: int, j: int|
                        #![trigger members@[k], members@[j]]
                        0 <= k < j < members@.len() ==> text_before(
                            members@[k].0@,
                            members@[j].0@,
                        ),
                    forall|k: int| 0 <= k < i ==> !ends_in((#[trigger] members@[k]).0@, tail@),
                decreases members.len() - i,
            {
                let (name, member) = members[i];
                if has_tail(name, tail) {
                    proof {
                        assert(members@[i as int].0@ == name@);
                        assert forall|other: Seq<char>| #[trigger]
                            content.contains_key(other) && ends_in(other, tail@) && other
                                != name@ implies text_before(name@, other) by {
                            let k = choose|k: int|
                                0 <= k < members@.len() && #[trigger] members@[k].0@ == other;
                            assert(i < k);
                        }
                        assert(first_ending(content, tail@, name@));
                        let first = choose|first: Seq<char>| first_ending(content, tail@, first);
                        assert(first_ending(content, tail@, first));
                        text_order_is_strict(first, name@);
                        assert(first == name@);
                    }
                    return json_u64(member);
                }
                i = i + 1;
            }
            proof {
                if exists|name: Seq<char>| first_ending(content, tail@, name) {
                    let name = choose|name: Seq<char>| first_ending(content, tail@, name);
                    let k = choose|k: int|
                        0 <= k < members@.len() && #[trigger] members@[k].0@ == name;
                    assert(!ends_in(members@[k].0@, tail@));
                }
            }
            None
        },
    }
}

/// The profile that Ollama shows of a model: context length, modalities, tool support
/// and parameter size.
pub fn read_shown(shown: &serde_json::Value) -> (caps: Caps)
    ensures
        caps@ == shown_caps(json_of(*shown)),
{
    let mut caps = Caps::default();
    caps.context = read_context(json_field(shown, "model_info"));
    if let Some(items) = json_array(json_field(shown, "capabilities")) {
        let mut modalities: Vec<String> = Vec::new();
        modalities.push("text".to_owned());
        if list_holds(items, "vision") {
            modalities.push("vision".to_owned());
        }
        caps.modalities = modalities;
        caps.tools = Some(list_holds(items, "tools"));
    }
    if let Some(size) = json_str(json_field(json_field(shown, "details"), "parameter_size")) {
        caps.params = Some(size.to_owned());
    }
    assert(caps@.modalities =~= shown_caps(json_of(*shown)).modalities);
    caps
}

/// What a server says of its models, in a listing or of one model, never states a cost,
/// a vendor or a load shape.
pub proof fn servers_state_no_governance(entry: JsonView)
    ensures
        listed_caps(entry) matches Some(caps) ==> ungoverned(caps),
        ungoverned(shown_caps(entry)),
{
}

/// What a value holds under a name; `Null` where it is no object or holds nothing there.
pub open spec fn held(value: JsonView, name: Seq<char>) -> JsonView {
    match value {
        JsonView::Object(members) if members.contains_key(name) => members[name],
        _ => JsonView::Null,
    }
}

/// The items of a value, none where it is no list.
pub open spec fn entries(value: JsonView) -> Seq<JsonView> {
    match value {
        JsonView::List(items) => items,
        _ => Seq::empty(),
    }
}

/// The modalities that a list of capabilities can name, in the order they are reported in.
pub open spec fn known_modalities() -> Seq<Seq<char>> {
    seq!["text"@, "vision"@, "audio"@]
}

/// The known modalities that a list names and that are not among `named`.
pub open spec fn further_modalities(named: Seq<Seq<char>>, items: Seq<JsonView>) -> Seq<
    Seq<char>,
> {
    known_modalities().filter(
        |name: Seq<char>| items.contains(JsonView::Text(name)) && !named.contains(name),
    )
}

proof fn pushing_adds_one(names: Seq<Seq<char>>, name: Seq<char>, other: Seq<char>)
    ensures
        names.push(name).contains(other) <==> names.contains(other) || name == other,
{
    if names.contains(other) {
        let i = choose|i: int| 0 <= i < names.len() && names[i] == other;
        assert(names.push(name)[i] == other);
    }
    assert(names.push(name)[names.len() as int] == name);
}

proof fn modalities_follow_the_list(named: Seq<Seq<char>>, items: Seq<JsonView>)
    ensures
        with_listed(
            with_listed(with_listed(named, items, "text"@), items, "vision"@),
            items,
            "audio"@,
        ) == named + further_modalities(named, items),
{
    reveal(Seq::filter);
    reveal_strlit("text");
    reveal_strlit("vision");
    reveal_strlit("audio");
    assert("text"@.len() == 4 && "vision"@.len() == 6 && "audio"@.len() == 5);
    let keep = |name: Seq<char>| items.contains(JsonView::Text(name)) && !named.contains(name);
    let all = known_modalities();
    let two = all.drop_last();
    let one = two.drop_last();
    assert(one.drop_last() =~= Seq::<Seq<char>>::empty());
    assert(one.last() == "text"@ && two.last() == "vision"@ && all.last() == "audio"@);
    assert(one.drop_last().filter(keep) =~= Seq::<Seq<char>>::empty());
    pushing_adds_one(named, "text"@, "vision"@);
    pushing_adds_one(named, "text"@, "audio"@);
    let first = with_listed(named, items, "text"@);
    assert(first =~= named + one.filter(keep));
    pushing_adds_one(first, "vision"@, "audio"@);
    let second = with_listed(first, items, "vision"@);
    assert(second =~= named + two.filter(keep));
    let third = with_listed(second, items, "audio"@);
    assert(third =~= named + all.filter(keep));
}

proof fn further_modalities_are_listed(named: Seq<Seq<char>>, items: Seq<JsonView>)
    ensures
        forall|name: Seq<char>| #[trigger]
            further_modalities(named, items).contains(name) <==> known_modalities().contains(name)
                && items.contains(JsonView::Text(name)) && !named.contains(name),
{
    let keep = |name: Seq<char>| items.contains(JsonView::Text(name)) && !named.contains(name);
    let all = known_modalities();
    assert forall|name: Seq<char>| #[trigger] all.filter(keep).contains(name) implies all.contains(
        name,
    ) && keep(name) by {
        let i = choose|i: int| 0 <= i < all.filter(keep).len() && all.filter(keep)[i] == name;
        all.lemma_filter_pred(keep, i);
        all.lemma_filter_contains_rev(keep, name);
    }
    assert forall|name: Seq<char>| all.contains(name) && keep(name) implies #[trigger] all.filter(
        keep,
    ).contains(name) by {
        let i = choose|i: int| 0 <= i < all.len() && all[i] == name;
        all.lemma_filter_contains(keep, i);
    }
}

/// What a listing entry advertises about its model: the window it states, tools where its
/// capabilities name them, the modality it names first, and behind it each of `text`,
/// `vision` and `audio` that its capabilities name; nothing else, and nothing at all where
/// it states none of these.
pub proof fn a_listing_entry_advertises_what_it_states(
    entry: &serde_json::Value,
    caps: Option<Caps>,
)
    requires
        call_ensures(listing_caps, (entry,), caps),
    ensures
        ({
            let window = held(json_of(*entry), "context_window"@);
            let modality = held(json_of(*entry), "modality"@);
            let abilities = held(json_of(*entry), "capabilities"@);
            let named = match modality {
                JsonView::Text(name) => seq![name],
                _ => Seq::empty(),
            };
            let items = entries(abilities);
            &&& caps is None <==> !(window is Natural || modality is Text || abilities is List)
            &&& caps matches Some(caps) ==> {
                &&& caps@.context == (match window {
                    JsonView::Natural(n) => Some(n),
                    _ => None,
                })
                &&& caps@.modalities == named + further_modalities(named, items)
                &&& forall|name: Seq<char>| #[trigger]
                    caps@.modalities.contains(name) <==> named.contains(name) || (items.contains(
                        JsonView::Text(name),
                    ) && (name == "text"@ || name == "vision"@ || name == "audio"@))
                &&& caps@.tools == (if abilities is List {
                    Some(items.contains(JsonView::Text("tools"@)))
                } else {
                    None
                })
                &&& caps@.json is None
                &&& caps@.cost is None
                &&& caps@.vendor is None
                &&& caps@.batch_at is None
                &&& caps@.params is None
            }
        }),
{
    let named = match held(json_of(*entry), "modality"@) {
        JsonView::Text(name) => seq![name],
        _ => Seq::empty(),
    };
    let items = entries(held(json_of(*entry), "capabilities"@));
    if let Some(caps) = caps {
        modalities_follow_the_list(named, items);
        further_modalities_are_listed(named, items);
        let further = further_modalities(named, items);
        let all = known_modalities();
        assert(all[0] == "text"@ && all[1] == "vision"@ && all[2] == "audio"@);
        assert(items.len() == 0 ==> further =~= Seq::<Seq<char>>::empty());
        assert(caps@.modalities =~= named + further);
        both_rows_are_there(named, further);
    }
}

proof fn both_rows_are_there(left: Seq<Seq<char>>, right: Seq<Seq<char>>)
    ensures
        forall|name: Seq<char>| #[trigger]
            (left + right).contains(name) <==> left.contains(name) || right.contains(name),
{
    assert forall|name: Seq<char>| left.contains(name) || right.contains(name) implies #[trigger] (
    left + right).contains(name) by {
        if left.contains(name) {
            let i = choose|i: int| 0 <= i < left.len() && left[i] == name;
            assert((left + right)[i] == name);
        } else {
            let i = choose|i: int| 0 <= i < right.len() && right[i] == name;
            assert((left + right)[left.len() + i] == name);
        }
    }
}

/// The model that an entry of an OpenAI-compatible listing stands for, if it has an id.
pub open spec fn listed_model(entry: JsonView) -> Option<InstalledModelView> {
    match held(entry, "id"@) {
        JsonView::Text(id) => Some(
            InstalledModelView {
                model: id,
                size: None,
                capabilities: Seq::empty(),
                advertised: listed_caps(entry),
            },
        ),
        _ => None,
    }
}

/// The model that an entry of an Ollama tags listing stands for, if it has a name.
pub open spec fn tagged_model(entry: JsonView) -> Option<InstalledModelView> {
    match held(entry, "name"@) {
        JsonView::Text(name) => Some(
            InstalledModelView {
                model: name,
                size: match held(entry, "size"@) {
                    JsonView::Natural(size) => Some(size),
                    _ => None,
                },
                capabilities: Seq::empty(),
                advertised: None,
            },
        ),
        _ => None,
    }
}

pub(crate) proof fn listings_map_their_entries(items: Seq<JsonView>)
    ensures
        listed_models(items) == items.filter_map(|entry: JsonView| listed_model(entry)),
        tagged_models(items) == items.filter_map(|entry: JsonView| tagged_model(entry)),
    decreases items.len(),
{
    if items.len() > 0 {
        listings_map_their_entries(items.drop_last());
        let listed = items.drop_last().filter_map(|entry: JsonView| listed_model(entry));
        let tagged = items.drop_last().filter_map(|entry: JsonView| tagged_model(entry));
        if let Some(model) = listed_model(items.last()) {
            assert(listed.push(model) =~= listed + seq![model]);
        }
        if let Some(model) = tagged_model(items.last()) {
            assert(tagged.push(model) =~= tagged + seq![model]);
        }
    }
}

/// A listing names one model for each entry under `data` with a text `id`, in order, under
/// that id and with what the entry advertises; a tags listing one for each entry under
/// `models` with a text `name`, with the size it states.
pub proof fn listings_name_every_model_in_order(
    listing: &serde_json::Value,
    listed: Vec<InstalledModel>,
    tagged: Vec<InstalledModel>,
)
    requires
        call_ensures(read_listing, (listing,), listed),
        call_ensures(read_tags, (listing,), tagged),
    ensures
        listed.deep_view() == entries(held(json_of(*listing), "data"@)).filter_map(
            |entry: JsonView| listed_model(entry),
        ),
        tagged.deep_view() == entries(held(json_of(*listing), "models"@)).filter_map(
            |entry: JsonView| tagged_model(entry),
        ),
{
    listings_map_their_entries(entries(held(json_of(*listing), "data"@)));
    listings_map_their_entries(entries(held(json_of(*listing), "models"@)));
}

proof fn placing_keeps_every_model(models: Seq<InstalledModelView>, model: InstalledModelView)
    ensures
        placed_by_size(models, model).to_multiset() == models.to_multiset().insert(model),
    decreases models.len(),
{
    broadcast use vstd::seq_lib::group_to_multiset_ensures;

    if models.len() == 0 || size_key(models.last()) <= size_key(model) {
    } else {
        let head = models.drop_last();
        placing_keeps_every_model(head, model);
        assert(head.push(models.last()) =~= models);
        assert(placed_by_size(models, model).to_multiset() =~= models.to_multiset().insert(model));
    }
}

pub(crate) proof fn sorting_keeps_every_model(models: Seq<InstalledModelView>)
    ensures
        by_size(models).to_multiset() == models.to_multiset(),
    decreases models.len(),
{
    broadcast use vstd::seq_lib::group_to_multiset_ensures;

    if models.len() > 0 {
        sorting_keeps_every_model(models.drop_last());
        placing_keeps_every_model(by_size(models.drop_last()), models.last());
        assert(models.drop_last().push(models.last()) =~= models);
    }
}

proof fn sized_alike_keep_order(models: Seq<InstalledModelView>, size: Option<u64>)
    ensures
        by_size(models).filter(|model: InstalledModelView| model.size == size) == models.filter(
            |model: InstalledModelView| model.size == size,
        ),
    decreases models.len(),
{
    reveal(Seq::filter);
    if models.len() > 0 {
        sized_alike_keep_order(models.drop_last(), size);
        sizes_ascend(models.drop_last());
        placing_keeps_those_of_size(by_size(models.drop_last()), models.last(), size);
    }
}

proof fn placing_keeps_those_of_size(
    models: Seq<InstalledModelView>,
    model: InstalledModelView,
    size: Option<u64>,
)
    requires
        ascending(models),
    ensures
        ({
            let alike = |model: InstalledModelView| model.size == size;
            placed_by_size(models, model).filter(alike) == (if model.size == size {
                models.filter(alike).push(model)
            } else {
                models.filter(alike)
            })
        }),
    decreases models.len(),
{
    reveal(Seq::filter);
    let placed = placed_by_size(models, model);
    if models.len() == 0 || size_key(models.last()) <= size_key(model) {
        assert(placed.drop_last() =~= models);
    } else {
        let head = models.drop_last();
        placing_keeps_those_of_size(head, model, size);
        assert(placed.drop_last() =~= placed_by_size(head, model));
        assert(placed.last() == models.last());
    }
}

/// Sorting puts the same models in order: no known size stands behind a larger one or behind
/// an unknown one, short of the largest number there is, and models of one size, or of
/// unknown size, stay in the order they came in.
pub proof fn the_smallest_come_first(
    models: &Vec<InstalledModel>,
    sorted: Vec<InstalledModel>,
    size: Option<u64>,
)
    requires
        call_ensures(smallest_first, (models,), sorted),
    ensures
        sorted.deep_view().to_multiset() == models.deep_view().to_multiset(),
        forall|i: int, j: int|
            #![trigger sorted.deep_view()[i], sorted.deep_view()[j]]
            0 <= i < j < sorted.deep_view().len() ==> match (
                sorted.deep_view()[i].size,
                sorted.deep_view()[j].size,
            ) {
                (Some(before), Some(after)) => before <= after,
                (None, Some(after)) => after == u64::MAX,
                (_, None) => true,
            },
        sorted.deep_view().filter(|model: InstalledModelView| model.size == size)
            == models.deep_view().filter(|model: InstalledModelView| model.size == size),
{
    let all = models.deep_view();
    sorting_keeps_every_model(all);
    sizes_ascend(all);
    sized_alike_keep_order(all, size);
}

/// A model can serve what its capabilities name, and anything where none are known; the
/// first that can is found, and those that can are kept, in order.
pub proof fn capabilities_decide_what_a_model_serves(
    models: &Vec<InstalledModel>,
    what: &str,
    place: Option<usize>,
    kept: Vec<InstalledModel>,
    model: &InstalledModel,
    yes: bool,
)
    requires
        call_ensures(model_supports, (model, what), yes),
        call_ensures(find_supporting, (models, what), place),
        call_ensures(keep_supporting, (models, what), kept),
    ensures
        yes <==> model@.capabilities.len() == 0 || model@.capabilities.contains(what@),
        kept.deep_view() == models.deep_view().filter(
            |model: InstalledModelView|
                model.capabilities.len() == 0 || model.capabilities.contains(what@),
        ),
        match place {
            Some(place) => {
                let found = models.deep_view()[place as int];
                &&& place < models.deep_view().len()
                &&& found.capabilities.len() == 0 || found.capabilities.contains(what@)
                &&& forall|i: int|
                    0 <= i < place ==> (#[trigger] models.deep_view()[i]).capabilities.len() > 0
                        && !models.deep_view()[i].capabilities.contains(what@)
            },
            None => forall|i: int|
                0 <= i < models.deep_view().len() ==> (
                #[trigger] models.deep_view()[i]).capabilities.len() > 0
                    && !models.deep_view()[i].capabilities.contains(what@),
        },
{
    the_first_supporting_is_the_first(models.deep_view(), what@);
    assert((|model: InstalledModelView| supports(model, what@)) =~= (|model: InstalledModelView|
        model.capabilities.len() == 0 || model.capabilities.contains(what@)));
}

/// Whether the model at a place is the first that can chat, as far as is known.
pub open spec fn is_first_to_chat(models: Seq<InstalledModelView>, place: int) -> bool {
    &&& 0 <= place < models.len()
    &&& models[place].capabilities.len() == 0 || models[place].capabilities.contains(
        "completion"@,
    )
    &&& forall|i: int|
        0 <= i < place ==> (#[trigger] models[i]).capabilities.len() > 0
            && !models[i].capabilities.contains("completion"@)
}

/// What Ollama shows of a model: the context length of the first member of `model_info`, in
/// the order of names, whose name ends in `.context_length`, the stated parameter size, and,
/// where it lists capabilities, text, vision and tools by what the list names; and nothing
/// else.
pub proof fn what_is_shown_is_what_is_stated(
    shown: &serde_json::Value,
    info: Map<Seq<char>, JsonView>,
    family: Seq<char>,
    caps: Caps,
)
    requires
        call_ensures(read_shown, (shown,), caps),
    ensures
        ({
            let abilities = held(json_of(*shown), "capabilities"@);
            let items = entries(abilities);
            let name = family + ".context_length"@;
            &&& held(json_of(*shown), "model_info"@) == JsonView::Object(info)
                && info.contains_key(name) && (forall|other: Seq<char>|
                info.contains_key(#[trigger] (other + ".context_length"@)) && other != family
                    ==> text_before(name, other + ".context_length"@)) ==> caps@.context == (
            match info[name] {
                JsonView::Natural(n) => Some(n),
                _ => None,
            })
            &&& held(json_of(*shown), "model_info"@) == JsonView::Object(info) && (forall|
                other: Seq<char>,
            | !info.contains_key(#[trigger] (other + ".context_length"@))) ==> caps@.context
                is None
            &&& !(held(json_of(*shown), "model_info"@) is Object) ==> caps@.context is None
            &&& caps@.modalities == (if !(abilities is List) {
                Seq::empty()
            } else if items.contains(JsonView::Text("vision"@)) {
                seq!["text"@, "vision"@]
            } else {
                seq!["text"@]
            })
            &&& caps@.tools == (if abilities is List {
                Some(items.contains(JsonView::Text("tools"@)))
            } else {
                None
            })
            &&& caps@.params == (match held(held(json_of(*shown), "details"@), "parameter_size"@) {
                JsonView::Text(size) => Some(size),
                _ => None,
            })
            &&& caps@.json is None
            &&& caps@.cost is None
            &&& caps@.vendor is None
            &&& caps@.batch_at is None
        }),
{
    let tail = ".context_length"@;
    let name = family + tail;
    assert forall|other: Seq<char>| #[trigger] ends_in(other, tail) implies other == other.take(
        other.len() - tail.len(),
    ) + tail by {
        assert(other =~= other.take(other.len() - tail.len()) + tail);
    }
    if held(json_of(*shown), "model_info"@) == JsonView::Object(info) {
        if info.contains_key(name) && (forall|other: Seq<char>|
            info.contains_key(#[trigger] (other + tail)) && other != family ==> text_before(
                name,
                other + tail,
            )) {
            assert(name.subrange(name.len() - tail.len(), name.len() as int) =~= tail);
            assert(ends_in(name, tail));
            assert forall|other: Seq<char>| #[trigger]
                info.contains_key(other) && ends_in(other, tail) && other
                    != name implies text_before(name, other) by {
                let head = other.take(other.len() - tail.len());
                assert(other == head + tail);
            }
            assert(first_ending(info, tail, name));
            let first = choose|first: Seq<char>| first_ending(info, tail, first);
            assert(first_ending(info, tail, first));
            text_order_is_strict(first, name);
            assert(first == name);
        }
        if forall|other: Seq<char>| !info.contains_key(#[trigger] (other + tail)) {
            if exists|first: Seq<char>| first_ending(info, tail, first) {
                let first = choose|first: Seq<char>| first_ending(info, tail, first);
                let head = first.take(first.len() - tail.len());
                assert(first == head + tail);
            }
        }
    }
}

} // verus!
