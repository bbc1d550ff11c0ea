//! Where the resources are bound.

use crate::annotate::{backend_iri, backend_of, iri_of};
use crate::backend::OpenAiBackend;
use crate::config::{OpenAiConfig, OpenAiConfigView, Registry, RegistryView};
use crate::inventory::{ConfigEndpoint, ModelsEndpoint};
use crate::listing::installed_iri;
use crate::live::{model_iri, up_iri, InstalledEndpoint, ModelEndpoint, UpEndpoint};
use crate::routing::{AskFacade, SelectEndpoint};
use vstd::prelude::*;
use vstd::string::*;

verus! {

/// A resource.
#[derive(Debug)]
pub enum Bound {
    Facade(AskFacade),
    Config(ConfigEndpoint),
    Models(ModelsEndpoint),
    Select(SelectEndpoint),
    Backend(OpenAiBackend),
    Up(UpEndpoint),
    Installed(InstalledEndpoint),
    Model(ModelEndpoint),
}

/// [`Bound`] by what it is over.
#[verifier::ext_equal]
pub enum BoundView {
    Facade(RegistryView),
    Config(RegistryView),
    Models(RegistryView),
    Select(RegistryView),
    Backend(OpenAiConfigView),
    Up(OpenAiConfigView),
    Installed(OpenAiConfigView),
    Model(OpenAiConfigView),
}

impl View for Bound {
    type V = BoundView;

    open spec fn view(&self) -> BoundView {
        match self {
            Bound::Facade(facade) => BoundView::Facade(facade@),
            Bound::Config(endpoint) => BoundView::Config(endpoint@),
            Bound::Models(endpoint) => BoundView::Models(endpoint@),
            Bound::Select(endpoint) => BoundView::Select(endpoint@),
            Bound::Backend(backend) => BoundView::Backend(backend@),
            Bound::Up(endpoint) => BoundView::Up(endpoint@),
            Bound::Installed(endpoint) => BoundView::Installed(endpoint@),
            Bound::Model(endpoint) => BoundView::Model(endpoint@),
        }
    }
}

/// A resource and the IRI it is bound to.
#[derive(Debug)]
pub struct Binding {
    pub iri: String,
    pub endpoint: Bound,
}

/// [`Binding`] over sequences.
#[verifier::ext_equal]
pub struct BindingView {
    pub iri: Seq<char>,
    pub endpoint: BoundView,
}

impl View for Binding {
    type V = BindingView;

    open spec fn view(&self) -> BindingView {
        BindingView { iri: self.iri@, endpoint: self.endpoint@ }
    }
}

impl DeepView for Binding {
    type V = BindingView;

    open spec fn deep_view(&self) -> BindingView {
        self@
    }
}

/// The resources of the registry as a whole.
pub open spec fn registry_bindings(registry: RegistryView) -> Seq<BindingView> {
    seq![
        BindingView { iri: "urn:llm:ask"@, endpoint: BoundView::Facade(registry) },
        BindingView { iri: "urn:llm:config"@, endpoint: BoundView::Config(registry) },
        BindingView { iri: "urn:llm:models"@, endpoint: BoundView::Models(registry) },
        BindingView { iri: "urn:llm:select"@, endpoint: BoundView::Select(registry) },
    ]
}

/// The resources of one provider.
pub open spec fn provider_bindings(config: OpenAiConfigView) -> Seq<BindingView> {
    seq![
        BindingView { iri: backend_iri(config.provider), endpoint: BoundView::Backend(config) },
        BindingView { iri: up_iri(config.provider), endpoint: BoundView::Up(config) },
        BindingView { iri: installed_iri(config.provider), endpoint: BoundView::Installed(config) },
        BindingView { iri: model_iri(config.provider), endpoint: BoundView::Model(config) },
    ]
}

/// The resources of all providers, in order.
pub open spec fn all_bindings(providers: Seq<OpenAiConfigView>) -> Seq<BindingView>
    decreases providers.len(),
{
    if providers.len() == 0 {
        Seq::empty()
    } else {
        all_bindings(providers.drop_last()) + provider_bindings(providers.last())
    }
}

fn bind_provider(space: &mut Vec<Binding>, config: &OpenAiConfig)
    ensures
        final(space).deep_view() == old(space).deep_view() + provider_bindings(config@),
{
    let ghost before = space.deep_view();
    let name = config.provider.as_str();
    space.push(
        Binding {
            iri: backend_of(name),
            endpoint: Bound::Backend(OpenAiBackend::new(config.clone())),
        },
    );
    space.push(
        Binding {
            iri: iri_of(name, ":up"),
            endpoint: Bound::Up(UpEndpoint::new(config.clone())),
        },
    );
    space.push(
        Binding {
            iri: iri_of(name, ":installed"),
            endpoint: Bound::Installed(InstalledEndpoint::new(config.clone())),
        },
    );
    space.push(
        Binding {
            iri: iri_of(name, ":model"),
            endpoint: Bound::Model(ModelEndpoint::new(config.clone())),
        },
    );
    assert(space.deep_view() =~= before + provider_bindings(config@));
}

/// The facade, the registry's resources, and for every provider its backend, its liveness,
/// its installed models and its identity, each with the IRI it is bound to.
pub fn space(registry: Registry) -> (space: Vec<Binding>)
    ensures
        space.deep_view() == registry_bindings(registry@) + all_bindings(registry@.providers),
{
    let ghost all = registry@.providers;
    let mut space: Vec<Binding> = Vec::new();
    space.push(
        Binding {
            iri: "urn:llm:ask".to_owned(),
            endpoint: Bound::Facade(AskFacade::new(registry.clone())),
        },
    );
    space.push(
        Binding {
            iri: "urn:llm:config".to_owned(),
            endpoint: Bound::Config(ConfigEndpoint::new(registry.clone())),
        },
    );
    space.push(
        Binding {
            iri: "urn:llm:models".to_owned(),
            endpoint: Bound::Models(ModelsEndpoint::new(registry.clone())),
        },
    );
    space.push(
        Binding {
            iri: "urn:llm:select".to_owned(),
            endpoint: Bound::Select(SelectEndpoint::new(registry.clone())),
        },
    );
    let mut i: usize = 0;
    assert(space.deep_view() =~= registry_bindings(registry@) + all_bindings(all.take(0)));
    while i < registry.providers.len()
        invariant
            i <= registry.providers.len(),
            all == registry@.providers,
            space.deep_view() == registry_bindings(registry@) + all_bindings(all.take(i as int)),
        decreases registry.providers.len() - i,
    {
        assert(all.take(i + 1).drop_last() =~= all.take(i as int));
        assert(all.take(i + 1).last() == registry.providers@[i as int]@);
        bind_provider(&mut space, &registry.providers[i]);
        i = i + 1;
        assert(space.deep_view() =~= registry_bindings(registry@) + all_bindings(
            all.take(i as int),
        ));
    }
    assert(all.take(i as int) =~= all);
    space
}

/// Every provider is bound: its backend, its liveness, its installed models and its
/// identity, each under its own name.
pub proof fn every_provider_is_bound(providers: Seq<OpenAiConfigView>, place: int)
    requires
        0 <= place < providers.len(),
    ensures
        forall|i: int|
            0 <= i < 4 ==> all_bindings(providers).contains(
                #[trigger] provider_bindings(providers[place])[i],
            ),
        all_bindings(providers).len() == 4 * providers.len(),
    decreases providers.len(),
{
    let head = providers.drop_last();
    let before = all_bindings(head);
    let all = all_bindings(providers);
    if place < head.len() {
        every_provider_is_bound(head, place);
        assert forall|i: int| 0 <= i < 4 implies all.contains(
            #[trigger] provider_bindings(providers[place])[i],
        ) by {
            assert(head[place] == providers[place]);
            let k = choose|k: int|
                0 <= k < before.len() && before[k] == provider_bindings(head[place])[i];
            assert(all[k] == before[k]);
        }
    } else {
        if head.len() > 0 {
            every_provider_is_bound(head, 0);
        }
        assert forall|i: int| 0 <= i < 4 implies all.contains(
            #[trigger] provider_bindings(providers[place])[i],
        ) by {
            assert(all[before.len() + i] == provider_bindings(providers[place])[i]);
        }
    }
}

/// Everything is bound under its IRI and nothing else is: the four resources of the registry,
/// and of each provider its backend, its liveness, its installed models and its identity,
/// each over the registry or the provider's configuration as it is.
pub proof fn each_resource_has_its_iri(registry: Registry, bound: Vec<Binding>, place: int)
    requires
        call_ensures(space, (registry,), bound),
        0 <= place < registry@.providers.len(),
    ensures
        ({
            let all = bound.deep_view();
            let config = registry@.providers[place];
            let name = "urn:llm:"@ + config.provider;
            &&& all.len() == 4 + 4 * registry@.providers.len()
            &&& all.contains(
                (BindingView { iri: "urn:llm:ask"@, endpoint: BoundView::Facade(registry@) }),
            )
            &&& all.contains(
                (BindingView { iri: "urn:llm:config"@, endpoint: BoundView::Config(registry@) }),
            )
            &&& all.contains(
                (BindingView { iri: "urn:llm:models"@, endpoint: BoundView::Models(registry@) }),
            )
            &&& all.contains(
                (BindingView { iri: "urn:llm:select"@, endpoint: BoundView::Select(registry@) }),
            )
            &&& all.contains(
                (BindingView { iri: name + ":ask"@, endpoint: BoundView::Backend(config) }),
            )
            &&& all.contains((BindingView { iri: name + ":up"@, endpoint: BoundView::Up(config) }))
            &&& all.contains(
                (BindingView { iri: name + ":installed"@, endpoint: BoundView::Installed(config) }),
            )
            &&& all.contains(
                (BindingView { iri: name + ":model"@, endpoint: BoundView::Model(config) }),
            )
        }),
{
    let all = bound.deep_view();
    let config = registry@.providers[place];
    let first = registry_bindings(registry@);
    let rest = all_bindings(registry@.providers);
    let own = provider_bindings(config);
    every_provider_is_bound(registry@.providers, place);
    assert(all[0] == first[0] && all[1] == first[1] && all[2] == first[2] && all[3] == first[3]);
    assert forall|i: int| 0 <= i < 4 implies all.contains(#[trigger] own[i]) by {
        let k = choose|k: int| 0 <= k < rest.len() && rest[k] == own[i];
        assert(all[4 + k] == own[i]);
    }
    assert(all.contains(own[0]) && all.contains(own[1]) && all.contains(own[2]) && all.contains(
        own[3],
    ));
}

} // verus!
