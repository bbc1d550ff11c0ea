//! Capability-based selection: which provider meets the requirements, and which of
//! those wins.

use crate::config::{Caps, CapsView, OpenAiConfig, OpenAiConfigView, Registry, RegistryView};
use crate::error::{Error, ErrorView};
use crate::needs::{cost_rank, tier_rank, tiers, tiers_rank_in_order, Need, NeedView};
use crate::text::{is_among, is_text, join, joined, same_text};
use vstd::prelude::*;
use vstd::string::*;

verus! {

/// The rank of a declared cost tier, if one is declared and is a tier.
pub open spec fn declared_rank(cost: Option<Seq<char>>) -> Option<u8> {
    match cost {
        Some(tier) => tier_rank(tier),
        None => None,
    }
}

/// Whether a provider meets one requirement. A trait it did not declare meets none,
/// and an undeclared vendor fails `vendor!=` too: it might be that vendor.
pub open spec fn meets(provider: OpenAiConfigView, need: NeedView) -> bool {
    match need {
        NeedView::ContextAtLeast(n) => provider.caps.context matches Some(context) && context >= n,
        NeedView::CostAtMost(rank) => declared_rank(provider.caps.cost) matches Some(tier) && tier
            <= rank,
        NeedView::CostExactly(rank) => declared_rank(provider.caps.cost) == Some(rank),
        NeedView::Modality(name) => provider.caps.modalities.contains(name),
        NeedView::Tools => provider.caps.tools == Some(true),
        NeedView::Json => provider.caps.json == Some(true),
        NeedView::VendorIs(name) => provider.caps.vendor == Some(name),
        NeedView::VendorNot(name) => provider.caps.vendor matches Some(vendor) && vendor != name,
        NeedView::ProviderIs(name) => provider.provider == name,
        NeedView::ProviderNot(name) => provider.provider != name,
        NeedView::BatchAtMost(n) => provider.caps.batch_at matches Some(crossover) && crossover
            <= n,
    }
}

/// Whether a provider meets every requirement.
pub open spec fn fits(provider: OpenAiConfigView, needs: Seq<NeedView>) -> bool {
    forall|i: int| 0 <= i < needs.len() ==> meets(provider, #[trigger] needs[i])
}

fn rank_of(caps: &Caps) -> (rank: Option<u8>)
    ensures
        rank == declared_rank(caps@.cost),
{
    match &caps.cost {
        Some(tier) => cost_rank(tier.as_str()),
        None => None,
    }
}

fn meets_need(provider: &OpenAiConfig, need: &Need) -> (met: bool)
    ensures
        met == meets(provider@, need@),
{
    let caps = &provider.caps;
    match need {
        Need::ContextAtLeast(n) => match caps.context {
            Some(context) => context >= *n,
            None => false,
        },
        Need::CostAtMost(rank) => match rank_of(caps) {
            Some(tier) => tier <= *rank,
            None => false,
        },
        Need::CostExactly(rank) => match rank_of(caps) {
            Some(tier) => tier == *rank,
            None => false,
        },
        Need::Modality(name) => is_among(&caps.modalities, name.as_str()),
        Need::Tools => match caps.tools {
            Some(tools) => tools,
            None => false,
        },
        Need::Json => match caps.json {
            Some(json) => json,
            None => false,
        },
        Need::VendorIs(name) => is_text(&caps.vendor, name.as_str()),
        Need::VendorNot(name) => match &caps.vendor {
            Some(vendor) => !same_text(vendor.as_str(), name.as_str()),
            None => false,
        },
        Need::ProviderIs(name) => same_text(provider.provider.as_str(), name.as_str()),
        Need::ProviderNot(name) => !same_text(provider.provider.as_str(), name.as_str()),
        Need::BatchAtMost(n) => match caps.batch_at {
            Some(crossover) => crossover <= *n,
            None => false,
        },
    }
}

/// Whether a provider meets every requirement.
pub fn satisfies(provider: &OpenAiConfig, needs: &Vec<Need>) -> (yes: bool)
    ensures
        yes == fits(provider@, needs.deep_view()),
{
    let mut i: usize = 0;
    while i < needs.len()
        invariant
            i <= needs.len(),
            forall|k: int| 0 <= k < i ==> meets(provider@, #[trigger] needs.deep_view()[k]),
        decreases needs.len() - i,
    {
        assert(needs.deep_view()[i as int] == needs@[i as int]@);
        if !meets_need(provider, &needs[i]) {
            return false;
        }
        i = i + 1;
    }
    true
}

// ---- the policy --------------------------------------------------------------------

/// The cost rank that the policy compares: an undeclared tier comes last.
pub open spec fn policy_rank(provider: OpenAiConfigView) -> u8 {
    match declared_rank(provider.caps.cost) {
        Some(rank) => rank,
        None => 3,
    }
}

/// The context that the policy compares: an undeclared one comes last.
pub open spec fn policy_context(provider: OpenAiConfigView) -> u64 {
    match provider.caps.context {
        Some(context) => context,
        None => u64::MAX,
    }
}

/// The policy prefers `left` to `right` whatever their places: it is cheaper, or as
/// cheap with the smaller context.
pub open spec fn preferred(left: OpenAiConfigView, right: OpenAiConfigView) -> bool {
    ||| policy_rank(left) < policy_rank(right)
    ||| policy_rank(left) == policy_rank(right) && policy_context(left) < policy_context(right)
}

/// The place of the provider that wins: of those that fit, one that no other is
/// preferred to, and the first such.
pub open spec fn winning_place(providers: Seq<OpenAiConfigView>, needs: Seq<NeedView>) -> Option<
    int,
>
    decreases providers.len(),
{
    if providers.len() == 0 {
        None
    } else {
        let place = providers.len() - 1;
        match winning_place(providers.drop_last(), needs) {
            None => if fits(providers[place], needs) {
                Some(place)
            } else {
                None
            },
            Some(best) => if fits(providers[place], needs) && preferred(
                providers[place],
                providers[best],
            ) {
                Some(place)
            } else {
                Some(best)
            },
        }
    }
}

/// The provider that wins.
pub open spec fn winner(registry: RegistryView, needs: Seq<NeedView>) -> Option<OpenAiConfigView> {
    match winning_place(registry.providers, needs) {
        Some(place) => Some(registry.providers[place]),
        None => None,
    }
}

fn ranks_before(left: &OpenAiConfig, right: &OpenAiConfig) -> (yes: bool)
    ensures
        yes == preferred(left@, right@),
{
    let left_rank: u8 = match rank_of(&left.caps) {
        Some(rank) => rank,
        None => 3,
    };
    let right_rank: u8 = match rank_of(&right.caps) {
        Some(rank) => rank,
        None => 3,
    };
    let left_context: u64 = match left.caps.context {
        Some(context) => context,
        None => u64::MAX,
    };
    let right_context: u64 = match right.caps.context {
        Some(context) => context,
        None => u64::MAX,
    };
    left_rank < right_rank || (left_rank == right_rank && left_context < right_context)
}

/// The provider that wins among those meeting the requirements: the cheapest, then the
/// one with the smallest context, then the first in the registry.
pub fn select<'a>(registry: &'a Registry, needs: &Vec<Need>) -> (chosen: Option<&'a OpenAiConfig>)
    ensures
        match chosen {
            Some(provider) => winner(registry@, needs.deep_view()) == Some(provider@),
            None => winner(registry@, needs.deep_view()) is None,
        },
{
    let ghost all = registry@.providers;
    let mut best: Option<usize> = None;
    let mut i: usize = 0;
    while i < registry.providers.len()
        invariant
            i <= registry.providers.len(),
            all == registry@.providers,
            match best {
                Some(place) => place < i && winning_place(all.take(i as int), needs.deep_view())
                    == Some(place as int),
                None => winning_place(all.take(i as int), needs.deep_view()) is None,
            },
        decreases registry.providers.len() - i,
    {
        let provider = &registry.providers[i];
        assert(all[i as int] == provider@);
        assert(all.take(i + 1).drop_last() =~= all.take(i as int));
        if satisfies(provider, needs) {
            match best {
                None => {
                    best = Some(i);
                },
                Some(place) => {
                    assert(all[place as int] == registry.providers@[place as int]@);
                    if ranks_before(provider, &registry.providers[place]) {
                        best = Some(i);
                    }
                },
            }
        }
        i = i + 1;
    }
    assert(all.take(i as int) =~= all);
    match best {
        Some(place) => Some(&registry.providers[place]),
        None => None,
    }
}

// ---- what selection promises -------------------------------------------------------

/// The winner meets the requirements; no other provider that meets them is preferred to
/// it, and none before it is as good: cheapest, then smallest context, then registry
/// order.
pub proof fn the_winner_is_the_cheapest_that_fits(
    providers: Seq<OpenAiConfigView>,
    needs: Seq<NeedView>,
)
    ensures
        winning_place(providers, needs) matches Some(place) ==> {
            &&& 0 <= place < providers.len()
            &&& fits(providers[place], needs)
            &&& forall|other: int|
                0 <= other < providers.len() && fits(#[trigger] providers[other], needs)
                    ==> !preferred(providers[other], providers[place])
            &&& forall|other: int|
                0 <= other < place && fits(#[trigger] providers[other], needs) ==> preferred(
                    providers[place],
                    providers[other],
                )
        },
    decreases providers.len(),
{
    if providers.len() > 0 {
        let head = providers.drop_last();
        the_winner_is_the_cheapest_that_fits(head, needs);
        if winning_place(head, needs) is None {
            nothing_wins_only_if_nothing_fits(head, needs);
        }
        assert(forall|i: int| 0 <= i < head.len() ==> head[i] == providers[i]);
        assert forall|other: int|
            0 <= other < providers.len() - 1 && fits(
                #[trigger] providers[other],
                needs,
            ) implies winning_place(head, needs) matches Some(best) && !preferred(
            providers[other],
            providers[best],
        ) && (other < best ==> preferred(providers[best], providers[other])) by {
            assert(head[other] == providers[other]);
        }
    }
}

/// Nothing is selected if and only if no provider meets the requirements.
pub proof fn nothing_wins_only_if_nothing_fits(
    providers: Seq<OpenAiConfigView>,
    needs: Seq<NeedView>,
)
    ensures
        winning_place(providers, needs) is None <==> forall|i: int|
            0 <= i < providers.len() ==> !fits(#[trigger] providers[i], needs),
    decreases providers.len(),
{
    if providers.len() > 0 {
        let head = providers.drop_last();
        nothing_wins_only_if_nothing_fits(head, needs);
        assert(forall|i: int| 0 <= i < head.len() ==> #[trigger] head[i] == providers[i]);
        if winning_place(head, needs) is None {
            assert forall|i: int| 0 <= i < head.len() implies !fits(
                #[trigger] providers[i],
                needs,
            ) by {
                assert(head[i] == providers[i]);
            }
        } else {
            let i = choose|i: int| 0 <= i < head.len() && fits(#[trigger] head[i], needs);
            assert(fits(providers[i], needs));
        }
        assert(providers[providers.len() - 1] == providers.last());
    }
}

/// A trait that a provider left undeclared meets no requirement on it, the vendor
/// exclusion included.
pub proof fn an_undeclared_trait_meets_nothing(provider: OpenAiConfigView, needs: Seq<NeedView>)
    requires
        fits(provider, needs),
    ensures
        provider.caps.context is None ==> forall|i: int|
            0 <= i < needs.len() ==> !((#[trigger] needs[i]) is ContextAtLeast),
        provider.caps.cost is None ==> forall|i: int|
            0 <= i < needs.len() ==> !((#[trigger] needs[i]) is CostAtMost || needs[i]
                is CostExactly),
        provider.caps.modalities.len() == 0 ==> forall|i: int|
            0 <= i < needs.len() ==> !((#[trigger] needs[i]) is Modality),
        provider.caps.tools is None ==> forall|i: int|
            0 <= i < needs.len() ==> !((#[trigger] needs[i]) is Tools),
        provider.caps.json is None ==> forall|i: int|
            0 <= i < needs.len() ==> !((#[trigger] needs[i]) is Json),
        provider.caps.vendor is None ==> forall|i: int|
            0 <= i < needs.len() ==> !((#[trigger] needs[i]) is VendorIs || needs[i] is VendorNot),
        provider.caps.batch_at is None ==> forall|i: int|
            0 <= i < needs.len() ==> !((#[trigger] needs[i]) is BatchAtMost),
{
    assert forall|i: int| 0 <= i < needs.len() implies meets(provider, #[trigger] needs[i]) by {}
}

/// No prompt that excludes a vendor goes to it: the winner of requirements with
/// `vendor!=name` declares a vendor, and another one.
pub proof fn an_excluded_vendor_never_wins(
    registry: RegistryView,
    needs: Seq<NeedView>,
    name: Seq<char>,
)
    requires
        needs.contains(NeedView::VendorNot(name)),
    ensures
        winner(registry, needs) matches Some(provider) ==> {
            &&& provider.caps.vendor is Some
            &&& provider.caps.vendor != Some(name)
        },
{
    the_winner_is_the_cheapest_that_fits(registry.providers, needs);
    if let Some(provider) = winner(registry, needs) {
        let i = choose|i: int| 0 <= i < needs.len() && needs[i] == NeedView::VendorNot(name);
        assert(meets(provider, needs[i]));
    }
}

/// The same provider with another load shape.
pub open spec fn with_batch_at(
    provider: OpenAiConfigView,
    batch_at: Option<u64>,
) -> OpenAiConfigView {
    OpenAiConfigView { caps: CapsView { batch_at, ..provider.caps }, ..provider }
}

/// Whether two rows of providers differ in nothing but load shapes.
pub open spec fn same_but_load_shape(
    left: Seq<OpenAiConfigView>,
    right: Seq<OpenAiConfigView>,
) -> bool {
    left.len() == right.len() && forall|i: int|
        0 <= i < left.len() ==> #[trigger] right[i] == with_batch_at(
            left[i],
            right[i].caps.batch_at,
        )
}

/// Without a `batchAt<=` term, what providers declare of their load shape plays no part:
/// the same place wins.
pub proof fn load_shape_matters_only_when_asked(
    left: Seq<OpenAiConfigView>,
    right: Seq<OpenAiConfigView>,
    needs: Seq<NeedView>,
)
    requires
        forall|i: int| 0 <= i < needs.len() ==> !((#[trigger] needs[i]) is BatchAtMost),
        same_but_load_shape(left, right),
    ensures
        winning_place(left, needs) == winning_place(right, needs),
    decreases left.len(),
{
    if left.len() > 0 {
        load_shape_matters_only_when_asked(left.drop_last(), right.drop_last(), needs);
        the_winner_is_the_cheapest_that_fits(left.drop_last(), needs);
        let last = left.len() - 1;
        assert(right[last] == with_batch_at(left[last], right[last].caps.batch_at));
        fitting_ignores_load_shape(left[last], needs, right[last].caps.batch_at);
        if let Some(best) = winning_place(left.drop_last(), needs) {
            assert(right[best] == with_batch_at(left[best], right[best].caps.batch_at));
        }
    }
}

proof fn fitting_ignores_load_shape(
    provider: OpenAiConfigView,
    needs: Seq<NeedView>,
    batch_at: Option<u64>,
)
    requires
        forall|i: int| 0 <= i < needs.len() ==> !((#[trigger] needs[i]) is BatchAtMost),
    ensures
        fits(with_batch_at(provider, batch_at), needs) == fits(provider, needs),
{
    let changed = with_batch_at(provider, batch_at);
    assert forall|i: int| 0 <= i < needs.len() implies meets(changed, #[trigger] needs[i]) == meets(
        provider,
        needs[i],
    ) by {}
    if fits(provider, needs) {
        assert forall|i: int| 0 <= i < needs.len() implies meets(changed, #[trigger] needs[i]) by {}
    } else {
        let i = choose|i: int| 0 <= i < needs.len() && !meets(provider, #[trigger] needs[i]);
        assert(!meets(changed, needs[i]));
    }
}

/// Whether a cost is the tier at this place, from `local` on.
pub open spec fn is_tier(cost: Option<Seq<char>>, place: int) -> bool {
    0 <= place < 3 && cost == Some(tiers()[place])
}

proof fn ranks_are_places(cost: Option<Seq<char>>)
    ensures
        match declared_rank(cost) {
            Some(rank) => is_tier(cost, rank as int) && forall|place: int|
                #![trigger is_tier(cost, place)]
                is_tier(cost, place) ==> place == rank,
            None => forall|place: int| !#[trigger] is_tier(cost, place),
        },
{
    if let Some(tier) = cost {
        tiers_rank_in_order(tier);
        assert forall|place: int| is_tier(cost, place) implies #[trigger] is_tier(cost, place)
            && declared_rank(cost) == Some(place as u8) by {
            tiers_rank_in_order(tiers()[place]);
        }
    }
}

/// What each requirement asks of a provider: a declared window of at least so many tokens, a
/// declared tier that does not come after the bound or is the one named, a modality among
/// those declared, tools or JSON declared to be there, the vendor named or a declared other,
/// the name or another, and a declared load shape of no more than the bound.
pub proof fn a_requirement_asks_for_a_declared_trait(
    provider: OpenAiConfigView,
    n: u64,
    rank: u8,
    name: Seq<char>,
)
    ensures
        meets(provider, NeedView::ContextAtLeast(n)) <==> exists|context: u64|
            provider.caps.context == Some(context) && #[trigger] (context - n) >= 0,
        meets(provider, NeedView::CostAtMost(rank)) <==> exists|place: int|
            place <= rank && #[trigger] is_tier(provider.caps.cost, place),
        meets(provider, NeedView::CostExactly(rank)) <==> is_tier(
            provider.caps.cost,
            rank as int,
        ),
        meets(provider, NeedView::Modality(name)) <==> exists|i: int|
            0 <= i < provider.caps.modalities.len() && #[trigger] provider.caps.modalities[i]
                == name,
        meets(provider, NeedView::Tools) <==> provider.caps.tools == Some(true),
        meets(provider, NeedView::Json) <==> provider.caps.json == Some(true),
        meets(provider, NeedView::VendorIs(name)) <==> provider.caps.vendor == Some(name),
        meets(provider, NeedView::VendorNot(name)) <==> provider.caps.vendor is Some
            && provider.caps.vendor != Some(name),
        meets(provider, NeedView::ProviderIs(name)) <==> provider.provider == name,
        meets(provider, NeedView::ProviderNot(name)) <==> provider.provider != name,
        meets(provider, NeedView::BatchAtMost(n)) <==> exists|crossover: u64|
            provider.caps.batch_at == Some(crossover) && #[trigger] (n - crossover) >= 0,
{
    ranks_are_places(provider.caps.cost);
    if let Some(context) = provider.caps.context {
        assert((context - n) >= 0 <==> context >= n);
    }
    if let Some(crossover) = provider.caps.batch_at {
        assert((n - crossover) >= 0 <==> crossover <= n);
    }
    if let Some(tier) = declared_rank(provider.caps.cost) {
        assert(is_tier(provider.caps.cost, tier as int));
    }
}

/// The winner declares what the requirements ask for: no tier after an upper bound on cost,
/// the exact tier, window, modality, vendor, name and load shape that are asked for.
pub proof fn the_winner_declares_what_is_asked(
    registry: RegistryView,
    needs: Seq<NeedView>,
    n: u64,
    rank: u8,
    name: Seq<char>,
)
    ensures
        winner(registry, needs) matches Some(provider) ==> {
            &&& needs.contains(NeedView::ContextAtLeast(n)) ==> provider.caps.context is Some
                && provider.caps.context->0 >= n
            &&& needs.contains(NeedView::CostAtMost(rank)) ==> exists|place: int|
                place <= rank && #[trigger] is_tier(provider.caps.cost, place)
            &&& needs.contains(NeedView::CostExactly(rank)) ==> is_tier(
                provider.caps.cost,
                rank as int,
            )
            &&& needs.contains(NeedView::Modality(name)) ==> provider.caps.modalities.contains(
                name,
            )
            &&& needs.contains(NeedView::Tools) ==> provider.caps.tools == Some(true)
            &&& needs.contains(NeedView::Json) ==> provider.caps.json == Some(true)
            &&& needs.contains(NeedView::VendorIs(name)) ==> provider.caps.vendor == Some(name)
            &&& needs.contains(NeedView::VendorNot(name)) ==> provider.caps.vendor is Some
                && provider.caps.vendor != Some(name)
            &&& needs.contains(NeedView::ProviderIs(name)) ==> provider.provider == name
            &&& needs.contains(NeedView::ProviderNot(name)) ==> provider.provider != name
            &&& needs.contains(NeedView::BatchAtMost(n)) ==> provider.caps.batch_at is Some
                && provider.caps.batch_at->0 <= n
        },
{
    the_winner_is_the_cheapest_that_fits(registry.providers, needs);
    if let Some(provider) = winner(registry, needs) {
        assert forall|need: NeedView| #[trigger] needs.contains(need) implies meets(
            provider,
            need,
        ) by {
            let i = choose|i: int| 0 <= i < needs.len() && needs[i] == need;
            assert(meets(provider, needs[i]));
        }
        a_requirement_asks_for_a_declared_trait(provider, n, rank, name);
    }
}

/// Whether the policy lets `left` win over `right` wherever they stand: it declares an
/// earlier tier, or a tier where the other declares none; or, where neither is so of either,
/// a smaller window, or a window where the other declares none.
pub open spec fn beats(left: OpenAiConfigView, right: OpenAiConfigView) -> bool {
    let cheaper = |a: OpenAiConfigView, b: OpenAiConfigView|
        exists|place: int| #[trigger]
            is_tier(a.caps.cost, place) && forall|other: int| #[trigger]
                is_tier(b.caps.cost, other) ==> place < other;
    ||| cheaper(left, right)
    ||| !cheaper(right, left) && (left.caps.context matches Some(window) && window < u64::MAX
        && match right.caps.context {
        Some(other) => window < other,
        None => true,
    })
}

proof fn preferring_is_beating(left: OpenAiConfigView, right: OpenAiConfigView)
    ensures
        preferred(left, right) <==> beats(left, right),
{
    ranks_are_places(left.caps.cost);
    ranks_are_places(right.caps.cost);
    if let Some(rank) = declared_rank(left.caps.cost) {
        assert(is_tier(left.caps.cost, rank as int));
    }
    if let Some(rank) = declared_rank(right.caps.cost) {
        assert(is_tier(right.caps.cost, rank as int));
    }
}

/// Whether the provider at a place wins: it meets the requirements, none that meets them
/// beats it, and it beats those that do and stand before it.
pub open spec fn wins(
    providers: Seq<OpenAiConfigView>,
    needs: Seq<NeedView>,
    place: int,
) -> bool {
    &&& 0 <= place < providers.len()
    &&& fits(providers[place], needs)
    &&& forall|other: int|
        0 <= other < providers.len() && fits(#[trigger] providers[other], needs) ==> !beats(
            providers[other],
            providers[place],
        ) && (other < place ==> beats(providers[place], providers[other]))
}

/// The policy, cheapest that fits, then smallest window, then registry order: the place that
/// wins is the one selected, and there is one unless no provider meets the requirements.
pub proof fn the_policy_picks_what_nothing_beats(
    providers: Seq<OpenAiConfigView>,
    needs: Seq<NeedView>,
)
    ensures
        forall|place: int| #[trigger]
            wins(providers, needs, place) <==> winning_place(providers, needs) == Some(place),
        (forall|i: int| 0 <= i < providers.len() ==> !fits(#[trigger] providers[i], needs))
            <==> winning_place(providers, needs) is None,
{
    the_winner_is_the_cheapest_that_fits(providers, needs);
    nothing_wins_only_if_nothing_fits(providers, needs);
    if let Some(place) = winning_place(providers, needs) {
        assert forall|other: int|
            0 <= other < providers.len() && fits(#[trigger] providers[other], needs) implies !beats(
            providers[other],
            providers[place],
        ) && (other < place ==> beats(providers[place], providers[other])) by {
            preferring_is_beating(providers[other], providers[place]);
            preferring_is_beating(providers[place], providers[other]);
        }
        assert(wins(providers, needs, place));
        assert forall|other: int| #[trigger] wins(providers, needs, other) implies other
            == place by {
            if other < place {
                assert(!beats(providers[place], providers[other]));
            } else if other > place {
                assert(beats(providers[other], providers[place]));
            }
        }
    }
}

/// What is selected from a registry is a provider that wins, and nothing is only where none
/// meets the requirements.
pub proof fn selecting_follows_the_policy(
    registry: &Registry,
    needs: &Vec<Need>,
    chosen: Option<&OpenAiConfig>,
)
    requires
        call_ensures(select, (registry, needs), chosen),
    ensures
        match chosen {
            Some(provider) => exists|place: int| #[trigger]
                wins(registry@.providers, needs.deep_view(), place)
                    && registry@.providers[place] == provider@,
            None => forall|i: int|
                0 <= i < registry@.providers.len() ==> !fits(
                    #[trigger] registry@.providers[i],
                    needs.deep_view(),
                ),
        },
{
    the_policy_picks_what_nothing_beats(registry@.providers, needs.deep_view());
    if let Some(place) = winning_place(registry@.providers, needs.deep_view()) {
        assert(wins(registry@.providers, needs.deep_view(), place));
    }
}

/// Meeting the requirements is meeting each of them.
pub proof fn every_requirement_counts(provider: &OpenAiConfig, needs: &Vec<Need>, yes: bool)
    requires
        call_ensures(satisfies, (provider, needs), yes),
    ensures
        yes <==> forall|need: NeedView| #[trigger]
            needs.deep_view().contains(need) ==> meets(provider@, need),
{
    let asked = needs.deep_view();
    assert forall|i: int| 0 <= i < asked.len() implies asked.contains(#[trigger] asked[i]) by {}
}

// ---- nothing fits ------------------------------------------------------------------

/// The providers' names, in order.
pub open spec fn provider_names(registry: RegistryView) -> Seq<Seq<char>> {
    registry.providers.map_values(|provider: OpenAiConfigView| provider.provider)
}

/// The error that nothing fits: what was asked, and what there was.
pub open spec fn no_match(who: Seq<char>, needs: Seq<char>, registry: RegistryView) -> ErrorView {
    ErrorView::Endpoint(
        who + ": no configured backend satisfies `"@ + needs + "` (providers: "@ + joined(
            provider_names(registry),
            ", "@,
        ) + ") — see urn:llm:models"@,
    )
}

/// The error that nothing fits: what was asked, and what there was.
pub fn no_match_error(who: &str, needs: &str, registry: &Registry) -> (error: Error)
    ensures
        error@ == no_match(who@, needs@, registry@),
{
    let mut names: Vec<String> = Vec::new();
    let mut i: usize = 0;
    while i < registry.providers.len()
        invariant
            i <= registry.providers.len(),
            names@.len() == i,
            forall|k: int|
                0 <= k < i ==> (#[trigger] names@[k])@ == registry.providers@[k]@.provider,
        decreases registry.providers.len() - i,
    {
        names.push(registry.providers[i].provider.clone());
        i = i + 1;
    }
    assert(names.deep_view() =~= provider_names(registry@));
    let available = join(&names, ", ");
    let mut text = who.to_owned();
    text.append(": no configured backend satisfies `");
    text.append(needs);
    text.append("` (providers: ");
    text.append(available.as_str());
    text.append(") — see urn:llm:models");
    Error::Endpoint(text)
}

} // verus!
