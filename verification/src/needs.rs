//! Requirements: the `needs=` expression and what it asks of a provider.

use crate::error::{Error, ErrorView};
use crate::text::{
    a_text_is_cut_at_the_first_place, a_written_number_reads_back, cut, cut_at, decimal,
    is_digit, is_white, natural_in, pieces, read_natural, same_text, split, trim, trimmed,
    trimming_takes_off_outer_white, written_in_digits,
};
use vstd::prelude::*;
use vstd::string::*;

verus! {

/// One requirement of a `needs=` expression.
#[derive(Debug, PartialEq)]
pub enum Need {
    /// `ctx>=32k`: a context window of at least this many tokens.
    ContextAtLeast(u64),
    /// `cost<=cheap`: a cost tier of at most this rank.
    CostAtMost(u8),
    /// `cost=local`: exactly the cost tier of this rank.
    CostExactly(u8),
    /// `vision` or `modality=vision`: this input modality.
    Modality(String),
    /// `tools`: tool or function calling.
    Tools,
    /// `json`: a structured-output mode.
    Json,
    /// `vendor=ollama`: exactly this vendor.
    VendorIs(String),
    /// `vendor!=openai`: a declared vendor, other than this one.
    VendorNot(String),
    /// `provider=fast`: the registry entry of this name.
    ProviderIs(String),
    /// `provider!=posh`: any registry entry but this one.
    ProviderNot(String),
    /// `batchAt<=10`: a declared throughput crossover at or below this concurrency.
    BatchAtMost(u64),
}

/// [`Need`] over sequences of characters.
#[verifier::ext_equal]
pub enum NeedView {
    ContextAtLeast(u64),
    CostAtMost(u8),
    CostExactly(u8),
    Modality(Seq<char>),
    Tools,
    Json,
    VendorIs(Seq<char>),
    VendorNot(Seq<char>),
    ProviderIs(Seq<char>),
    ProviderNot(Seq<char>),
    BatchAtMost(u64),
}

impl View for Need {
    type V = NeedView;

    open spec fn view(&self) -> NeedView {
        match self {
            Need::ContextAtLeast(n) => NeedView::ContextAtLeast(*n),
            Need::CostAtMost(rank) => NeedView::CostAtMost(*rank),
            Need::CostExactly(rank) => NeedView::CostExactly(*rank),
            Need::Modality(name) => NeedView::Modality(name@),
            Need::Tools => NeedView::Tools,
            Need::Json => NeedView::Json,
            Need::VendorIs(name) => NeedView::VendorIs(name@),
            Need::VendorNot(name) => NeedView::VendorNot(name@),
            Need::ProviderIs(name) => NeedView::ProviderIs(name@),
            Need::ProviderNot(name) => NeedView::ProviderNot(name@),
            Need::BatchAtMost(n) => NeedView::BatchAtMost(*n),
        }
    }
}

impl DeepView for Need {
    type V = NeedView;

    open spec fn deep_view(&self) -> NeedView {
        self@
    }
}

// ---- values ------------------------------------------------------------------------

/// The order of the cost tiers; `None` for anything that is no tier.
pub open spec fn tier_rank(tier: Seq<char>) -> Option<u8> {
    if tier == "local"@ {
        Some(0)
    } else if tier == "cheap"@ {
        Some(1)
    } else if tier == "premium"@ {
        Some(2)
    } else {
        None
    }
}

/// The order of the cost tiers; `None` for anything that is no tier.
pub fn cost_rank(tier: &str) -> (rank: Option<u8>)
    ensures
        rank == tier_rank(tier@),
{
    if same_text(tier, "local") {
        Some(0)
    } else if same_text(tier, "cheap") {
        Some(1)
    } else if same_text(tier, "premium") {
        Some(2)
    } else {
        None
    }
}

/// A token count: a number, or one with a `k` behind it, which counts 1024s.
pub open spec fn tokens_in(text: Seq<char>) -> Option<u64> {
    let inner = trimmed(text);
    if inner.len() > 0 && (inner.last() == 'k' || inner.last() == 'K') {
        match natural_in(trimmed(inner.drop_last())) {
            Some(n) => if n * 1024 <= u64::MAX {
                Some((n * 1024) as u64)
            } else {
                None
            },
            None => None,
        }
    } else {
        natural_in(inner)
    }
}

/// A token count, with `32k` for 32 times 1024; `None` where the text is none or the
/// count does not fit.
pub fn parse_tokens(text: &str) -> (count: Option<u64>)
    ensures
        count == tokens_in(text@),
{
    let inner = trim(text);
    let end: usize = inner.unicode_len();
    if end > 0 {
        let last = inner.get_char(end - 1);
        if last == 'k' || last == 'K' {
            let head = inner.substring_char(0, end - 1);
            assert(head@ =~= inner@.drop_last());
            return match read_natural(trim(head)) {
                Some(n) => n.checked_mul(1024),
                None => None,
            };
        }
    }
    read_natural(inner)
}

// ---- terms -------------------------------------------------------------------------

/// The complaint about one term.
pub open spec fn bad_term(term: Seq<char>, why: Seq<char>) -> ErrorView {
    ErrorView::InvalidArgument { name: "needs"@, detail: "`"@ + term + "`: "@ + why }
}

/// The complaint that a trait is not compared with this operator.
pub open spec fn unsupported(term: Seq<char>, key: Seq<char>, operator: Seq<char>) -> ErrorView {
    bad_term(term, "`"@ + key + "` does not support "@ + operator)
}

/// A term `key>=value`.
pub open spec fn at_least_need(term: Seq<char>, key: Seq<char>, value: Seq<char>) -> Result<
    NeedView,
    ErrorView,
> {
    if key == "ctx"@ || key == "context"@ {
        match tokens_in(value) {
            Some(n) => Ok(NeedView::ContextAtLeast(n)),
            None => Err(bad_term(term, "expected a token count"@)),
        }
    } else {
        Err(unsupported(term, key, ">="@))
    }
}

/// A term `key<=value`.
pub open spec fn at_most_need(term: Seq<char>, key: Seq<char>, value: Seq<char>) -> Result<
    NeedView,
    ErrorView,
> {
    if key == "cost"@ {
        match tier_rank(trimmed(value)) {
            Some(rank) => Ok(NeedView::CostAtMost(rank)),
            None => Err(bad_term(term, "expected local|cheap|premium"@)),
        }
    } else if key == "batchAt"@ {
        match natural_in(trimmed(value)) {
            Some(n) => Ok(NeedView::BatchAtMost(n)),
            None => Err(bad_term(term, "expected a request count"@)),
        }
    } else {
        Err(unsupported(term, key, "<="@))
    }
}

/// A term `key!=value`.
pub open spec fn not_need(term: Seq<char>, key: Seq<char>, value: Seq<char>) -> Result<
    NeedView,
    ErrorView,
> {
    if key == "vendor"@ {
        Ok(NeedView::VendorNot(trimmed(value)))
    } else if key == "provider"@ {
        Ok(NeedView::ProviderNot(trimmed(value)))
    } else {
        Err(unsupported(term, key, "!="@))
    }
}

/// A term `key=value`.
pub open spec fn exact_need(term: Seq<char>, key: Seq<char>, value: Seq<char>) -> Result<
    NeedView,
    ErrorView,
> {
    if key == "cost"@ {
        match tier_rank(trimmed(value)) {
            Some(rank) => Ok(NeedView::CostExactly(rank)),
            None => Err(bad_term(term, "expected local|cheap|premium"@)),
        }
    } else if key == "modality"@ {
        Ok(NeedView::Modality(trimmed(value)))
    } else if key == "vendor"@ {
        Ok(NeedView::VendorIs(trimmed(value)))
    } else if key == "provider"@ {
        Ok(NeedView::ProviderIs(trimmed(value)))
    } else {
        Err(bad_term(term, "unknown trait `"@ + key + "`"@))
    }
}

/// A term without an operator.
pub open spec fn bare_need(term: Seq<char>) -> Result<NeedView, ErrorView> {
    if term == "tools"@ {
        Ok(NeedView::Tools)
    } else if term == "json"@ {
        Ok(NeedView::Json)
    } else if term == "text"@ || term == "vision"@ || term == "audio"@ {
        Ok(NeedView::Modality(term))
    } else {
        Err(bad_term(term, "unknown requirement `"@ + term + "`"@))
    }
}

/// The requirement a term states, or the complaint about it. The first of `>=`, `<=`,
/// `!=` and `=` that the term holds is its operator, and the first place it stands at
/// parts trait and value.
pub open spec fn need_in(term: Seq<char>) -> Result<NeedView, ErrorView> {
    match cut_at(term, ">="@) {
        Some((key, value)) => at_least_need(term, trimmed(key), value),
        None => match cut_at(term, "<="@) {
            Some((key, value)) => at_most_need(term, trimmed(key), value),
            None => match cut_at(term, "!="@) {
                Some((key, value)) => not_need(term, trimmed(key), value),
                None => match cut_at(term, "="@) {
                    Some((key, value)) => exact_need(term, trimmed(key), value),
                    None => bare_need(term),
                },
            },
        },
    }
}

/// What reading a term came to, over sequences.
pub open spec fn need_view(need: Result<Need, Error>) -> Result<NeedView, ErrorView> {
    match need {
        Ok(need) => Ok(need@),
        Err(error) => Err(error@),
    }
}

fn bad(term: &str, why: &str) -> (error: Error)
    ensures
        error@ == bad_term(term@, why@),
{
    let mut detail = "`".to_owned();
    detail.append(term);
    detail.append("`: ");
    detail.append(why);
    Error::InvalidArgument { name: "needs".to_owned(), detail }
}

fn no_operator(term: &str, key: &str, operator: &str) -> (error: Error)
    ensures
        error@ == unsupported(term@, key@, operator@),
{
    let mut why = "`".to_owned();
    why.append(key);
    why.append("` does not support ");
    why.append(operator);
    bad(term, why.as_str())
}

fn parse_at_least(term: &str, key: &str, value: &str) -> (need: Result<Need, Error>)
    ensures
        need_view(need) == at_least_need(term@, key@, value@),
{
    if same_text(key, "ctx") || same_text(key, "context") {
        match parse_tokens(value) {
            Some(n) => Ok(Need::ContextAtLeast(n)),
            None => Err(bad(term, "expected a token count")),
        }
    } else {
        Err(no_operator(term, key, ">="))
    }
}

fn parse_at_most(term: &str, key: &str, value: &str) -> (need: Result<Need, Error>)
    ensures
        need_view(need) == at_most_need(term@, key@, value@),
{
    if same_text(key, "cost") {
        match cost_rank(trim(value)) {
            Some(rank) => Ok(Need::CostAtMost(rank)),
            None => Err(bad(term, "expected local|cheap|premium")),
        }
    } else if same_text(key, "batchAt") {
        match read_natural(trim(value)) {
            Some(n) => Ok(Need::BatchAtMost(n)),
            None => Err(bad(term, "expected a request count")),
        }
    } else {
        Err(no_operator(term, key, "<="))
    }
}

fn parse_not(term: &str, key: &str, value: &str) -> (need: Result<Need, Error>)
    ensures
        need_view(need) == not_need(term@, key@, value@),
{
    if same_text(key, "vendor") {
        Ok(Need::VendorNot(trim(value).to_owned()))
    } else if same_text(key, "provider") {
        Ok(Need::ProviderNot(trim(value).to_owned()))
    } else {
        Err(no_operator(term, key, "!="))
    }
}

fn parse_exact(term: &str, key: &str, value: &str) -> (need: Result<Need, Error>)
    ensures
        need_view(need) == exact_need(term@, key@, value@),
{
    if same_text(key, "cost") {
        match cost_rank(trim(value)) {
            Some(rank) => Ok(Need::CostExactly(rank)),
            None => Err(bad(term, "expected local|cheap|premium")),
        }
    } else if same_text(key, "modality") {
        Ok(Need::Modality(trim(value).to_owned()))
    } else if same_text(key, "vendor") {
        Ok(Need::VendorIs(trim(value).to_owned()))
    } else if same_text(key, "provider") {
        Ok(Need::ProviderIs(trim(value).to_owned()))
    } else {
        let mut why = "unknown trait `".to_owned();
        why.append(key);
        why.append("`");
        Err(bad(term, why.as_str()))
    }
}

fn parse_bare(term: &str) -> (need: Result<Need, Error>)
    ensures
        need_view(need) == bare_need(term@),
{
    if same_text(term, "tools") {
        Ok(Need::Tools)
    } else if same_text(term, "json") {
        Ok(Need::Json)
    } else if same_text(term, "text") || same_text(term, "vision") || same_text(term, "audio") {
        Ok(Need::Modality(term.to_owned()))
    } else {
        let mut why = "unknown requirement `".to_owned();
        why.append(term);
        why.append("`");
        Err(bad(term, why.as_str()))
    }
}

/// The requirement a term states, or the complaint about it.
pub fn parse_need(term: &str) -> (need: Result<Need, Error>)
    ensures
        need_view(need) == need_in(term@),
{
    if let Some((key, value)) = cut(term, ">=") {
        parse_at_least(term, trim(key), value)
    } else if let Some((key, value)) = cut(term, "<=") {
        parse_at_most(term, trim(key), value)
    } else if let Some((key, value)) = cut(term, "!=") {
        parse_not(term, trim(key), value)
    } else if let Some((key, value)) = cut(term, "=") {
        parse_exact(term, trim(key), value)
    } else {
        parse_bare(term)
    }
}

// ---- expressions -------------------------------------------------------------------

/// The requirements of a row of terms, blank ones aside, or the complaint about the
/// first term that states none.
pub open spec fn needs_of(terms: Seq<Seq<char>>) -> Result<Seq<NeedView>, ErrorView>
    decreases terms.len(),
{
    if terms.len() == 0 {
        Ok(Seq::empty())
    } else {
        match needs_of(terms.drop_last()) {
            Err(error) => Err(error),
            Ok(needs) => if trimmed(terms.last()).len() == 0 {
                Ok(needs)
            } else {
                match need_in(trimmed(terms.last())) {
                    Ok(need) => Ok(needs.push(need)),
                    Err(error) => Err(error),
                }
            },
        }
    }
}

/// The requirements of a `needs=` expression, or the complaint about it.
pub open spec fn needs_in(expr: Seq<char>) -> Result<Seq<NeedView>, ErrorView> {
    needs_of(pieces(expr, ','))
}

/// The requirements over sequences.
pub open spec fn needs_view(needs: Result<Vec<Need>, Error>) -> Result<Seq<NeedView>, ErrorView> {
    match needs {
        Ok(needs) => Ok(needs.deep_view()),
        Err(error) => Err(error@),
    }
}

/// A complaint about an early term is the complaint about the whole.
proof fn complaint_stays(terms: Seq<Seq<char>>, count: int)
    requires
        0 <= count <= terms.len(),
        needs_of(terms.take(count)) is Err,
    ensures
        needs_of(terms) == needs_of(terms.take(count)),
    decreases terms.len(),
{
    if count == terms.len() {
        assert(terms.take(count) =~= terms);
    } else {
        assert(terms.drop_last().take(count) =~= terms.take(count));
        complaint_stays(terms.drop_last(), count);
    }
}

/// Parse a comma-separated `needs=` expression: `trait`, `trait=v`, `trait!=v`,
/// `trait>=v` and `trait<=v`. An unknown term is an error: a mistyped requirement must
/// not silently select the wrong model.
pub fn parse_needs(expr: &str) -> (needs: Result<Vec<Need>, Error>)
    ensures
        needs_view(needs) == needs_in(expr@),
{
    let terms = split(expr, ',');
    let ghost all = terms.deep_view();
    let mut needs: Vec<Need> = Vec::new();
    let mut i: usize = 0;
    assert(needs.deep_view() =~= Seq::<NeedView>::empty());
    while i < terms.len()
        invariant
            i <= terms.len(),
            all == terms.deep_view(),
            all == pieces(expr@, ','),
            needs_of(all.take(i as int)) == Ok::<Seq<NeedView>, ErrorView>(needs.deep_view()),
        decreases terms.len() - i,
    {
        let term = trim(terms[i]);
        let ghost before = needs.deep_view();
        assert(all.take(i + 1).drop_last() =~= all.take(i as int));
        assert(all.take(i + 1).last() == terms@[i as int]@);
        if term.unicode_len() > 0 {
            match parse_need(term) {
                Ok(need) => {
                    needs.push(need);
                    assert(needs.deep_view() =~= before.push(need@));
                },
                Err(error) => {
                    proof {
                        complaint_stays(all, i + 1);
                    }
                    return Err(error);
                },
            }
        }
        i = i + 1;
    }
    assert(all.take(i as int) =~= all);
    Ok(needs)
}

/// Whether a term, blank ones aside, states no requirement.
pub open spec fn mistyped(term: Seq<char>) -> bool {
    trimmed(term).len() > 0 && need_in(trimmed(term)) is Err
}

/// An expression is refused if and only if one of its terms states no requirement, and
/// the complaint is about the first such term.
pub proof fn a_mistyped_term_is_refused(expr: Seq<char>)
    ensures
        needs_in(expr) is Err <==> exists|i: int|
            0 <= i < pieces(expr, ',').len() && mistyped(#[trigger] pieces(expr, ',')[i]),
        needs_in(expr) matches Err(error) ==> exists|i: int|
            #![trigger pieces(expr, ',')[i]]
            0 <= i < pieces(expr, ',').len() && mistyped(pieces(expr, ',')[i]) && need_in(
                trimmed(pieces(expr, ',')[i]),
            ) == Err::<NeedView, ErrorView>(error) && forall|j: int|
                0 <= j < i ==> !mistyped(#[trigger] pieces(expr, ',')[j]),
{
    refusal_is_the_first(pieces(expr, ','));
}

proof fn refusal_is_the_first(terms: Seq<Seq<char>>)
    ensures
        needs_of(terms) is Err <==> exists|i: int|
            0 <= i < terms.len() && mistyped(#[trigger] terms[i]),
        needs_of(terms) matches Err(error) ==> exists|i: int|
            #![trigger terms[i]]
            0 <= i < terms.len() && mistyped(terms[i]) && need_in(trimmed(terms[i])) == Err::<
                NeedView,
                ErrorView,
            >(error) && forall|j: int| 0 <= j < i ==> !mistyped(#[trigger] terms[j]),
    decreases terms.len(),
{
    if terms.len() > 0 {
        let head = terms.drop_last();
        let last = terms.len() - 1;
        refusal_is_the_first(head);
        assert(forall|i: int| 0 <= i < last ==> head[i] == terms[i]);
        match needs_of(head) {
            Err(error) => {
                let i = choose|i: int|
                    #![trigger head[i]]
                    0 <= i < head.len() && mistyped(head[i]) && need_in(trimmed(head[i])) == Err::<
                        NeedView,
                        ErrorView,
                    >(error) && forall|j: int| 0 <= j < i ==> !mistyped(#[trigger] head[j]);
                assert(mistyped(terms[i]));
                assert forall|j: int| 0 <= j < i implies !mistyped(#[trigger] terms[j]) by {
                    assert(head[j] == terms[j]);
                }
            },
            Ok(_) => {
                assert forall|j: int| 0 <= j < last implies !mistyped(#[trigger] terms[j]) by {
                    assert(head[j] == terms[j]);
                }
                assert(terms[last] == terms.last());
            },
        }
    }
}

proof fn pieces_join(left: Seq<char>, mark: char, right: Seq<char>)
    ensures
        pieces(left, mark).len() > 0,
        pieces(right, mark).len() > 0,
        pieces(left.push(mark) + right, mark) == pieces(left, mark) + pieces(right, mark),
    decreases left.len() + right.len(),
{
    let whole = left.push(mark) + right;
    if left.len() > 0 {
        pieces_join(left.drop_last(), mark, Seq::empty());
    }
    if right.len() == 0 {
        assert(whole =~= left.push(mark));
        assert(whole.drop_last() =~= left);
        assert(right =~= Seq::<char>::empty());
        assert(pieces(whole, mark) =~= pieces(left, mark) + pieces(right, mark));
    } else {
        let head = right.drop_last();
        pieces_join(left, mark, head);
        let before = pieces(left, mark) + pieces(head, mark);
        assert(whole.drop_last() =~= left.push(mark) + head);
        assert(whole.last() == right.last());
        assert(before.last() == pieces(head, mark).last());
        assert(pieces(whole, mark) =~= pieces(left, mark) + pieces(right, mark));
    }
}

proof fn needs_of_both(left: Seq<Seq<char>>, right: Seq<Seq<char>>)
    ensures
        needs_of(left + right) == (match (needs_of(left), needs_of(right)) {
            (Err(error), _) => Err(error),
            (_, Err(error)) => Err(error),
            (Ok(first), Ok(second)) => Ok(first + second),
        }),
    decreases right.len(),
{
    if right.len() == 0 {
        assert(left + right =~= left);
        if let Ok(first) = needs_of(left) {
            assert(first + Seq::<NeedView>::empty() =~= first);
        }
    } else {
        let head = right.drop_last();
        needs_of_both(left, head);
        assert((left + right).drop_last() =~= left + head);
        assert((left + right).last() == right.last());
        if let (Ok(first), Ok(second)) = (needs_of(left), needs_of(head)) {
            if let Ok(need) = need_in(trimmed(right.last())) {
                assert((first + second).push(need) =~= first + second.push(need));
            }
        }
    }
}

/// Expressions join at a comma: both ask for what each asks for, in order, and the complaint
/// about the first that is refused is the complaint about both.
pub proof fn expressions_join_at_a_comma(left: Seq<char>, right: Seq<char>)
    ensures
        needs_in(left.push(',') + right) == (match (needs_in(left), needs_in(right)) {
            (Err(error), _) => Err(error),
            (_, Err(error)) => Err(error),
            (Ok(first), Ok(second)) => Ok(first + second),
        }),
{
    pieces_join(left, ',', right);
    needs_of_both(pieces(left, ','), pieces(right, ','));
}

/// An expression whose terms are all blank asks for nothing.
pub proof fn a_blank_expression_asks_nothing(expr: Seq<char>)
    requires
        forall|i: int|
            0 <= i < pieces(expr, ',').len() ==> trimmed(#[trigger] pieces(expr, ',')[i]).len() == 0,
    ensures
        needs_in(expr) == Ok::<Seq<NeedView>, ErrorView>(Seq::empty()),
{
    blank_terms_ask_nothing(pieces(expr, ','));
}

proof fn blank_terms_ask_nothing(terms: Seq<Seq<char>>)
    requires
        forall|i: int| 0 <= i < terms.len() ==> trimmed(#[trigger] terms[i]).len() == 0,
    ensures
        needs_of(terms) == Ok::<Seq<NeedView>, ErrorView>(Seq::empty()),
    decreases terms.len(),
{
    if terms.len() > 0 {
        blank_terms_ask_nothing(terms.drop_last());
    }
}

// ---- what a term asks --------------------------------------------------------------

/// The cost tiers, from the least to the most.
pub open spec fn tiers() -> Seq<Seq<char>> {
    seq!["local"@, "cheap"@, "premium"@]
}

/// The tiers rank as they are listed, and nothing else has a rank.
pub proof fn tiers_rank_in_order(tier: Seq<char>)
    ensures
        forall|k: int| 0 <= k < 3 ==> tier_rank(#[trigger] tiers()[k]) == Some(k as u8),
        match tier_rank(tier) {
            Some(rank) => rank < 3 && tier == tiers()[rank as int],
            None => !tiers().contains(tier),
        },
{
    reveal_strlit("local");
    reveal_strlit("cheap");
    reveal_strlit("premium");
    assert("local"@[0] == 'l' && "cheap"@[0] == 'c' && "premium"@[0] == 'p');
    let all = tiers();
    assert(all[0] == "local"@ && all[1] == "cheap"@ && all[2] == "premium"@);
}

/// Whether a text begins and ends with something that is not white space.
pub open spec fn is_bare(text: Seq<char>) -> bool {
    text.len() > 0 ==> !is_white(text.first()) && !is_white(text.last())
}

proof fn bare_texts_stay(text: Seq<char>)
    requires
        is_bare(text),
    ensures
        trimmed(text) == text,
{
    trimming_takes_off_outer_white(Seq::empty(), text, Seq::empty());
    assert(Seq::<char>::empty() + text + Seq::<char>::empty() =~= text);
}

/// A part whose last character stands at one place only is cut at that place.
proof fn cut_at_the_only_place(text: Seq<char>, part: Seq<char>, at: int)
    requires
        0 < part.len() <= 2,
        0 <= at && at + part.len() <= text.len(),
        text.subrange(at, at + part.len()) == part,
        forall|i: int|
            0 <= i < text.len() && i != at + part.len() - 1 ==> #[trigger] text[i] != part.last(),
    ensures
        cut_at(text, part) == Some((text.take(at), text.skip(at + part.len()))),
{
    a_text_is_cut_at_the_first_place(text, part);
    match cut_at(text, part) {
        Some((before, after)) => {
            let found = before.len() as int;
            assert(text[found + part.len() - 1] == part.last());
            assert(found == at);
            assert(before =~= text.take(at));
            assert(after =~= text.skip(at + part.len()));
        },
        None => {
            assert(text.subrange(at, at + part.len()) != part);
        },
    }
}

/// A part that would have to end where another character stands before is not cut at.
proof fn not_cut(text: Seq<char>, part: Seq<char>, at: int)
    requires
        part.len() == 2,
        forall|i: int| 0 <= i < text.len() && i != at ==> #[trigger] text[i] != part[1],
        0 < at < text.len() ==> text[at - 1] != part[0],
    ensures
        cut_at(text, part) is None,
{
    a_text_is_cut_at_the_first_place(text, part);
    if let Some((before, after)) = cut_at(text, part) {
        let found = before.len() as int;
        assert(text[found] == part[0]);
        assert(text[found + 1] == part[1]);
        assert(found + 1 == at);
    }
}

/// A term of a key, an operator and a value is cut at its operator, where neither the key
/// nor the value holds an equals sign.
proof fn cut_at_its_operator(key: Seq<char>, operator: Seq<char>, value: Seq<char>)
    requires
        !key.contains('='),
        !value.contains('='),
        key.len() > 0,
        key.last() != '>' && key.last() != '<' && key.last() != '!',
        operator == ">="@ || operator == "<="@ || operator == "!="@ || operator == "="@,
    ensures
        cut_at(key + operator + value, operator) == Some((key, value)),
        operator != ">="@ ==> cut_at(key + operator + value, ">="@) is None,
        operator != ">="@ && operator != "<="@ ==> cut_at(key + operator + value, "<="@) is None,
        operator == "="@ ==> cut_at(key + operator + value, "!="@) is None,
{
    reveal_strlit(">=");
    reveal_strlit("<=");
    reveal_strlit("!=");
    reveal_strlit("=");
    let term = key + operator + value;
    let at = key.len() + operator.len() - 1;
    assert(operator.last() == '=');
    assert(term[at] == '=');
    assert forall|i: int| 0 <= i < term.len() && i != at implies #[trigger] term[i] != '=' by {
        if i < key.len() {
            assert(term[i] == key[i]);
        } else if i < at {
            assert(term[i] == operator[0]);
        } else {
            assert(term[i] == value[i - at - 1]);
        }
    }
    assert(term.subrange(key.len() as int, at + 1) =~= operator);
    cut_at_the_only_place(term, operator, key.len() as int);
    assert(term.take(key.len() as int) =~= key);
    assert(term.skip(at + 1) =~= value);
    if operator.len() == 1 {
        assert(term[at - 1] == key.last());
    } else {
        assert(term[at - 1] == operator[0]);
    }
    if operator != ">="@ {
        not_cut(term, ">="@, at);
    }
    if operator != "<="@ {
        not_cut(term, "<="@, at);
    }
    if operator != "!="@ {
        not_cut(term, "!="@, at);
    }
}

/// A term of a key, an operator and a value is read by its operator.
proof fn read_by_its_operator(key: Seq<char>, operator: Seq<char>, value: Seq<char>)
    requires
        !key.contains('='),
        !value.contains('='),
        key.len() > 0,
        is_bare(key),
        key.last() != '>' && key.last() != '<' && key.last() != '!',
        operator == ">="@ || operator == "<="@ || operator == "!="@ || operator == "="@,
    ensures
        ({
            let term = key + operator + value;
            &&& operator == ">="@ ==> need_in(term) == at_least_need(term, key, value)
            &&& operator == "<="@ ==> need_in(term) == at_most_need(term, key, value)
            &&& operator == "!="@ ==> need_in(term) == not_need(term, key, value)
            &&& operator == "="@ ==> need_in(term) == exact_need(term, key, value)
        }),
{
    cut_at_its_operator(key, operator, value);
    bare_texts_stay(key);
    reveal_strlit(">=");
    reveal_strlit("<=");
    reveal_strlit("!=");
    reveal_strlit("=");
    assert(">="@[0] == '>' && "<="@[0] == '<' && "!="@[0] == '!' && "="@.len() == 1);
}

/// The keys of terms are bare, free of operators, and differ.
proof fn keys_are_plain()
    ensures
        forall|key: Seq<char>|
            #![trigger is_bare(key)]
            key == "ctx"@ || key == "context"@ || key == "cost"@ || key == "batchAt"@ || key
                == "vendor"@ || key == "provider"@ || key == "modality"@ ==> {
                &&& is_bare(key)
                &&& key.len() > 0
                &&& !key.contains('=')
                &&& key.last() != '>' && key.last() != '<' && key.last() != '!'
            },
        "cost"@ != "batchAt"@ && "cost"@ != "modality"@ && "cost"@ != "vendor"@ && "cost"@
            != "provider"@,
        "modality"@ != "vendor"@ && "modality"@ != "provider"@ && "vendor"@ != "provider"@,
{
    reveal_strlit("ctx");
    reveal_strlit("context");
    reveal_strlit("cost");
    reveal_strlit("batchAt");
    reveal_strlit("vendor");
    reveal_strlit("provider");
    reveal_strlit("modality");
    assert("cost"@.len() == 4 && "batchAt"@.len() == 7 && "vendor"@.len() == 6 && "provider"@.len()
        == 8 && "modality"@.len() == 8);
    assert("provider"@[0] == 'p' && "modality"@[0] == 'm');
}

proof fn numbers_are_plain(n: u64)
    ensures
        is_bare(decimal(n as nat)),
        decimal(n as nat).len() > 0,
        trimmed(decimal(n as nat)) == decimal(n as nat),
        natural_in(decimal(n as nat)) == Some(n),
        forall|c: char| decimal(n as nat).contains(c) ==> is_digit(c),
        decimal(n as nat).last() != 'k' && decimal(n as nat).last() != 'K',
{
    let digits = decimal(n as nat);
    a_written_number_reads_back(n);
    written_in_digits(n as nat);
    assert(is_digit(digits[0]) && is_digit(digits[digits.len() - 1]));
    bare_texts_stay(digits);
}

/// A term asks what it says: a window of at least so many tokens (`k` counts 1024s), a tier
/// of at most or exactly this one, a load shape, a modality, a vendor or a provider that is
/// or is not this one, tools, or JSON.
pub proof fn a_term_asks_what_it_says(value: Seq<char>, n: u64, k: int)
    requires
        is_bare(value),
        !value.contains('='),
        0 <= k < 3,
    ensures
        need_in("ctx>="@ + decimal(n as nat)) == Ok::<NeedView, ErrorView>(
            NeedView::ContextAtLeast(n),
        ),
        need_in("context>="@ + decimal(n as nat)) == Ok::<NeedView, ErrorView>(
            NeedView::ContextAtLeast(n),
        ),
        n * 1024 <= u64::MAX ==> need_in("ctx>="@ + decimal(n as nat) + "k"@) == Ok::<
            NeedView,
            ErrorView,
        >(NeedView::ContextAtLeast((n * 1024) as u64)),
        need_in("cost<="@ + tiers()[k]) == Ok::<NeedView, ErrorView>(
            NeedView::CostAtMost(k as u8),
        ),
        need_in("cost="@ + tiers()[k]) == Ok::<NeedView, ErrorView>(
            NeedView::CostExactly(k as u8),
        ),
        need_in("batchAt<="@ + decimal(n as nat)) == Ok::<NeedView, ErrorView>(
            NeedView::BatchAtMost(n),
        ),
        need_in("modality="@ + value) == Ok::<NeedView, ErrorView>(NeedView::Modality(value)),
        need_in("vendor="@ + value) == Ok::<NeedView, ErrorView>(NeedView::VendorIs(value)),
        need_in("vendor!="@ + value) == Ok::<NeedView, ErrorView>(NeedView::VendorNot(value)),
        need_in("provider="@ + value) == Ok::<NeedView, ErrorView>(NeedView::ProviderIs(value)),
        need_in("provider!="@ + value) == Ok::<NeedView, ErrorView>(NeedView::ProviderNot(value)),
        need_in("tools"@) == Ok::<NeedView, ErrorView>(NeedView::Tools),
        need_in("json"@) == Ok::<NeedView, ErrorView>(NeedView::Json),
        need_in("text"@) == Ok::<NeedView, ErrorView>(NeedView::Modality("text"@)),
        need_in("vision"@) == Ok::<NeedView, ErrorView>(NeedView::Modality("vision"@)),
        need_in("audio"@) == Ok::<NeedView, ErrorView>(NeedView::Modality("audio"@)),
{
    counted_terms(n);
    tier_terms(k);
    named_terms(value);
    bare_terms();
}

proof fn counted_terms(n: u64)
    ensures
        need_in("ctx>="@ + decimal(n as nat)) == Ok::<NeedView, ErrorView>(
            NeedView::ContextAtLeast(n),
        ),
        need_in("context>="@ + decimal(n as nat)) == Ok::<NeedView, ErrorView>(
            NeedView::ContextAtLeast(n),
        ),
        n * 1024 <= u64::MAX ==> need_in("ctx>="@ + decimal(n as nat) + "k"@) == Ok::<
            NeedView,
            ErrorView,
        >(NeedView::ContextAtLeast((n * 1024) as u64)),
        need_in("batchAt<="@ + decimal(n as nat)) == Ok::<NeedView, ErrorView>(
            NeedView::BatchAtMost(n),
        ),
{
    let digits = decimal(n as nat);
    keys_are_plain();
    numbers_are_plain(n);
    keys_with_operators();
    assert(!digits.contains('=')) by {
        assert(!is_digit('='));
    }
    assert(is_bare("ctx"@) && is_bare("context"@) && is_bare("batchAt"@));
    read_by_its_operator("ctx"@, ">="@, digits);
    read_by_its_operator("context"@, ">="@, digits);
    read_by_its_operator("batchAt"@, "<="@, digits);
    let thousands = digits + "k"@;
    reveal_strlit("k");
    assert(thousands.last() == 'k');
    assert(thousands.first() == digits.first());
    assert(thousands.drop_last() =~= digits);
    assert(!thousands.contains('=')) by {
        if thousands.contains('=') {
            let i = choose|i: int| 0 <= i < thousands.len() && thousands[i] == '=';
            assert(digits[i] == '=');
        }
    }
    bare_texts_stay(thousands);
    read_by_its_operator("ctx"@, ">="@, thousands);
    assert("ctx>="@ + digits + "k"@ =~= "ctx"@ + ">="@ + thousands);
}

/// The terms' beginnings are the keys with their operators.
proof fn keys_with_operators()
    ensures
        "ctx>="@ == "ctx"@ + ">="@,
        "context>="@ == "context"@ + ">="@,
        "batchAt<="@ == "batchAt"@ + "<="@,
        "cost<="@ == "cost"@ + "<="@,
        "cost="@ == "cost"@ + "="@,
        "modality="@ == "modality"@ + "="@,
        "vendor="@ == "vendor"@ + "="@,
        "vendor!="@ == "vendor"@ + "!="@,
        "provider="@ == "provider"@ + "="@,
        "provider!="@ == "provider"@ + "!="@,
{
    reveal_strlit(">=");
    reveal_strlit("<=");
    reveal_strlit("!=");
    reveal_strlit("=");
    reveal_strlit("ctx");
    reveal_strlit("context");
    reveal_strlit("batchAt");
    reveal_strlit("cost");
    reveal_strlit("modality");
    reveal_strlit("vendor");
    reveal_strlit("provider");
    reveal_strlit("ctx>=");
    reveal_strlit("context>=");
    reveal_strlit("batchAt<=");
    reveal_strlit("cost<=");
    reveal_strlit("cost=");
    reveal_strlit("modality=");
    reveal_strlit("vendor=");
    reveal_strlit("vendor!=");
    reveal_strlit("provider=");
    reveal_strlit("provider!=");
    assert("ctx>="@ =~= "ctx"@ + ">="@);
    assert("context>="@ =~= "context"@ + ">="@);
    assert("batchAt<="@ =~= "batchAt"@ + "<="@);
    assert("cost<="@ =~= "cost"@ + "<="@);
    assert("cost="@ =~= "cost"@ + "="@);
    assert("modality="@ =~= "modality"@ + "="@);
    assert("vendor="@ =~= "vendor"@ + "="@);
    assert("vendor!="@ =~= "vendor"@ + "!="@);
    assert("provider="@ =~= "provider"@ + "="@);
    assert("provider!="@ =~= "provider"@ + "!="@);
}

proof fn tier_terms(k: int)
    requires
        0 <= k < 3,
    ensures
        need_in("cost<="@ + tiers()[k]) == Ok::<NeedView, ErrorView>(
            NeedView::CostAtMost(k as u8),
        ),
        need_in("cost="@ + tiers()[k]) == Ok::<NeedView, ErrorView>(
            NeedView::CostExactly(k as u8),
        ),
{
    let tier = tiers()[k];
    keys_are_plain();
    keys_with_operators();
    tiers_rank_in_order(tier);
    assert(tier == "local"@ || tier == "cheap"@ || tier == "premium"@);
    assert(is_bare(tier) && !tier.contains('=')) by {
        reveal_strlit("local");
        reveal_strlit("cheap");
        reveal_strlit("premium");
    }
    bare_texts_stay(tier);
    assert(is_bare("cost"@));
    read_by_its_operator("cost"@, "<="@, tier);
    read_by_its_operator("cost"@, "="@, tier);
}

proof fn named_terms(value: Seq<char>)
    requires
        is_bare(value),
        !value.contains('='),
    ensures
        need_in("modality="@ + value) == Ok::<NeedView, ErrorView>(NeedView::Modality(value)),
        need_in("vendor="@ + value) == Ok::<NeedView, ErrorView>(NeedView::VendorIs(value)),
        need_in("vendor!="@ + value) == Ok::<NeedView, ErrorView>(NeedView::VendorNot(value)),
        need_in("provider="@ + value) == Ok::<NeedView, ErrorView>(NeedView::ProviderIs(value)),
        need_in("provider!="@ + value) == Ok::<NeedView, ErrorView>(NeedView::ProviderNot(value)),
{
    keys_are_plain();
    keys_with_operators();
    bare_texts_stay(value);
    assert(is_bare("modality"@) && is_bare("vendor"@) && is_bare("provider"@));
    read_by_its_operator("modality"@, "="@, value);
    read_by_its_operator("vendor"@, "="@, value);
    read_by_its_operator("vendor"@, "!="@, value);
    read_by_its_operator("provider"@, "="@, value);
    read_by_its_operator("provider"@, "!="@, value);
}

/// A text without an equals sign holds no operator.
proof fn no_operator_within(term: Seq<char>)
    requires
        !term.contains('='),
    ensures
        need_in(term) == bare_need(term),
{
    reveal_strlit("=");
    reveal_strlit("!=");
    reveal_strlit("<=");
    reveal_strlit(">=");
    not_cut(term, ">="@, -1);
    not_cut(term, "<="@, -1);
    not_cut(term, "!="@, -1);
    a_text_is_cut_at_the_first_place(term, "="@);
    if let Some((before, after)) = cut_at(term, "="@) {
        assert(term[before.len() as int] == '=');
    }
}

proof fn bare_terms()
    ensures
        need_in("tools"@) == Ok::<NeedView, ErrorView>(NeedView::Tools),
        need_in("json"@) == Ok::<NeedView, ErrorView>(NeedView::Json),
        need_in("text"@) == Ok::<NeedView, ErrorView>(NeedView::Modality("text"@)),
        need_in("vision"@) == Ok::<NeedView, ErrorView>(NeedView::Modality("vision"@)),
        need_in("audio"@) == Ok::<NeedView, ErrorView>(NeedView::Modality("audio"@)),
{
    reveal_strlit("tools");
    reveal_strlit("json");
    reveal_strlit("text");
    reveal_strlit("vision");
    reveal_strlit("audio");
    assert("tools"@[0] == 't' && "json"@[0] == 'j' && "text"@.len() == 4 && "vision"@[0] == 'v'
        && "audio"@[0] == 'a' && "tools"@.len() == 5);
    no_operator_within("tools"@);
    no_operator_within("json"@);
    no_operator_within("text"@);
    no_operator_within("vision"@);
    no_operator_within("audio"@);
}

/// A term that is none of the traits, without an operator, states no requirement.
pub proof fn an_unknown_word_is_no_requirement(term: Seq<char>)
    requires
        !term.contains('='),
        term != "tools"@ && term != "json"@ && term != "text"@ && term != "vision"@ && term
            != "audio"@,
    ensures
        need_in(term) is Err,
{
    no_operator_within(term);
}

/// Whether an expression holds a term: alone, or parted from the rest by commas.
pub open spec fn holds_term(expr: Seq<char>, term: Seq<char>) -> bool {
    ||| expr == term
    ||| exists|right: Seq<char>| expr == #[trigger] (term.push(',') + right)
    ||| exists|left: Seq<char>| expr == #[trigger] (left.push(',') + term)
    ||| exists|left: Seq<char>, right: Seq<char>|
        expr == #[trigger] (left.push(',') + (term.push(',') + right))
}

proof fn a_piece_alone(text: Seq<char>, mark: char)
    requires
        !text.contains(mark),
    ensures
        pieces(text, mark) == seq![text],
    decreases text.len(),
{
    if text.len() > 0 {
        let head = text.drop_last();
        assert(!head.contains(mark)) by {
            if head.contains(mark) {
                let i = choose|i: int| 0 <= i < head.len() && head[i] == mark;
                assert(text[i] == mark);
            }
        }
        assert(text[text.len() - 1] == text.last());
        a_piece_alone(head, mark);
        assert(seq![head].drop_last() =~= Seq::<Seq<char>>::empty());
        assert(head.push(text.last()) =~= text);
        assert(pieces(text, mark) =~= seq![text]);
    } else {
        assert(pieces(text, mark) =~= seq![text]);
    }
}

/// What a term of an expression asks for is among what the expression asks for.
pub proof fn an_expression_asks_for_each_of_its_terms(expr: Seq<char>, term: Seq<char>)
    requires
        holds_term(expr, term),
        term.len() > 0,
        is_bare(term),
        !term.contains(','),
    ensures
        needs_in(expr) matches Ok(needs) ==> need_in(term) is Ok && needs.contains(
            need_in(term)->Ok_0,
        ),
        need_in(term) is Err ==> needs_in(expr) is Err,
{
    a_piece_alone(term, ',');
    bare_texts_stay(term);
    assert(seq![term].drop_last() =~= Seq::<Seq<char>>::empty());
    assert(needs_of(seq![term].drop_last()) == Ok::<Seq<NeedView>, ErrorView>(Seq::empty()));
    if let Ok(need) = need_in(term) {
        assert(needs_in(term) == Ok::<Seq<NeedView>, ErrorView>(
            Seq::<NeedView>::empty().push(need),
        ));
        assert(Seq::<NeedView>::empty().push(need)[0] == need);
    }
    if expr == term {
    } else if exists|right: Seq<char>| expr == #[trigger] (term.push(',') + right) {
        let right = choose|right: Seq<char>| expr == #[trigger] (term.push(',') + right);
        expressions_join_at_a_comma(term, right);
        asked_first(term, right);
    } else if exists|left: Seq<char>| expr == #[trigger] (left.push(',') + term) {
        let left = choose|left: Seq<char>| expr == #[trigger] (left.push(',') + term);
        expressions_join_at_a_comma(left, term);
        asked_last(left, term);
    } else {
        let (left, right) = choose|left: Seq<char>, right: Seq<char>|
            expr == #[trigger] (left.push(',') + (term.push(',') + right));
        let rest = term.push(',') + right;
        expressions_join_at_a_comma(term, right);
        expressions_join_at_a_comma(left, rest);
        asked_first(term, right);
        asked_last(left, rest);
    }
}

proof fn asked_first(left: Seq<char>, right: Seq<char>)
    ensures
        needs_in(left) is Ok && needs_in(right) is Ok ==> forall|need: NeedView|
            needs_in(left)->Ok_0.contains(need) ==> #[trigger] (needs_in(left)->Ok_0 + needs_in(
                right,
            )->Ok_0).contains(need),
{
    let first = needs_in(left)->Ok_0;
    let second = needs_in(right)->Ok_0;
    assert forall|need: NeedView| first.contains(need) implies #[trigger] (first
        + second).contains(need) by {
        let i = choose|i: int| 0 <= i < first.len() && first[i] == need;
        assert((first + second)[i] == need);
    }
}

proof fn asked_last(left: Seq<char>, right: Seq<char>)
    ensures
        needs_in(left) is Ok && needs_in(right) is Ok ==> forall|need: NeedView|
            needs_in(right)->Ok_0.contains(need) ==> #[trigger] (needs_in(left)->Ok_0 + needs_in(
                right,
            )->Ok_0).contains(need),
{
    let first = needs_in(left)->Ok_0;
    let second = needs_in(right)->Ok_0;
    assert forall|need: NeedView| second.contains(need) implies #[trigger] (first
        + second).contains(need) by {
        let i = choose|i: int| 0 <= i < second.len() && second[i] == need;
        assert((first + second)[first.len() + i] == need);
    }
}

} // verus!
