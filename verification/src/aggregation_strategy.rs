//! Aggregation of the prices submitted to a round into one price.
use vstd::prelude::*;

use crate::ocw_oracle::{Error, OracleView, Pallet, PriceDetailOf};
use crate::types::{
    AccountId, AggregationStrategyEnum, CurrencyId, DataSourceEnum, PriceDetail, RoundIndex,
};

verus! {

/// The price that `p` read from `s` for `c`, if `p`'s newest record of it
/// belongs to round `index`.
pub open spec fn round_price_of(
    ocw: Map<(AccountId, DataSourceEnum, CurrencyId), Seq<PriceDetailOf>>,
    p: AccountId,
    s: DataSourceEnum,
    c: CurrencyId,
    index: RoundIndex,
) -> Option<PriceDetail> {
    match ocw.get((p, s, c)) {
        Some(h) => if h.len() > 0 && h.last().index == index {
            Some((h.last().price, h.last().timestamp))
        } else {
            None
        },
        None => None,
    }
}

/// The round prices that `p` read for `c` from the sources `sources`, in order.
pub open spec fn source_prices(
    ocw: Map<(AccountId, DataSourceEnum, CurrencyId), Seq<PriceDetailOf>>,
    sources: Seq<DataSourceEnum>,
    p: AccountId,
    c: CurrencyId,
    index: RoundIndex,
) -> Seq<PriceDetail>
    decreases sources.len(),
{
    if sources.len() == 0 {
        seq![]
    } else {
        let prev = source_prices(ocw, sources.drop_last(), p, c, index);
        match round_price_of(ocw, p, sources.last(), c, index) {
            Some(d) => prev.push(d),
            None => prev,
        }
    }
}

/// The prices submitted to round `index` of `c` by the providers, provider by
/// provider and source by source.
pub open spec fn round_prices(
    ocw: Map<(AccountId, DataSourceEnum, CurrencyId), Seq<PriceDetailOf>>,
    sources: Seq<DataSourceEnum>,
    provider: Seq<AccountId>,
    c: CurrencyId,
    index: RoundIndex,
) -> Seq<PriceDetail>
    decreases provider.len(),
{
    if provider.len() == 0 {
        seq![]
    } else {
        round_prices(ocw, sources, provider.drop_last(), c, index) + source_prices(
            ocw,
            sources,
            provider.last(),
            c,
            index,
        )
    }
}

/// `s` with `x` inserted after every element whose price is at most `x`'s
/// and before the rest of them at the end.
spec fn insert_by_price(s: Seq<PriceDetail>, x: PriceDetail) -> Seq<PriceDetail>
    decreases s.len(),
{
    if s.len() == 0 {
        seq![x]
    } else if s.last().0 <= x.0 {
        s.push(x)
    } else {
        insert_by_price(s.drop_last(), x).push(s.last())
    }
}

/// `s` stably sorted by price, in ascending order, as insertion sort builds it.
spec fn sort_by_price(s: Seq<PriceDetail>) -> Seq<PriceDetail>
    decreases s.len(),
{
    if s.len() == 0 {
        seq![]
    } else {
        insert_by_price(sort_by_price(s.drop_last()), s.last())
    }
}

/// The prices of `s` equal to `v`, in order.
pub open spec fn with_price(s: Seq<PriceDetail>, v: u128) -> Seq<PriceDetail>
    decreases s.len(),
{
    if s.len() == 0 {
        seq![]
    } else if s.last().0 == v {
        with_price(s.drop_last(), v).push(s.last())
    } else {
        with_price(s.drop_last(), v)
    }
}

/// `v` is the price at position `k` of `s` sorted by price: fewer than `k + 1`
/// prices lie below it and more than `k` are at most it.
pub open spec fn is_price_at(s: Seq<PriceDetail>, v: u128, k: int) -> bool {
    count_below(s, v) <= k < count_at_most(s, v)
}

/// The median of `s`: the element at position `len / 2` (the upper middle for
/// an even count) of `s` sorted stably by price. Its price `v` is the one at
/// that position; among the elements priced `v` it is the one at the
/// remaining offset, in the order of `s`. An error for no prices.
pub open spec fn median_of(s: Seq<PriceDetail>) -> Result<PriceDetail, Error> {
    if s.len() == 0 {
        Err(Error::EmptyPriceList)
    } else {
        let k = (s.len() / 2) as int;
        let v = choose|v: u128| is_price_at(s, v, k);
        Ok(with_price(s, v)[k - count_below(s, v)])
    }
}


/// How many prices of `s` are below `v`.
pub open spec fn count_below(s: Seq<PriceDetail>, v: u128) -> nat
    decreases s.len(),
{
    if s.len() == 0 {
        0
    } else {
        count_below(s.drop_last(), v) + if s.last().0 < v {
            1nat
        } else {
            0nat
        }
    }
}

/// How many prices of `s` are at most `v`.
pub open spec fn count_at_most(s: Seq<PriceDetail>, v: u128) -> nat
    decreases s.len(),
{
    if s.len() == 0 {
        0
    } else {
        count_at_most(s.drop_last(), v) + if s.last().0 <= v {
            1nat
        } else {
            0nat
        }
    }
}

/// The prices of `s` never decrease.
pub open spec fn sorted_by_price(s: Seq<PriceDetail>) -> bool {
    forall|i: int, j: int| 0 <= i <= j < s.len() ==> s[i].0 <= s[j].0
}

proof fn lemma_insert_contents(s: Seq<PriceDetail>, x: PriceDetail, v: u128)
    ensures
        insert_by_price(s, x).len() == s.len() + 1,
        count_below(insert_by_price(s, x), v) == count_below(s, v) + if x.0 < v {
            1nat
        } else {
            0nat
        },
        count_at_most(insert_by_price(s, x), v) == count_at_most(s, v) + if x.0 <= v {
            1nat
        } else {
            0nat
        },
        forall|y: PriceDetail| #[trigger]
            insert_by_price(s, x).contains(y) <==> s.contains(y) || y == x,
        sorted_by_price(s) ==> sorted_by_price(insert_by_price(s, x)),
    decreases s.len(),
{
    let t = insert_by_price(s, x);
    if s.len() == 0 {
        assert(t.drop_last() =~= s);
        assert forall|y: PriceDetail| #[trigger] t.contains(y) <==> s.contains(y) || y == x by {
            if y == x {
                assert(t[0] == x);
            }
        }
    } else if s.last().0 <= x.0 {
        assert(t.drop_last() =~= s);
        assert forall|y: PriceDetail| #[trigger] t.contains(y) <==> s.contains(y) || y == x by {
            if y == x {
                assert(t[s.len() as int] == x);
            }
            if s.contains(y) {
                let i = choose|i: int| 0 <= i < s.len() && s[i] == y;
                assert(t[i] == y);
            }
            if t.contains(y) && y != x {
                let i = choose|i: int| 0 <= i < t.len() && t[i] == y;
                assert(s[i] == y);
            }
        }
    } else {
        let d = s.drop_last();
        lemma_insert_contents(d, x, v);
        let u = insert_by_price(d, x);
        assert(t == u.push(s.last()));
        assert(t.drop_last() =~= u);
        assert forall|y: PriceDetail| #[trigger] t.contains(y) <==> s.contains(y) || y == x by {
            if t.contains(y) {
                let i = choose|i: int| 0 <= i < t.len() && t[i] == y;
                if i < u.len() {
                    assert(u.contains(y));
                    if d.contains(y) {
                        let j = choose|j: int| 0 <= j < d.len() && d[j] == y;
                        assert(s[j] == y);
                    }
                } else {
                    assert(s[s.len() - 1] == y);
                }
            }
            if s.contains(y) {
                let i = choose|i: int| 0 <= i < s.len() && s[i] == y;
                if i < d.len() {
                    assert(d[i] == y);
                    assert(u.contains(y));
                    let j = choose|j: int| 0 <= j < u.len() && u[j] == y;
                    assert(t[j] == y);
                } else {
                    assert(t[t.len() - 1] == y);
                }
            }
            if y == x {
                assert(u.contains(x));
                let j = choose|j: int| 0 <= j < u.len() && u[j] == x;
                assert(t[j] == x);
            }
        }
        if sorted_by_price(s) {
            assert(sorted_by_price(d));
            assert forall|i: int, j: int| 0 <= i <= j < t.len() implies t[i].0 <= t[j].0 by {
                if j == t.len() - 1 && i < j {
                    let y = u[i];
                    assert(u.contains(y));
                    if y != x {
                        let k = choose|k: int| 0 <= k < d.len() && d[k] == y;
                        assert(s[k] == y);
                    }
                }
            }
        }
    }
}

proof fn lemma_sort_contents(s: Seq<PriceDetail>, v: u128)
    ensures
        sort_by_price(s).len() == s.len(),
        count_below(sort_by_price(s), v) == count_below(s, v),
        count_at_most(sort_by_price(s), v) == count_at_most(s, v),
        forall|y: PriceDetail| #[trigger] sort_by_price(s).contains(y) <==> s.contains(y),
        sorted_by_price(sort_by_price(s)),
    decreases s.len(),
{
    if s.len() > 0 {
        let d = s.drop_last();
        lemma_sort_contents(d, v);
        lemma_insert_contents(sort_by_price(d), s.last(), v);
        assert forall|y: PriceDetail| #[trigger] sort_by_price(s).contains(y) <==> s.contains(y) by {
            if d.contains(y) {
                let i = choose|i: int| 0 <= i < d.len() && d[i] == y;
                assert(s[i] == y);
            }
            if s.contains(y) {
                let i = choose|i: int| 0 <= i < s.len() && s[i] == y;
                if i < d.len() {
                    assert(d[i] == y);
                }
            }
        }
    } else {
        assert(sort_by_price(s) =~= s);
    }
}

proof fn lemma_count_bounds(s: Seq<PriceDetail>, v: u128)
    ensures
        count_below(s, v) <= s.len(),
        count_at_most(s, v) <= s.len(),
        (forall|i: int| 0 <= i < s.len() ==> s[i].0 <= v) ==> count_at_most(s, v) == s.len(),
    decreases s.len(),
{
    if s.len() > 0 {
        lemma_count_bounds(s.drop_last(), v);
        if forall|i: int| 0 <= i < s.len() ==> s[i].0 <= v {
            assert forall|i: int| 0 <= i < s.drop_last().len() implies s.drop_last()[i].0 <= v by {
                assert(s[i].0 <= v);
            }
        }
    }
}

proof fn lemma_sorted_counts(s: Seq<PriceDetail>, k: int)
    requires
        sorted_by_price(s),
        0 <= k < s.len(),
    ensures
        count_below(s, s[k].0) <= k,
        count_at_most(s, s[k].0) >= k + 1,
    decreases s.len(),
{
    let m = s[k].0;
    let d = s.drop_last();
    if k == s.len() - 1 {
        lemma_count_bounds(d, m);
        assert forall|i: int| 0 <= i < d.len() implies d[i].0 <= m by {
            assert(s[i].0 <= s[k].0);
        }
    } else {
        assert(sorted_by_price(d));
        assert(d[k] == s[k]);
        lemma_sorted_counts(d, k);
        assert(s[k].0 <= s.last().0);
    }
}

proof fn lemma_with_price_len(s: Seq<PriceDetail>, v: u128)
    ensures
        with_price(s, v).len() == count_at_most(s, v) - count_below(s, v),
        count_below(s, v) <= count_at_most(s, v),
    decreases s.len(),
{
    if s.len() > 0 {
        lemma_with_price_len(s.drop_last(), v);
    }
}

proof fn lemma_with_price_insert(s: Seq<PriceDetail>, x: PriceDetail, v: u128)
    ensures
        with_price(insert_by_price(s, x), v) == if x.0 == v {
            with_price(s, v).push(x)
        } else {
            with_price(s, v)
        },
    decreases s.len(),
{
    let t = insert_by_price(s, x);
    if s.len() == 0 {
        assert(t.drop_last() =~= s);
    } else if s.last().0 <= x.0 {
        assert(t.drop_last() =~= s);
    } else {
        let d = s.drop_last();
        lemma_with_price_insert(d, x, v);
        assert(t.drop_last() =~= insert_by_price(d, x));
        if x.0 == v {
            assert(with_price(t, v) =~= with_price(s, v).push(x));
        }
    }
}

proof fn lemma_with_price_sort(s: Seq<PriceDetail>, v: u128)
    ensures
        with_price(sort_by_price(s), v) == with_price(s, v),
    decreases s.len(),
{
    if s.len() > 0 {
        lemma_with_price_sort(s.drop_last(), v);
        lemma_with_price_insert(sort_by_price(s.drop_last()), s.last(), v);
    } else {
        assert(sort_by_price(s) =~= s);
    }
}

proof fn lemma_sorted_with_price_index(t: Seq<PriceDetail>, i: int)
    requires
        sorted_by_price(t),
        0 <= i < t.len(),
    ensures
        count_below(t, t[i].0) <= i < count_below(t, t[i].0) + with_price(t, t[i].0).len(),
        with_price(t, t[i].0)[i - count_below(t, t[i].0)] == t[i],
    decreases t.len(),
{
    let v = t[i].0;
    let d = t.drop_last();
    lemma_sorted_counts(t, i);
    lemma_with_price_len(t, v);
    if i == t.len() - 1 {
        lemma_with_price_len(d, v);
        lemma_count_bounds(d, v);
        assert forall|j: int| 0 <= j < d.len() implies d[j].0 <= v by {
            assert(t[j].0 <= t[i].0);
        }
    } else {
        assert(sorted_by_price(d));
        assert(d[i] == t[i]);
        lemma_sorted_with_price_index(d, i);
        assert(t[i].0 <= t.last().0);
    }
}

proof fn lemma_counts_ordered(s: Seq<PriceDetail>, v1: u128, v2: u128)
    requires
        v1 < v2,
    ensures
        count_at_most(s, v1) <= count_below(s, v2),
    decreases s.len(),
{
    if s.len() > 0 {
        lemma_counts_ordered(s.drop_last(), v1, v2);
    }
}

proof fn lemma_median_sorted(s: Seq<PriceDetail>)
    requires
        s.len() > 0,
    ensures
        sort_by_price(s).len() == s.len(),
        median_of(s) == Ok::<PriceDetail, Error>(sort_by_price(s)[(s.len() / 2) as int]),
{
    let k = (s.len() / 2) as int;
    let t = sort_by_price(s);
    lemma_sort_contents(s, 0);
    let m = t[k];
    let v = m.0;
    lemma_sort_contents(s, v);
    lemma_sorted_counts(t, k);
    assert(is_price_at(s, v, k));
    let w = choose|w: u128| is_price_at(s, w, k);
    if w < v {
        lemma_counts_ordered(s, w, v);
    } else if v < w {
        lemma_counts_ordered(s, v, w);
    }
    assert(w == v);
    lemma_with_price_sort(s, v);
    lemma_sorted_with_price_index(t, k);
}

/// The median of a round's prices is one of them, at most half of them lie
/// below it, and more than half of them are at most it.
pub proof fn median_splits_prices(s: Seq<PriceDetail>)
    requires
        s.len() > 0,
    ensures
        median_of(s) matches Ok(m) && s.contains(m) && count_below(s, m.0) <= s.len() / 2
            && count_at_most(s, m.0) > s.len() / 2,
{
    lemma_median_sorted(s);
    let k = (s.len() / 2) as int;
    let m = sort_by_price(s)[k];
    lemma_sort_contents(s, m.0);
    lemma_sorted_counts(sort_by_price(s), k);
    assert(sort_by_price(s).contains(m));
}

/// The newest record of a provider's history for a source and currency is
/// the one counted for the round it belongs to: with that provider and that
/// source alone, the round's prices are exactly that record's price and
/// timestamp, whatever older records the history holds, and the median is it.
pub proof fn newest_record_counts_for_its_round(
    v: OracleView,
    p: AccountId,
    s: DataSourceEnum,
    c: CurrencyId,
    h: Seq<PriceDetailOf>,
    x: PriceDetailOf,
)
    requires
        v.ocw_prices.contains_key((p, s, c)),
        v.ocw_prices[(p, s, c)] == h.push(x),
        v.data_sources == seq![s],
    ensures
        round_prices(v.ocw_prices, seq![s], seq![p], c, x.index) == seq![(x.price, x.timestamp)],
        aggregate_spec(v, AggregationStrategyEnum::MEDIAN, x.index, seq![p], c) == Ok::<
            PriceDetail,
            Error,
        >((x.price, x.timestamp)),
{
    let d = (x.price, x.timestamp);
    let ss = seq![s];
    let ps = seq![p];
    assert(ss.drop_last() =~= Seq::<DataSourceEnum>::empty());
    assert(ps.drop_last() =~= Seq::<AccountId>::empty());
    assert(h.push(x).last() == x);
    assert(round_price_of(v.ocw_prices, p, s, c, x.index) == Some(d));
    assert(source_prices(v.ocw_prices, ss.drop_last(), p, c, x.index) == Seq::<PriceDetail>::empty());
    assert(source_prices(v.ocw_prices, ss, p, c, x.index) =~= seq![d]);
    assert(round_prices(v.ocw_prices, ss, ps.drop_last(), c, x.index) == Seq::<PriceDetail>::empty());
    assert(round_prices(v.ocw_prices, ss, ps, c, x.index) =~= seq![d]);
    let one = seq![d];
    lemma_median_sorted(one);
    assert(one.drop_last() =~= Seq::<PriceDetail>::empty());
    assert(sort_by_price(one.drop_last()) == Seq::<PriceDetail>::empty());
    assert(insert_by_price(Seq::<PriceDetail>::empty(), d) == seq![d]);
    assert(sort_by_price(one) =~= seq![d]);
}

/// What aggregating round `index` of `c`, joined by `provider`, gives under `strategy`.
pub open spec fn aggregate_spec(
    v: OracleView,
    strategy: AggregationStrategyEnum,
    index: RoundIndex,
    provider: Seq<AccountId>,
    c: CurrencyId,
) -> Result<PriceDetail, Error> {
    match strategy {
        AggregationStrategyEnum::EMERGENCY => Err(Error::NotImplement),
        AggregationStrategyEnum::MEDIAN => median_of(
            round_prices(v.ocw_prices, v.data_sources, provider, c, index),
        ),
        AggregationStrategyEnum::AVERAGE => Err(Error::NotImplement),
    }
}

proof fn lemma_insert_by_price(s: Seq<PriceDetail>, x: PriceDetail, j: int)
    requires
        0 <= j <= s.len(),
        forall|k: int| j <= k < s.len() ==> s[k].0 > x.0,
        j == 0 || s[j - 1].0 <= x.0,
    ensures
        insert_by_price(s, x) == s.insert(j, x),
    decreases s.len(),
{
    if s.len() == 0 {
        assert(s.insert(j, x) =~= seq![x]);
    } else if j == s.len() {
        assert(s.insert(j, x) =~= s.push(x));
    } else {
        let d = s.drop_last();
        lemma_insert_by_price(d, x, j);
        assert(s.insert(j, x) =~= d.insert(j, x).push(s.last()));
    }
}

/// Inserts `x` into `v` as [`insert_by_price`] says.
fn insert_sorted(v: &mut Vec<PriceDetail>, x: PriceDetail)
    ensures
        final(v)@ == insert_by_price(old(v)@, x),
{
    let mut j: usize = v.len();
    while j > 0 && v[j - 1].0 > x.0
        invariant
            j <= v@.len(),
            v@ == old(v)@,
            forall|k: int| j <= k < v@.len() ==> v@[k].0 > x.0,
        decreases j,
    {
        j = j - 1;
    }
    proof {
        lemma_insert_by_price(v@, x, j as int);
    }
    v.insert(j, x);
}

/// The prices of `list` stably sorted by price, ascending.
fn sort_by_price_exec(list: &Vec<PriceDetail>) -> (r: Vec<PriceDetail>)
    ensures
        r@ == sort_by_price(list@),
{
    let ghost ls = list@;
    let mut sorted: Vec<PriceDetail> = Vec::new();
    let mut i: usize = 0;
    while i < list.len()
        invariant
            i <= ls.len(),
            ls == list@,
            sorted@ == sort_by_price(ls.take(i as int)),
        decreases ls.len() - i,
    {
        assert(ls.take(i + 1).drop_last() =~= ls.take(i as int));
        insert_sorted(&mut sorted, list[i]);
        i = i + 1;
    }
    assert(ls.take(ls.len() as int) =~= ls);
    sorted
}

/// A way of turning the prices submitted to a round into one price.
pub trait AggregationStrategyApi {
    fn aggregate_price(
        pallet: &Pallet,
        round_index: &RoundIndex,
        provider: &Vec<AccountId>,
        currency_id: &CurrencyId,
    ) -> Result<PriceDetail, Error>
    ;
}

/// Aggregation by the median of the round's prices.
pub struct Median;

impl AggregationStrategyApi for Median {
    /// The median (see [`median_of`]) of the prices that the providers
    /// submitted to the round, taking each provider's newest record per data source.
    fn aggregate_price(
        pallet: &Pallet,
        round_index: &RoundIndex,
        provider: &Vec<AccountId>,
        currency_id: &CurrencyId,
    ) -> (r: Result<PriceDetail, Error>)
        ensures
            r == aggregate_spec(
                pallet@,
                AggregationStrategyEnum::MEDIAN,
                *round_index,
                provider@,
                *currency_id,
            ),
    {
        let ghost v = pallet@;
        let ghost ps = provider@;
        let sources = pallet.ocw_oracle_data_source();
        let ghost ss = sources@;
        let c = *currency_id;
        let index = *round_index;
        let mut list: Vec<PriceDetail> = Vec::new();
        let mut i: usize = 0;
        while i < provider.len()
            invariant
                i <= ps.len(),
                ps == provider@,
                ss == sources@,
                ss == v.data_sources,
                v == pallet@,
                list@ == round_prices(v.ocw_prices, ss, ps.take(i as int), c, index),
            decreases ps.len() - i,
        {
            let p = provider[i];
            assert(ps.take(i + 1).drop_last() =~= ps.take(i as int));
            let ghost base = list@;
            let mut j: usize = 0;
            while j < sources.len()
                invariant
                    j <= ss.len(),
                    ss == sources@,
                    v == pallet@,
                    list@ == base + source_prices(v.ocw_prices, ss.take(j as int), p, c, index),
                decreases ss.len() - j,
            {
                let s = sources[j];
                assert(ss.take(j + 1).drop_last() =~= ss.take(j as int));
                let ghost before = list@;
                match pallet.ocw_oracle_price(&p, &(s, c)) {
                    Some(h) => {
                        let len = h.len();
                        if len > 0 {
                            let last = h[len - 1];
                            if last.index == index {
                                list.push((last.price, last.timestamp));
                            }
                        }
                    },
                    None => {},
                }
                assert(list@ =~= base + source_prices(v.ocw_prices, ss.take(j + 1), p, c, index));
                j = j + 1;
            }
            assert(ss.take(ss.len() as int) =~= ss);
            i = i + 1;
        }
        assert(ps.take(ps.len() as int) =~= ps);
        if list.len() == 0 {
            return Err(Error::EmptyPriceList);
        }
        let sorted = sort_by_price_exec(&list);
        proof {
            lemma_median_sorted(list@);
        }
        Ok(sorted[list.len() / 2])
    }
}

/// Aggregates round `round_index` of `currency_id`, joined by `provider`,
/// under `aggregate_strategy`; only the median is available.
pub fn aggregate_price(
    pallet: &Pallet,
    aggregate_strategy: AggregationStrategyEnum,
    round_index: &RoundIndex,
    provider: &Vec<AccountId>,
    currency_id: &CurrencyId,
) -> (r: Result<PriceDetail, Error>)
    ensures
        r == aggregate_spec(pallet@, aggregate_strategy, *round_index, provider@, *currency_id),
{
    match aggregate_strategy {
        AggregationStrategyEnum::EMERGENCY => Err(Error::NotImplement),
        AggregationStrategyEnum::MEDIAN => Median::aggregate_price(
            pallet,
            round_index,
            provider,
            currency_id,
        ),
        AggregationStrategyEnum::AVERAGE => Err(Error::NotImplement),
    }
}

} // verus!
