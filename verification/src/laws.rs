//! Properties of the pallets that hold across calls.
use vstd::prelude::*;

use crate::aggregation_strategy::aggregate_spec;
use crate::ocw_oracle::{
    after_append_price, dedup_symbols, finalize_all, finalize_currency, history_push,
    is_emergency, record_ticker, record_tickers, reset_last_combined, round_after_submit,
    submit_rounds, Error, Event, OracleView, Pallet, PriceDetailOf, RoundView, TickerPayloadDetail,
    NUM_VEC_LEN,
};
use crate::prices::{price_of, OraclePrice, PricesView, TimeStampedPrice};
use crate::types::{
    AccountId, AggregationStrategyEnum, BlockNumber, CurrencyId, DataSourceEnum, PriceDetail,
    RoundIndex,
};

verus! {

// ----- price histories -----

/// Every kept price history holds between one and `NUM_VEC_LEN` records.
pub open spec fn histories_bounded(
    hist: Map<(AccountId, DataSourceEnum, CurrencyId), Seq<PriceDetailOf>>,
) -> bool {
    forall|k: (AccountId, DataSourceEnum, CurrencyId)| #[trigger]
        hist.contains_key(k) ==> 0 < hist[k].len() <= NUM_VEC_LEN
}

/// Appending to a history of at most `NUM_VEC_LEN` records keeps exactly the
/// newest `NUM_VEC_LEN` (or all, if fewer) records of the history followed by
/// the new one, in order.
pub proof fn history_keeps_newest(h: Seq<PriceDetailOf>, p: PriceDetailOf)
    requires
        h.len() <= NUM_VEC_LEN,
    ensures
        history_push(h, p) == h.push(p).subrange(
            if h.len() + 1 > NUM_VEC_LEN {
                h.len() + 1 - NUM_VEC_LEN
            } else {
                0
            },
            h.len() + 1 as int,
        ),
        history_push(h, p).last() == p,
{
    if h.len() == NUM_VEC_LEN {
        assert(history_push(h, p) =~= h.push(p).subrange(1, h.len() + 1 as int));
    } else {
        assert(history_push(h, p) =~= h.push(p).subrange(0, h.len() + 1 as int));
    }
}

/// Recording tickers keeps every price history between one and
/// `NUM_VEC_LEN` records.
pub proof fn record_tickers_keeps_histories_bounded(
    hist: Map<(AccountId, DataSourceEnum, CurrencyId), Seq<PriceDetailOf>>,
    events: Seq<Event>,
    who: AccountId,
    rb: RoundIndex,
    b: BlockNumber,
    accepted: Seq<CurrencyId>,
    list: Seq<TickerPayloadDetail>,
)
    requires
        histories_bounded(hist),
    ensures
        histories_bounded(record_tickers(hist, events, who, rb, b, accepted, list).0),
    decreases list.len(),
{
    if list.len() > 0 {
        record_tickers_keeps_histories_bounded(hist, events, who, rb, b, accepted, list.drop_last());
        let prev = record_tickers(hist, events, who, rb, b, accepted, list.drop_last());
        let next = record_ticker(prev.0, prev.1, who, rb, b, accepted, list.last());
        assert forall|k: (AccountId, DataSourceEnum, CurrencyId)| #[trigger]
            next.0.contains_key(k) implies 0 < next.0[k].len() <= NUM_VEC_LEN by {
            if prev.0.contains_key(k) {
                assert(0 < prev.0[k].len() <= NUM_VEC_LEN);
            }
        }
    }
}

/// Every kept price history holds at most `NUM_VEC_LEN` records.
pub open spec fn histories_at_most(
    hist: Map<(AccountId, DataSourceEnum, CurrencyId), Seq<PriceDetailOf>>,
) -> bool {
    forall|k: (AccountId, DataSourceEnum, CurrencyId)| #[trigger]
        hist.contains_key(k) ==> hist[k].len() <= NUM_VEC_LEN
}

/// Recording tickers keeps every history at most `NUM_VEC_LEN` records long,
/// and every history it writes holds at least one record.
pub proof fn record_tickers_keeps_histories_at_most(
    hist: Map<(AccountId, DataSourceEnum, CurrencyId), Seq<PriceDetailOf>>,
    events: Seq<Event>,
    who: AccountId,
    rb: RoundIndex,
    b: BlockNumber,
    accepted: Seq<CurrencyId>,
    list: Seq<TickerPayloadDetail>,
)
    requires
        histories_at_most(hist),
    ensures
        histories_at_most(record_tickers(hist, events, who, rb, b, accepted, list).0),
        forall|k: (AccountId, DataSourceEnum, CurrencyId)| #[trigger]
            record_tickers(hist, events, who, rb, b, accepted, list).0.get(k) != hist.get(k)
                ==> record_tickers(hist, events, who, rb, b, accepted, list).0[k].len() > 0,
    decreases list.len(),
{
    if list.len() > 0 {
        record_tickers_keeps_histories_at_most(hist, events, who, rb, b, accepted, list.drop_last());
        let prev = record_tickers(hist, events, who, rb, b, accepted, list.drop_last());
        let next = record_ticker(prev.0, prev.1, who, rb, b, accepted, list.last());
        assert forall|k: (AccountId, DataSourceEnum, CurrencyId)| #[trigger]
            next.0.contains_key(k) implies next.0[k].len() <= NUM_VEC_LEN by {
            if prev.0.contains_key(k) {
                assert(prev.0[k].len() <= NUM_VEC_LEN);
            }
        }
        assert forall|k: (AccountId, DataSourceEnum, CurrencyId)| #[trigger]
            next.0.get(k) != hist.get(k) implies next.0[k].len() > 0 by {
            if next.0.get(k) == prev.0.get(k) {
                assert(prev.0.get(k) != hist.get(k));
            }
        }
    }
}

/// A member's submission keeps every price history at most `NUM_VEC_LEN`
/// records long, and every history it writes holds at least one record.
pub proof fn append_price_keeps_histories_at_most(
    v: OracleView,
    who: AccountId,
    index: RoundIndex,
    list: Seq<TickerPayloadDetail>,
    b: BlockNumber,
)
    requires
        histories_at_most(v.ocw_prices),
    ensures
        histories_at_most(after_append_price(v, who, index, list, b).ocw_prices),
        forall|k: (AccountId, DataSourceEnum, CurrencyId)| #[trigger]
            after_append_price(v, who, index, list, b).ocw_prices.get(k) != v.ocw_prices.get(k)
                ==> after_append_price(v, who, index, list, b).ocw_prices[k].len() > 0,
{
    if index < b {
        let sub = submit_rounds(v.rounds, who, index, b, dedup_symbols(list));
        record_tickers_keeps_histories_at_most(v.ocw_prices, v.events, who, index, b, sub.1, list);
    }
}

/// A submission for a round before the current block updates the rounds of
/// its distinct currencies, in order of first appearance; if no round
/// accepted it nothing else changes, otherwise its tickers of the accepted
/// currencies are recorded and `OffchainInvoke` is deposited. A submission
/// for the current or a later block changes nothing.
pub proof fn append_price_is_round_update_then_recording(
    v: OracleView,
    who: AccountId,
    index: RoundIndex,
    list: Seq<TickerPayloadDetail>,
    b: BlockNumber,
)
    ensures
        index >= b ==> after_append_price(v, who, index, list, b) == v,
        index < b ==> ({
            let sub = submit_rounds(v.rounds, who, index, b, dedup_symbols(list));
            let rec = record_tickers(v.ocw_prices, v.events, who, index, b, sub.1, list);
            let w = after_append_price(v, who, index, list, b);
            &&& w.rounds == sub.0
            &&& w.prices == v.prices && w.request_url == v.request_url
            &&& w.currencies == v.currencies && w.data_sources == v.data_sources
            &&& w.aggregation_strategy == v.aggregation_strategy && w.members == v.members
            &&& sub.1.len() == 0 ==> w.ocw_prices == v.ocw_prices && w.events == v.events
            &&& sub.1.len() > 0 ==> w.ocw_prices == rec.0 && w.events == rec.1.push(
                Event::OffchainInvoke(Some(who), index),
            )
        }),
{
}

/// A member's submission keeps every price history between one and
/// `NUM_VEC_LEN` records.
pub proof fn append_price_keeps_histories_bounded(
    v: OracleView,
    who: AccountId,
    index: RoundIndex,
    list: Seq<TickerPayloadDetail>,
    b: BlockNumber,
)
    requires
        histories_bounded(v.ocw_prices),
    ensures
        histories_bounded(after_append_price(v, who, index, list, b).ocw_prices),
{
    if index < b {
        let sub = submit_rounds(
            v.rounds,
            who,
            index,
            b,
            dedup_symbols(list),
        );
        record_tickers_keeps_histories_bounded(v.ocw_prices, v.events, who, index, b, sub.1, list);
    }
}

/// The last ticker of `list` for data source `s` and currency `c`, if any.
pub open spec fn latest_ticker(list: Seq<TickerPayloadDetail>, s: DataSourceEnum, c: CurrencyId) -> Option<
    TickerPayloadDetail,
>
    decreases list.len(),
{
    if list.len() == 0 {
        None
    } else if list.last().data_source_enum == s && list.last().symbol == c {
        Some(list.last())
    } else {
        latest_ticker(list.drop_last(), s, c)
    }
}

/// Recording a submission makes, for every accepted currency and data source,
/// the last ticker submitted for them the newest record of the submitter's
/// history; every other history is unchanged.
pub proof fn recorded_ticker_is_newest(
    hist: Map<(AccountId, DataSourceEnum, CurrencyId), Seq<PriceDetailOf>>,
    events: Seq<Event>,
    who: AccountId,
    rb: RoundIndex,
    b: BlockNumber,
    accepted: Seq<CurrencyId>,
    list: Seq<TickerPayloadDetail>,
    k: (AccountId, DataSourceEnum, CurrencyId),
)
    ensures
        ({
            let rec = record_tickers(hist, events, who, rb, b, accepted, list).0;
            if k.0 == who && accepted.contains(k.2) && latest_ticker(list, k.1, k.2) is Some {
                let t = latest_ticker(list, k.1, k.2)->0;
                &&& rec.contains_key(k)
                &&& rec[k].len() > 0
                &&& rec[k].last() == (PriceDetailOf {
                    index: rb,
                    blocknumber: b,
                    price: t.price,
                    timestamp: t.timestamp,
                })
            } else {
                rec.get(k) == hist.get(k)
            }
        }),
    decreases list.len(),
{
    if list.len() > 0 {
        recorded_ticker_is_newest(hist, events, who, rb, b, accepted, list.drop_last(), k);
        let prev = record_tickers(hist, events, who, rb, b, accepted, list.drop_last());
        let t = list.last();
        let key = (who, t.data_source_enum, t.symbol);
        if accepted.contains(t.symbol) {
            let p = PriceDetailOf {
                index: rb,
                blocknumber: b,
                price: t.price,
                timestamp: t.timestamp,
            };
            if prev.0.contains_key(key) {
                let h = prev.0[key];
                assert(history_push(h, p).last() == p);
            } else {
                assert(seq![p].last() == p);
            }
        }
    }
}

// ----- rounds -----

/// No account occurs twice among the providers of a round.
pub open spec fn providers_distinct(rounds: Map<CurrencyId, RoundView>) -> bool {
    forall|c: CurrencyId| #[trigger] rounds.contains_key(c) ==> rounds[c].provider.no_duplicates()
}

/// Updating the rounds for a submission never makes an account a provider
/// of a round twice.
pub proof fn submit_rounds_keeps_providers_distinct(
    rounds: Map<CurrencyId, RoundView>,
    who: AccountId,
    rb: RoundIndex,
    b: BlockNumber,
    cs: Seq<CurrencyId>,
)
    requires
        providers_distinct(rounds),
    ensures
        providers_distinct(submit_rounds(rounds, who, rb, b, cs).0),
    decreases cs.len(),
{
    if cs.len() > 0 {
        submit_rounds_keeps_providers_distinct(rounds, who, rb, b, cs.drop_last());
        let prev = submit_rounds(rounds, who, rb, b, cs.drop_last());
        let c = cs.last();
        match round_after_submit(prev.0.get(c), who, rb, b) {
            Some(r) => {
                if prev.0.contains_key(c) && rb == prev.0[c].index {
                    assert(prev.0[c].provider.no_duplicates());
                    assert(r.provider == prev.0[c].provider.push(who));
                    assert(!prev.0[c].provider.contains(who));
                    assert forall|i: int, j: int|
                        0 <= i < r.provider.len() && 0 <= j < r.provider.len() && i != j implies r.provider[i]
                        != r.provider[j] by {
                        if i == r.provider.len() - 1 {
                            assert(prev.0[c].provider[j] == r.provider[j]);
                        } else if j == r.provider.len() - 1 {
                            assert(prev.0[c].provider[i] == r.provider[i]);
                        }
                    }
                } else {
                    assert(r.provider =~= seq![who]);
                }
                let next = prev.0.insert(c, r);
                assert forall|k: CurrencyId| #[trigger]
                    next.contains_key(k) implies next[k].provider.no_duplicates() by {
                    if k != c {
                        assert(prev.0.contains_key(k));
                    }
                }
            },
            None => {},
        }
    }
}

/// Each currency whose round accepted a submission has a round that opened
/// at the submitted round, counts the submitter among its providers and is
/// not yet aggregated; every other currency's round is unchanged.
pub proof fn submit_rounds_join(
    rounds: Map<CurrencyId, RoundView>,
    who: AccountId,
    rb: RoundIndex,
    b: BlockNumber,
    cs: Seq<CurrencyId>,
)
    ensures
        forall|c: CurrencyId| #[trigger]
            submit_rounds(rounds, who, rb, b, cs).1.contains(c) ==> {
                let r = submit_rounds(rounds, who, rb, b, cs).0[c];
                &&& submit_rounds(rounds, who, rb, b, cs).0.contains_key(c)
                &&& r.index == rb
                &&& r.provider.contains(who)
                &&& !r.combined
            },
        forall|c: CurrencyId|
            !#[trigger] submit_rounds(rounds, who, rb, b, cs).1.contains(c) ==> submit_rounds(
                rounds,
                who,
                rb,
                b,
                cs,
            ).0.get(c) == rounds.get(c),
    decreases cs.len(),
{
    if cs.len() > 0 {
        submit_rounds_join(rounds, who, rb, b, cs.drop_last());
        let prev = submit_rounds(rounds, who, rb, b, cs.drop_last());
        let c = cs.last();
        let next = submit_rounds(rounds, who, rb, b, cs);
        match round_after_submit(prev.0.get(c), who, rb, b) {
            Some(r) => {
                assert(next.1 == prev.1.push(c));
                if prev.0.contains_key(c) && rb == prev.0[c].index {
                    assert(r.provider[r.provider.len() - 1] == who);
                } else {
                    assert(r.provider[0] == who);
                }
                assert(r.provider.contains(who));
                assert(r.index == rb && !r.combined);
                assert(next.0 == prev.0.insert(c, r));
                assert forall|k: CurrencyId| #[trigger] next.1.contains(k) implies {
                    let q = next.0[k];
                    &&& next.0.contains_key(k)
                    &&& q.index == rb
                    &&& q.provider.contains(who)
                    &&& !q.combined
                } by {
                    if k != c {
                        let i = choose|i: int| 0 <= i < next.1.len() && next.1[i] == k;
                        assert(prev.1[i] == k);
                        assert(prev.1.contains(k));
                        assert(prev.0.contains_key(k));
                        assert(prev.0[k].index == rb && prev.0[k].provider.contains(who)
                            && !prev.0[k].combined);
                        assert(next.0[k] == prev.0[k]);
                    }
                }
                assert forall|k: CurrencyId| !#[trigger] next.1.contains(k) implies next.0.get(k)
                    == rounds.get(k) by {
                    assert(k != c) by {
                        assert(next.1[next.1.len() - 1] == c);
                    }
                    if prev.1.contains(k) {
                        let i = choose|i: int| 0 <= i < prev.1.len() && prev.1[i] == k;
                        assert(next.1[i] == k);
                    }
                }
            },
            None => {},
        }
    }
}

/// An accepted submission makes the submitter a provider of the round it
/// answered, for every currency whose round accepted it, and that round is
/// open for aggregation; the round of every other currency is unchanged.
pub proof fn append_price_joins_rounds(
    v: OracleView,
    who: AccountId,
    index: RoundIndex,
    list: Seq<TickerPayloadDetail>,
    b: BlockNumber,
    c: CurrencyId,
)
    requires
        index < b,
    ensures
        ({
            let accepted = submit_rounds(
                v.rounds,
                who,
                index,
                b,
                dedup_symbols(list),
            ).1;
            let w = after_append_price(v, who, index, list, b);
            &&& accepted.contains(c) ==> w.rounds.contains_key(c) && w.rounds[c].index == index
                && w.rounds[c].provider.contains(who) && !w.rounds[c].combined
            &&& !accepted.contains(c) ==> w.rounds.get(c) == v.rounds.get(c)
        }),
{
    submit_rounds_join(v.rounds, who, index, b, dedup_symbols(list));
}

/// A submission never makes an account a provider of a round twice.
pub proof fn append_price_keeps_providers_distinct(
    v: OracleView,
    who: AccountId,
    index: RoundIndex,
    list: Seq<TickerPayloadDetail>,
    b: BlockNumber,
)
    requires
        providers_distinct(v.rounds),
    ensures
        providers_distinct(after_append_price(v, who, index, list, b).rounds),
{
    if index < b {
        submit_rounds_keeps_providers_distinct(
            v.rounds,
            who,
            index,
            b,
            dedup_symbols(list),
        );
    }
}

proof fn lemma_finalize_currency_keeps_rounds(v: OracleView, c: CurrencyId, b: BlockNumber)
    requires
        providers_distinct(v.rounds),
        Pallet::rounds_not_after(v.rounds, b),
    ensures
        providers_distinct(finalize_currency(v, c, b).rounds),
        Pallet::rounds_not_after(finalize_currency(v, c, b).rounds, b),
{
    let w = finalize_currency(v, c, b);
    assert forall|k: CurrencyId| #[trigger] w.rounds.contains_key(k) implies w.rounds[k].provider.no_duplicates()
        && w.rounds[k].index <= b && w.rounds[k].last_combined <= b by {
        assert(v.rounds.contains_key(k));
    }
}

/// The end-of-block hook never makes an account a provider of a round twice,
/// and keeps every round opened and last aggregated at or before the block.
pub proof fn finalize_keeps_rounds(v: OracleView, cs: Seq<CurrencyId>, b: BlockNumber)
    requires
        providers_distinct(v.rounds),
        Pallet::rounds_not_after(v.rounds, b),
    ensures
        providers_distinct(finalize_all(v, cs, b).rounds),
        Pallet::rounds_not_after(finalize_all(v, cs, b).rounds, b),
    decreases cs.len(),
{
    if cs.len() > 0 {
        finalize_keeps_rounds(v, cs.drop_last(), b);
        lemma_finalize_currency_keeps_rounds(finalize_all(v, cs.drop_last(), b), cs.last(), b);
    }
}

proof fn lemma_submit_rounds_not_after(
    rounds: Map<CurrencyId, RoundView>,
    who: AccountId,
    rb: RoundIndex,
    b: BlockNumber,
    cs: Seq<CurrencyId>,
)
    requires
        Pallet::rounds_not_after(rounds, b),
        rb < b,
    ensures
        Pallet::rounds_not_after(submit_rounds(rounds, who, rb, b, cs).0, b),
    decreases cs.len(),
{
    if cs.len() > 0 {
        lemma_submit_rounds_not_after(rounds, who, rb, b, cs.drop_last());
        let prev = submit_rounds(rounds, who, rb, b, cs.drop_last());
        let c = cs.last();
        let next = submit_rounds(rounds, who, rb, b, cs).0;
        assert forall|k: CurrencyId| #[trigger] next.contains_key(k) implies next[k].index <= b
            && next[k].last_combined <= b by {
            if k != c || round_after_submit(prev.0.get(c), who, rb, b) is None {
                assert(prev.0.contains_key(k));
            }
        }
    }
}

/// A submission at block `b` keeps every round opened and last aggregated at
/// or before `b`.
pub proof fn append_price_keeps_rounds_not_after(
    v: OracleView,
    who: AccountId,
    index: RoundIndex,
    list: Seq<TickerPayloadDetail>,
    b: BlockNumber,
)
    requires
        Pallet::rounds_not_after(v.rounds, b),
    ensures
        Pallet::rounds_not_after(after_append_price(v, who, index, list, b).rounds, b),
{
    if index < b {
        lemma_submit_rounds_not_after(
            v.rounds,
            who,
            index,
            b,
            dedup_symbols(list),
        );
    }
}

/// Leaving emergency feeding at block `b` keeps every round opened and last
/// aggregated at or before `b`, and keeps each round's providers.
pub proof fn reset_last_combined_keeps_rounds(
    rounds: Map<CurrencyId, RoundView>,
    cs: Seq<CurrencyId>,
    b: BlockNumber,
)
    requires
        Pallet::rounds_not_after(rounds, b),
        providers_distinct(rounds),
    ensures
        Pallet::rounds_not_after(reset_last_combined(rounds, cs, b), b),
        providers_distinct(reset_last_combined(rounds, cs, b)),
    decreases cs.len(),
{
    if cs.len() > 0 {
        reset_last_combined_keeps_rounds(rounds, cs.drop_last(), b);
        let m = reset_last_combined(rounds, cs.drop_last(), b);
        let next = reset_last_combined(rounds, cs, b);
        assert forall|k: CurrencyId| #[trigger] next.contains_key(k) implies next[k].index <= b
            && next[k].last_combined <= b && next[k].provider.no_duplicates() by {
            assert(m.contains_key(k));
        }
    }
}

/// When every round opened and was last aggregated at or before a block, so
/// did the round of every tracked currency.
pub proof fn rounds_not_after_covers_tracked(v: OracleView, b: BlockNumber)
    requires
        Pallet::rounds_not_after(v.rounds, b),
    ensures
        Pallet::tracked_rounds_not_after(v, b),
{
}

/// Rounds that opened and were last aggregated at or before a block still
/// did so at any later block.
pub proof fn rounds_not_after_later(
    rounds: Map<CurrencyId, RoundView>,
    b: BlockNumber,
    later: BlockNumber,
)
    requires
        Pallet::rounds_not_after(rounds, b),
        b <= later,
    ensures
        Pallet::rounds_not_after(rounds, later),
{
}

/// While the oracle is in emergency feeding, the end-of-block hook stores no
/// price, changes no round and stays in emergency feeding.
pub proof fn finalize_in_emergency_keeps_prices(v: OracleView, cs: Seq<CurrencyId>, b: BlockNumber)
    requires
        is_emergency(v.aggregation_strategy),
    ensures
        finalize_all(v, cs, b).prices == v.prices,
        finalize_all(v, cs, b).rounds == v.rounds,
        is_emergency(finalize_all(v, cs, b).aggregation_strategy),
    decreases cs.len(),
{
    if cs.len() > 0 {
        finalize_in_emergency_keeps_prices(v, cs.drop_last(), b);
        let w = finalize_all(v, cs.drop_last(), b);
        assert(aggregate_spec(w, AggregationStrategyEnum::EMERGENCY, 0, seq![], cs.last()) is Err);
    }
}

/// How the end-of-block hook may change a round: not at all, or by marking
/// a round that was not aggregated as aggregated at block `b`.
pub open spec fn round_evolves(r: RoundView, q: RoundView, b: BlockNumber) -> bool {
    q == r || (!r.combined && q == RoundView {
        index: r.index,
        provider: r.provider,
        combined: true,
        last_combined: b,
    })
}

/// How the end-of-block hook at block `b` may change the storage: only
/// aggregations, prices of currencies with a round, and a switch to
/// emergency feeding.
pub open spec fn evolves(u: OracleView, w: OracleView, b: BlockNumber) -> bool {
    &&& w.ocw_prices == u.ocw_prices
    &&& w.data_sources == u.data_sources
    &&& w.request_url == u.request_url
    &&& w.currencies == u.currencies
    &&& w.members == u.members
    &&& w.events == u.events
    &&& (w.aggregation_strategy == u.aggregation_strategy || w.aggregation_strategy == Some(
        AggregationStrategyEnum::EMERGENCY,
    ))
    &&& w.rounds.dom() == u.rounds.dom()
    &&& forall|c: CurrencyId| #[trigger]
        u.rounds.contains_key(c) ==> round_evolves(u.rounds[c], w.rounds[c], b)
    &&& forall|c: CurrencyId| !u.rounds.contains_key(c) ==> #[trigger] w.prices.get(c)
        == u.prices.get(c)
}

proof fn lemma_evolves_trans(u: OracleView, m: OracleView, w: OracleView, b: BlockNumber)
    requires
        evolves(u, m, b),
        evolves(m, w, b),
    ensures
        evolves(u, w, b),
{
    assert forall|c: CurrencyId| #[trigger] u.rounds.contains_key(c) implies round_evolves(
        u.rounds[c],
        w.rounds[c],
        b,
    ) by {
        assert(m.rounds.contains_key(c));
    }
    assert forall|c: CurrencyId| !u.rounds.contains_key(c) implies #[trigger] w.prices.get(c)
        == u.prices.get(c) by {
        assert(!m.rounds.contains_key(c));
    }
}

proof fn lemma_finalize_currency_evolves(u: OracleView, c: CurrencyId, b: BlockNumber)
    ensures
        evolves(u, finalize_currency(u, c, b), b),
{
    let w = finalize_currency(u, c, b);
    assert(w.rounds.dom() =~= u.rounds.dom());
}

proof fn lemma_finalize_prefix_evolves(v: OracleView, cs: Seq<CurrencyId>, j: int, n: int, b: BlockNumber)
    requires
        0 <= j <= n <= cs.len(),
    ensures
        evolves(finalize_all(v, cs.take(j), b), finalize_all(v, cs.take(n), b), b),
    decreases n - j,
{
    let u = finalize_all(v, cs.take(j), b);
    if j == n {
        assert(evolves(u, u, b));
    } else {
        lemma_finalize_prefix_evolves(v, cs, j, n - 1, b);
        assert(cs.take(n).drop_last() =~= cs.take(n - 1));
        let m = finalize_all(v, cs.take(n - 1), b);
        lemma_finalize_currency_evolves(m, cs[n - 1], b);
        lemma_evolves_trans(u, m, finalize_all(v, cs.take(n), b), b);
    }
}

proof fn lemma_finalize_settled(u: OracleView, c: CurrencyId, b: BlockNumber, w: OracleView)
    requires
        evolves(finalize_currency(u, c, b), w, b),
    ensures
        finalize_currency(w, c, b) == w,
{
    let u1 = finalize_currency(u, c, b);
    lemma_finalize_currency_evolves(u, c, b);
    lemma_evolves_trans(u, u1, w, b);
    if w.aggregation_strategy == Some(AggregationStrategyEnum::EMERGENCY) {
        assert(crate::ocw_oracle::to_emergency(w) =~= w);
    }
    if u.rounds.contains_key(c) {
        let r = u.rounds[c];
        assert(aggregate_spec(w, AggregationStrategyEnum::EMERGENCY, r.index, r.provider, c) is Err);
        match u.aggregation_strategy {
            Some(s) => {
                assert(aggregate_spec(w, s, r.index, r.provider, c) == aggregate_spec(
                    u,
                    s,
                    r.index,
                    r.provider,
                    c,
                ));
            },
            None => {},
        }
    } else {
        assert(!u1.rounds.contains_key(c));
        assert(w.prices.get(c) == u1.prices.get(c));
    }
}

proof fn lemma_finalize_fixed(w: OracleView, cs: Seq<CurrencyId>, b: BlockNumber)
    requires
        forall|i: int| 0 <= i < cs.len() ==> finalize_currency(w, #[trigger] cs[i], b) == w,
    ensures
        finalize_all(w, cs, b) == w,
    decreases cs.len(),
{
    if cs.len() > 0 {
        let d = cs.drop_last();
        assert forall|i: int| 0 <= i < d.len() implies finalize_currency(w, #[trigger] d[i], b)
            == w by {
            assert(d[i] == cs[i]);
        }
        lemma_finalize_fixed(w, d, b);
        assert(finalize_currency(w, cs[cs.len() - 1], b) == w);
    }
}

/// Running the end-of-block hook twice at the same block leaves the storage
/// as running it once.
pub proof fn finalize_twice_is_once(v: OracleView, b: BlockNumber)
    ensures
        finalize_all(finalize_all(v, v.currencies, b), finalize_all(v, v.currencies, b).currencies, b)
            == finalize_all(v, v.currencies, b),
{
    let cs = v.currencies;
    let w = finalize_all(v, cs, b);
    assert(cs.take(cs.len() as int) =~= cs);
    lemma_finalize_prefix_evolves(v, cs, 0, cs.len() as int, b);
    assert forall|i: int| 0 <= i < cs.len() implies finalize_currency(w, #[trigger] cs[i], b)
        == w by {
        lemma_finalize_prefix_evolves(v, cs, i + 1, cs.len() as int, b);
        assert(cs.take(i + 1).drop_last() =~= cs.take(i));
        lemma_finalize_settled(finalize_all(v, cs.take(i), b), cs[i], b, w);
    }
    lemma_finalize_fixed(w, cs, b);
}

// ----- prices pallet -----

/// A served price with timestamp zero for a currency other than the stable
/// one is that currency's emergency price.
pub proof fn zero_timestamp_means_emergency_price(
    v: PricesView,
    c: CurrencyId,
    oracle: Option<TimeStampedPrice>,
    price: OraclePrice,
)
    requires
        c != v.stable_currency_id,
        price_of(v, c, oracle) == Some((price, 0u64)),
    ensures
        v.emergency_price.contains_key(c),
        v.emergency_price[c] == price,
{
}

/// The stable currency is always served at its fixed price with timestamp zero.
pub proof fn stable_currency_price_is_fixed(v: PricesView, oracle: Option<TimeStampedPrice>)
    ensures
        price_of(v, v.stable_currency_id, oracle) == Some(
            (v.stable_currency_fixed_price, 0u64),
        ),
{
}

/// After an emergency price is set for a currency other than the stable one,
/// that currency is served at it with timestamp zero, whatever the oracle
/// says, and every other currency is served as before.
pub proof fn set_emergency_price_then_get(
    v: PricesView,
    c: CurrencyId,
    price: OraclePrice,
    other: CurrencyId,
    oracle: Option<TimeStampedPrice>,
)
    requires
        c != v.stable_currency_id,
    ensures
        price_of(
            PricesView { emergency_price: v.emergency_price.insert(c, price), ..v },
            c,
            oracle,
        ) == Some((price, 0u64)),
        other != c ==> price_of(
            PricesView { emergency_price: v.emergency_price.insert(c, price), ..v },
            other,
            oracle,
        ) == price_of(v, other, oracle),
{
}

/// After the emergency price of a currency other than the stable one is
/// removed, it is served at the oracle's value again (unless that is stamped
/// zero), and every other currency is served as before.
pub proof fn reset_emergency_price_then_get(
    v: PricesView,
    c: CurrencyId,
    other: CurrencyId,
    oracle: Option<TimeStampedPrice>,
)
    requires
        c != v.stable_currency_id,
    ensures
        price_of(PricesView { emergency_price: v.emergency_price.remove(c), ..v }, c, oracle)
            == (match oracle {
            Some(t) => if t.timestamp != 0 {
                Some((t.value, t.timestamp))
            } else {
                None
            },
            None => None,
        }),
        other != c ==> price_of(
            PricesView { emergency_price: v.emergency_price.remove(c), ..v },
            other,
            oracle,
        ) == price_of(v, other, oracle),
{
}

// ----- what the oracle's steps are for -----

/// A submission to a round later than the current one (and before the
/// current block) is refused exactly when the current round is neither
/// aggregated nor older than `UPDATE_ROUND_INDEX_LIMIT` blocks; otherwise it
/// restarts the round with the submitter as its only provider, keeping the
/// time of the last aggregation.
pub proof fn later_submission_restarts_round(r: RoundView, who: AccountId, rb: RoundIndex, b: BlockNumber)
    requires
        r.index < rb < b,
    ensures
        round_after_submit(Some(r), who, rb, b) is None <==> (!r.combined && b - r.index <= 3),
        (r.combined || b - r.index > 3) ==> round_after_submit(Some(r), who, rb, b) == Some(
            RoundView { index: rb, provider: seq![who], combined: false, last_combined: r.last_combined },
        ),
{
}

/// A member's submission of one ticker for a currency whose current round is
/// aggregated and earlier restarts that round at the submitted index with the
/// member as its only provider, and makes the ticker the newest record of the
/// member's history for that source and currency.
pub proof fn submission_after_aggregation_restarts_round(
    v: OracleView,
    who: AccountId,
    rb: RoundIndex,
    t: TickerPayloadDetail,
    b: BlockNumber,
)
    requires
        v.rounds.contains_key(t.symbol),
        v.rounds[t.symbol].combined,
        v.rounds[t.symbol].index < rb < b,
    ensures
        after_append_price(v, who, rb, seq![t], b).rounds[t.symbol] == (RoundView {
            index: rb,
            provider: seq![who],
            combined: false,
            last_combined: v.rounds[t.symbol].last_combined,
        }),
        after_append_price(v, who, rb, seq![t], b).ocw_prices.contains_key(
            (who, t.data_source_enum, t.symbol),
        ),
        after_append_price(v, who, rb, seq![t], b).ocw_prices[(
            who,
            t.data_source_enum,
            t.symbol,
        )].last() == (PriceDetailOf {
            index: rb,
            blocknumber: b,
            price: t.price,
            timestamp: t.timestamp,
        }),
{
    let list = seq![t];
    let c = t.symbol;
    assert(list.drop_last() =~= Seq::<TickerPayloadDetail>::empty());
    assert(list.last() == t);
    assert(dedup_symbols(list.drop_last()) == Seq::<CurrencyId>::empty());
    assert(dedup_symbols(list) =~= seq![c]);
    let cs = seq![c];
    assert(cs.drop_last() =~= Seq::<CurrencyId>::empty());
    let sub = submit_rounds(v.rounds, who, rb, b, cs);
    assert(submit_rounds(v.rounds, who, rb, b, cs.drop_last()) == (
    v.rounds, Seq::<CurrencyId>::empty()));
    assert(cs.last() == c);
    assert(v.rounds.get(c) == Some(v.rounds[c]));
    later_submission_restarts_round(v.rounds[c], who, rb, b);
    assert(sub.1 =~= seq![c]);
    assert(sub.1.contains(c)) by {
        assert(sub.1[0] == c);
    }
    let key = (who, t.data_source_enum, c);
    let p = PriceDetailOf { index: rb, blocknumber: b, price: t.price, timestamp: t.timestamp };
    let rec = record_tickers(v.ocw_prices, v.events, who, rb, b, sub.1, list);
    assert(record_tickers(v.ocw_prices, v.events, who, rb, b, sub.1, list.drop_last()) == (
    v.ocw_prices, v.events));
    assert(rec == record_ticker(v.ocw_prices, v.events, who, rb, b, sub.1, t));
    if v.ocw_prices.contains_key(key) {
        assert(history_push(v.ocw_prices[key], p).last() == p);
    } else {
        assert(seq![p].last() == p);
    }
}

/// Leaving emergency feeding at block `b` marks the round of every tracked
/// currency, aggregated or not, as last aggregated at `b`, changes nothing
/// else in those rounds, and leaves every other currency's round unchanged.
pub proof fn leaving_emergency_resets_every_tracked_round(
    rounds: Map<CurrencyId, RoundView>,
    cs: Seq<CurrencyId>,
    b: BlockNumber,
)
    ensures
        reset_last_combined(rounds, cs, b).dom() == rounds.dom(),
        forall|c: CurrencyId| #[trigger]
            reset_last_combined(rounds, cs, b).contains_key(c) ==> reset_last_combined(
                rounds,
                cs,
                b,
            )[c] == (if cs.contains(c) {
                RoundView {
                    index: rounds[c].index,
                    provider: rounds[c].provider,
                    combined: rounds[c].combined,
                    last_combined: b,
                }
            } else {
                rounds[c]
            }),
    decreases cs.len(),
{
    if cs.len() > 0 {
        let d = cs.drop_last();
        leaving_emergency_resets_every_tracked_round(rounds, d, b);
        let m = reset_last_combined(rounds, d, b);
        let last = cs.last();
        let r = reset_last_combined(rounds, cs, b);
        assert(r.dom() =~= rounds.dom());
        assert forall|c: CurrencyId| #[trigger] r.contains_key(c) implies r[c] == (if cs.contains(
            c,
        ) {
            RoundView {
                index: rounds[c].index,
                provider: rounds[c].provider,
                combined: rounds[c].combined,
                last_combined: b,
            }
        } else {
            rounds[c]
        }) by {
            assert(m.contains_key(c));
            if c == last {
                assert(cs[cs.len() - 1] == c);
            } else {
                if cs.contains(c) {
                    let i = choose|i: int| 0 <= i < cs.len() && cs[i] == c;
                    assert(d[i] == c);
                }
                if d.contains(c) {
                    let i = choose|i: int| 0 <= i < d.len() && d[i] == c;
                    assert(cs[i] == c);
                }
            }
        }
    } else {
        assert(reset_last_combined(rounds, cs, b) == rounds);
    }
}

/// After the end-of-block hook, the oracle is in emergency feeding whenever a
/// tracked currency has a stored price but no round.
pub proof fn finalize_absent_round_means_emergency(v: OracleView, cs: Seq<CurrencyId>, b: BlockNumber, c: CurrencyId)
    requires
        cs.contains(c),
        !v.rounds.contains_key(c),
        v.prices.contains_key(c),
    ensures
        finalize_all(v, cs, b).aggregation_strategy == Some(AggregationStrategyEnum::EMERGENCY),
{
    let i = choose|i: int| 0 <= i < cs.len() && cs[i] == c;
    assert(cs.take(0) =~= Seq::<CurrencyId>::empty());
    lemma_finalize_prefix_evolves(v, cs, 0, i, b);
    let u = finalize_all(v, cs.take(i), b);
    assert(!u.rounds.contains_key(c));
    assert(u.prices.get(c) == v.prices.get(c));
    assert(cs.take(i + 1).drop_last() =~= cs.take(i));
    let u1 = finalize_all(v, cs.take(i + 1), b);
    assert(u1.aggregation_strategy == Some(AggregationStrategyEnum::EMERGENCY));
    lemma_finalize_prefix_evolves(v, cs, i + 1, cs.len() as int, b);
    assert(cs.take(cs.len() as int) =~= cs);
}

/// How a submission of `who` to round `rb` changes the round of a currency:
/// a missing round opens at `rb` with `who` alone, last aggregated at `rb`; a
/// submission to an earlier round is refused; one to the current round is
/// refused if `who` already joined it and otherwise adds `who` at the end of
/// its providers and reopens the round for aggregation.
pub proof fn submission_to_current_or_missing_round(
    r: RoundView,
    who: AccountId,
    rb: RoundIndex,
    b: BlockNumber,
)
    ensures
        round_after_submit(None, who, rb, b) == Some(
            RoundView { index: rb, provider: seq![who], combined: false, last_combined: rb },
        ),
        rb < r.index ==> round_after_submit(Some(r), who, rb, b) is None,
        rb == r.index && r.provider.contains(who) ==> round_after_submit(Some(r), who, rb, b) is None,
        rb == r.index && !r.provider.contains(who) ==> round_after_submit(Some(r), who, rb, b)
            == Some(
            RoundView {
                index: r.index,
                provider: r.provider.push(who),
                combined: false,
                last_combined: r.last_combined,
            },
        ),
{
}

/// The event of an appended record carries the record a full history drops,
/// else the newest record before the append, or nothing for a new history;
/// a ticker of a currency that was not accepted records nothing.
pub proof fn appended_record_event(
    hist: Map<(AccountId, DataSourceEnum, CurrencyId), Seq<PriceDetailOf>>,
    events: Seq<Event>,
    who: AccountId,
    rb: RoundIndex,
    b: BlockNumber,
    accepted: Seq<CurrencyId>,
    t: TickerPayloadDetail,
)
    ensures
        !accepted.contains(t.symbol) ==> record_ticker(hist, events, who, rb, b, accepted, t) == (
        hist, events),
        accepted.contains(t.symbol) ==> record_ticker(hist, events, who, rb, b, accepted, t).1
            == events.push(
            Event::AppendPrice(
                Some(who),
                if !hist.contains_key((who, t.data_source_enum, t.symbol)) {
                    None
                } else if hist[(who, t.data_source_enum, t.symbol)].len() == NUM_VEC_LEN {
                    Some(hist[(who, t.data_source_enum, t.symbol)][0])
                } else if hist[(who, t.data_source_enum, t.symbol)].len() > 0 {
                    Some(
                        hist[(who, t.data_source_enum, t.symbol)][hist[(
                            who,
                            t.data_source_enum,
                            t.symbol,
                        )].len() - 1],
                    )
                } else {
                    None
                },
            ),
        ),
        accepted.contains(t.symbol) ==> record_ticker(
            hist,
            events,
            who,
            rb,
            b,
            accepted,
            t,
        ).0.remove((who, t.data_source_enum, t.symbol)) == hist.remove(
            (who, t.data_source_enum, t.symbol),
        ),
{
    let rec = record_ticker(hist, events, who, rb, b, accepted, t);
    if accepted.contains(t.symbol) {
        assert(rec.0.remove((who, t.data_source_enum, t.symbol)) =~= hist.remove(
            (who, t.data_source_enum, t.symbol),
        ));
    }
}

/// The currencies of a submission are each of its tickers' currencies, once.
pub proof fn submitted_currencies_are_distinct_symbols(list: Seq<TickerPayloadDetail>)
    ensures
        dedup_symbols(list).no_duplicates(),
        forall|c: CurrencyId|
            #[trigger] dedup_symbols(list).contains(c) <==> exists|i: int|
                0 <= i < list.len() && #[trigger] list[i].symbol == c,
    decreases list.len(),
{
    if list.len() > 0 {
        let d = list.drop_last();
        submitted_currencies_are_distinct_symbols(d);
        let s0 = dedup_symbols(d);
        let s1 = dedup_symbols(list);
        let x = list.last().symbol;
        if !s0.contains(x) {
            assert forall|i: int, j: int| 0 <= i < s1.len() && 0 <= j < s1.len() && i != j implies s1[i]
                != s1[j] by {
                if i == s1.len() - 1 {
                    assert(s0[j] == s1[j]);
                } else if j == s1.len() - 1 {
                    assert(s0[i] == s1[i]);
                }
            }
        }
        assert forall|c: CurrencyId| #[trigger] s1.contains(c) <==> exists|i: int|
            0 <= i < list.len() && #[trigger] list[i].symbol == c by {
            if s1.contains(c) {
                if s0.contains(c) {
                    let i = choose|i: int| 0 <= i < d.len() && #[trigger] d[i].symbol == c;
                    assert(list[i].symbol == c);
                } else {
                    assert(c == x) by {
                        let k = choose|k: int| 0 <= k < s1.len() && s1[k] == c;
                        if k < s0.len() {
                            assert(s0[k] == c);
                        }
                    }
                    assert(list[list.len() - 1].symbol == c);
                }
            }
            if exists|i: int| 0 <= i < list.len() && #[trigger] list[i].symbol == c {
                let i = choose|i: int| 0 <= i < list.len() && #[trigger] list[i].symbol == c;
                if i < d.len() {
                    assert(d[i].symbol == c);
                    assert(s0.contains(c));
                    let k = choose|k: int| 0 <= k < s0.len() && s0[k] == c;
                    assert(s1[k] == c);
                } else if !s0.contains(x) {
                    assert(s1[s1.len() - 1] == c);
                }
            }
        }
    }
}

/// Only the median strategy aggregates; the others fail with `NotImplement`.
pub proof fn only_median_aggregates(
    v: OracleView,
    strategy: AggregationStrategyEnum,
    index: RoundIndex,
    provider: Seq<AccountId>,
    c: CurrencyId,
)
    requires
        strategy != AggregationStrategyEnum::MEDIAN,
    ensures
        aggregate_spec(v, strategy, index, provider, c) == Err::<PriceDetail, Error>(
            Error::NotImplement,
        ),
{
}

/// What the end-of-block hook does to a currency with a round `r`:
/// - a round at least `EMERGENCY_PRICE_FEED_LIMIT` blocks old switches to
///   emergency feeding and changes no price or round;
/// - a fresh round that is not aggregated, last aggregated at least
///   `EMERGENCY_PRICE_FEED_LIMIT` blocks ago or without a strategy, does the same;
/// - a fresh round that is not aggregated, with a strategy, a provider and a
///   successful aggregation, stores the aggregated price and marks the round
///   aggregated at this block, keeping its index and providers;
/// - an aggregated round younger than `EMERGENCY_PRICE_FEED_LIMIT` blocks is left alone.
pub proof fn finalize_currency_outcomes(v: OracleView, c: CurrencyId, b: BlockNumber)
    requires
        v.rounds.contains_key(c),
    ensures
        ({
            let r = v.rounds[c];
            let w = finalize_currency(v, c, b);
            let emergency = (OracleView {
                aggregation_strategy: Some(AggregationStrategyEnum::EMERGENCY),
                ..v
            });
            &&& b - r.index >= 7 ==> w == emergency
            &&& (b - r.index <= 3 && !r.combined && (b - r.last_combined >= 7
                || v.aggregation_strategy is None)) ==> w == emergency
            &&& (b - r.index <= 3 && !r.combined && b - r.last_combined < 7
                && v.aggregation_strategy is Some && r.provider.len() >= 1
                && aggregate_spec(v, v.aggregation_strategy->0, r.index, r.provider, c) is Ok)
                ==> w == (OracleView {
                prices: v.prices.insert(
                    c,
                    aggregate_spec(v, v.aggregation_strategy->0, r.index, r.provider, c)->Ok_0,
                ),
                rounds: v.rounds.insert(
                    c,
                    RoundView {
                        index: r.index,
                        provider: r.provider,
                        combined: true,
                        last_combined: b,
                    },
                ),
                ..v
            })
            &&& (r.combined && b - r.index < 7) ==> w == v
        }),
{
    let r = v.rounds[c];
    assert(v.rounds.get(c) == Some(r));
}

} // verus!
