//! The off-chain-worker price oracle.
//!
//! Approved members submit, once per round, the prices that their off-chain
//! worker fetched from the configured data sources. At the end of every block
//! the rounds are inspected: a fresh round is aggregated into the on-chain price,
//! and a stale or unusable one switches the oracle to emergency feeding.
use vstd::prelude::*;

use std::collections::BTreeSet;
use std::collections::VecDeque;

use vstd::string::{StrSliceExecFns, StringSliceAdditionalSpecFns};

use crate::aggregation_strategy::{aggregate_price, aggregate_spec};
use crate::laws::{
    finalize_absent_round_means_emergency, leaving_emergency_resets_every_tracked_round,
    histories_at_most, histories_bounded, providers_distinct,
    record_tickers_keeps_histories_at_most, record_tickers_keeps_histories_bounded,
    submit_rounds_join, submit_rounds_keeps_providers_distinct,
};
use crate::table::Table;
use crate::types::{
    ensure_root, ensure_signed, signer_of, AccountId, AggregationStrategyEnum, BlockNumber,
    CurrencyId, DataSourceEnum, Origin, Price, PriceDetail, RoundIndex, Timestamp, Url,
};

verus! {

broadcast use vstd::std_specs::btree::group_btree_axioms, vstd::laws_cmp::group_laws_cmp;

/// The most price records kept per account, data source and currency.
pub const NUM_VEC_LEN: usize = 10;

/// Priority of the transactions that the off-chain worker submits.
pub const UNSIGNED_TXS_PRIORITY: u64 = 100;

/// User agent of the off-chain worker's http requests.
pub const HTTP_HEADER_USER_AGENT: &'static str = "Parallel";

/// Time limit of one http request, in milliseconds.
pub const FETCH_TIMEOUT_PERIOD: u64 = 3000;

/// Pause between two http requests, in milliseconds.
pub const HTTP_INTERVAL: u64 = 500;

/// Expiry of the off-chain storage lock, in milliseconds.
pub const LOCK_TIMEOUT_EXPIRATION: u64 = FETCH_TIMEOUT_PERIOD * 3 + 1000;

/// Expiry of the off-chain storage lock, in blocks.
pub const LOCK_BLOCK_EXPIRATION: u32 = 5;

/// A round may still be joined or aggregated this many blocks after it opened.
pub const UPDATE_ROUND_INDEX_LIMIT: u32 = 3;

/// After this many blocks without aggregation the oracle falls back to emergency feeding.
pub const EMERGENCY_PRICE_FEED_LIMIT: u32 = 7;

/// The fewest providers a round needs before it is aggregated.
pub const MINIMUM_PROPOSERS: u32 = 1;

/// One price record of a provider.
#[derive(Clone, Copy, Debug, PartialEq, Eq, Structural)]
pub struct PriceDetailOf {
    pub index: RoundIndex,
    pub blocknumber: BlockNumber,
    pub price: Price,
    pub timestamp: Timestamp,
}

/// The round of one currency: when it opened, who has submitted to it, and
/// whether (and when last) its prices were aggregated.
#[derive(Debug)]
pub struct Round {
    pub index: RoundIndex,
    pub provider: Vec<AccountId>,
    pub combined: bool,
    pub last_combined: BlockNumber,
}

/// The mathematical content of a [`Round`].
pub struct RoundView {
    pub index: RoundIndex,
    pub provider: Seq<AccountId>,
    pub combined: bool,
    pub last_combined: BlockNumber,
}

impl View for Round {
    type V = RoundView;

    open spec fn view(&self) -> RoundView {
        RoundView {
            index: self.index,
            provider: self.provider@,
            combined: self.combined,
            last_combined: self.last_combined,
        }
    }
}

/// One price that an off-chain worker read from a data source.
#[derive(Clone, Copy, Debug, PartialEq, Eq, Structural)]
pub struct TickerPayloadDetail {
    pub symbol: CurrencyId,
    pub data_source_enum: DataSourceEnum,
    pub price: Price,
    pub timestamp: Timestamp,
}

/// What a member submits: the round it answers and the prices it read.
#[derive(Debug)]
pub struct Payload {
    pub index: RoundIndex,
    pub list: Vec<TickerPayloadDetail>,
}

/// Errors of the oracle.
#[derive(Clone, Copy, Debug, PartialEq, Eq, Structural)]
pub enum Error {
    UnknownOffchainMux,
    NoLocalAcctForSigning,
    OffchainSignedTxError,
    OffchainUnsignedTxError,
    OffchainUnsignedTxSignedPayloadError,
    HttpFetchingError,
    AcquireStorageLockError,
    ConvertToStringError,
    ParsingToF64Error,
    ParseUrlError,
    NotImplement,
    NoPermission,
    ParseTimestampError,
    /// No provider of the round submitted a price for it.
    EmptyPriceList,
}

/// Why a dispatched call failed.
#[derive(Clone, Copy, Debug, PartialEq, Eq, Structural)]
pub enum DispatchError {
    BadOrigin,
    Module(Error),
}

/// Events of the oracle.
#[derive(Clone, Copy, Debug, PartialEq, Eq, Structural)]
pub enum Event {
    /// A member's submission for a round was accepted.
    OffchainInvoke(Option<AccountId>, RoundIndex),
    /// A price record was appended; carries the record dropped from a full
    /// history, or else the record that was newest before.
    AppendPrice(Option<AccountId>, Option<PriceDetailOf>),
}

/// The storage of the oracle.
pub struct Pallet {
    prices: Table<CurrencyId, PriceDetail>,
    request_url: Table<(CurrencyId, DataSourceEnum), Url>,
    rounds: Table<CurrencyId, Round>,
    ocw_prices: Table<(AccountId, DataSourceEnum, CurrencyId), VecDeque<PriceDetailOf>>,
    currencies: Vec<CurrencyId>,
    data_sources: Vec<DataSourceEnum>,
    aggregation_strategy: Option<AggregationStrategyEnum>,
    members: BTreeSet<AccountId>,
    events: Vec<Event>,
}

/// The mathematical content of the oracle's storage.
#[verifier::ext_equal]
pub struct OracleView {
    /// The aggregated (or emergency) price of each currency.
    pub prices: Map<CurrencyId, PriceDetail>,
    /// Where the off-chain worker fetches each currency from each source.
    pub request_url: Map<(CurrencyId, DataSourceEnum), Seq<u8>>,
    /// The current round of each currency.
    pub rounds: Map<CurrencyId, RoundView>,
    /// The latest price records of each account, data source and currency, oldest first.
    pub ocw_prices: Map<(AccountId, DataSourceEnum, CurrencyId), Seq<PriceDetailOf>>,
    /// The currencies that the oracle tracks.
    pub currencies: Seq<CurrencyId>,
    /// The data sources that the off-chain workers query.
    pub data_sources: Seq<DataSourceEnum>,
    /// How rounds are aggregated; `EMERGENCY` while prices are fed by hand.
    pub aggregation_strategy: Option<AggregationStrategyEnum>,
    /// The accounts allowed to submit prices.
    pub members: Set<AccountId>,
    /// The events deposited so far, oldest first.
    pub events: Seq<Event>,
}

impl View for Pallet {
    type V = OracleView;

    closed spec fn view(&self) -> OracleView {
        OracleView {
            prices: self.prices@,
            request_url: self.request_url@,
            rounds: self.rounds@,
            ocw_prices: self.ocw_prices@,
            currencies: self.currencies@,
            data_sources: self.data_sources@,
            aggregation_strategy: self.aggregation_strategy,
            members: self.members@,
            events: self.events@,
        }
    }
}

/// An exact copy of a round.
pub fn copy_round(r: &Round) -> (out: Round)
    ensures
        out@ == r@,
{
    let provider = r.provider.clone();
    assert(provider@ =~= r.provider@);
    Round { index: r.index, provider, combined: r.combined, last_combined: r.last_combined }
}

impl Pallet {
    /// The storage of a fresh chain: everything empty, no strategy chosen.
    pub fn new() -> (p: Self)
        ensures
            p@ == (OracleView {
                prices: Map::empty(),
                request_url: Map::empty(),
                rounds: Map::empty(),
                ocw_prices: Map::empty(),
                currencies: Seq::empty(),
                data_sources: Seq::empty(),
                aggregation_strategy: None,
                members: Set::empty(),
                events: Seq::empty(),
            }),
    {
        Pallet {
            prices: Table::new(),
            request_url: Table::new(),
            rounds: Table::new(),
            ocw_prices: Table::new(),
            currencies: Vec::new(),
            data_sources: Vec::new(),
            aggregation_strategy: None,
            members: BTreeSet::new(),
            events: Vec::new(),
        }
    }
}

/// `Some` of the view of the referenced round, or `None`.
pub open spec fn round_view_of(r: Option<&Round>) -> Option<RoundView> {
    match r {
        Some(x) => Some(x@),
        None => None,
    }
}

/// `Some` of the view of the round, or `None`.
pub open spec fn opt_round_view(r: Option<Round>) -> Option<RoundView> {
    match r {
        Some(x) => Some(x@),
        None => None,
    }
}

/// The round of a currency after `who` submitted a price for round `rb`
/// while the chain is at block `b`; `None` when the submission is refused.
///
/// A missing round is opened at `rb`. A submission to the current round
/// joins it unless `who` already did. A submission to a later round restarts
/// the round if the current one was aggregated or is older than
/// `UPDATE_ROUND_INDEX_LIMIT` blocks. A submission to an earlier round is refused.
pub open spec fn round_after_submit(
    old: Option<RoundView>,
    who: AccountId,
    rb: RoundIndex,
    b: BlockNumber,
) -> Option<RoundView> {
    match old {
        None => Some(RoundView { index: rb, provider: seq![who], combined: false, last_combined: rb }),
        Some(r) => if rb < r.index {
            None
        } else if rb == r.index {
            if r.provider.contains(who) {
                None
            } else {
                Some(
                    RoundView {
                        index: r.index,
                        provider: r.provider.push(who),
                        combined: false,
                        last_combined: r.last_combined,
                    },
                )
            }
        } else if r.combined || b - r.index > UPDATE_ROUND_INDEX_LIMIT {
            Some(
                RoundView {
                    index: rb,
                    provider: seq![who],
                    combined: false,
                    last_combined: r.last_combined,
                },
            )
        } else {
            None
        },
    }
}

/// The rounds after `who` submitted to round `rb` for the currencies `cs`, taken
/// in order, and the currencies whose submission was accepted, in order.
pub open spec fn submit_rounds(
    rounds: Map<CurrencyId, RoundView>,
    who: AccountId,
    rb: RoundIndex,
    b: BlockNumber,
    cs: Seq<CurrencyId>,
) -> (Map<CurrencyId, RoundView>, Seq<CurrencyId>)
    decreases cs.len(),
{
    if cs.len() == 0 {
        (rounds, seq![])
    } else {
        let prev = submit_rounds(rounds, who, rb, b, cs.drop_last());
        let c = cs.last();
        match round_after_submit(prev.0.get(c), who, rb, b) {
            Some(r) => (prev.0.insert(c, r), prev.1.push(c)),
            None => prev,
        }
    }
}

/// A price history after `p` was appended: the oldest record goes once
/// `NUM_VEC_LEN` records are kept.
pub open spec fn history_push(h: Seq<PriceDetailOf>, p: PriceDetailOf) -> Seq<PriceDetailOf> {
    if h.len() == NUM_VEC_LEN {
        h.drop_first().push(p)
    } else {
        h.push(p)
    }
}

/// The newest record of a history, if any.
pub open spec fn newest(h: Seq<PriceDetailOf>) -> Option<PriceDetailOf> {
    if h.len() > 0 {
        Some(h.last())
    } else {
        None
    }
}

/// The record that an append to `h` reports: the oldest one, which a full
/// history drops, or else the newest one.
pub open spec fn reported_record(h: Seq<PriceDetailOf>) -> Option<PriceDetailOf> {
    if h.len() == NUM_VEC_LEN {
        Some(h.first())
    } else {
        newest(h)
    }
}

/// Price histories and events after the ticker `t` of `who`'s submission to
/// round `rb` at block `b` was recorded; tickers of currencies outside
/// `accepted` are passed over.
pub open spec fn record_ticker(
    hist: Map<(AccountId, DataSourceEnum, CurrencyId), Seq<PriceDetailOf>>,
    events: Seq<Event>,
    who: AccountId,
    rb: RoundIndex,
    b: BlockNumber,
    accepted: Seq<CurrencyId>,
    t: TickerPayloadDetail,
) -> (Map<(AccountId, DataSourceEnum, CurrencyId), Seq<PriceDetailOf>>, Seq<Event>) {
    if !accepted.contains(t.symbol) {
        (hist, events)
    } else {
        let key = (who, t.data_source_enum, t.symbol);
        let p = PriceDetailOf { index: rb, blocknumber: b, price: t.price, timestamp: t.timestamp };
        match hist.get(key) {
            Some(h) => (
                hist.insert(key, history_push(h, p)),
                events.push(Event::AppendPrice(Some(who), reported_record(h))),
            ),
            None => (hist.insert(key, seq![p]), events.push(Event::AppendPrice(Some(who), None))),
        }
    }
}

/// [`record_ticker`] applied to each ticker of `list` in order.
pub open spec fn record_tickers(
    hist: Map<(AccountId, DataSourceEnum, CurrencyId), Seq<PriceDetailOf>>,
    events: Seq<Event>,
    who: AccountId,
    rb: RoundIndex,
    b: BlockNumber,
    accepted: Seq<CurrencyId>,
    list: Seq<TickerPayloadDetail>,
) -> (Map<(AccountId, DataSourceEnum, CurrencyId), Seq<PriceDetailOf>>, Seq<Event>)
    decreases list.len(),
{
    if list.len() == 0 {
        (hist, events)
    } else {
        let prev = record_tickers(hist, events, who, rb, b, accepted, list.drop_last());
        record_ticker(prev.0, prev.1, who, rb, b, accepted, list.last())
    }
}

/// The currencies of `list`, each once, in order of first appearance.
pub open spec fn dedup_symbols(list: Seq<TickerPayloadDetail>) -> Seq<CurrencyId>
    decreases list.len(),
{
    if list.len() == 0 {
        seq![]
    } else {
        let s = dedup_symbols(list.drop_last());
        if s.contains(list.last().symbol) {
            s
        } else {
            s.push(list.last().symbol)
        }
    }
}

/// The storage after `who`'s submission of `list` for round `index` at block `b`.
///
/// A submission for the current or a later block is ignored. Otherwise the
/// round of each submitted currency is updated; if none was accepted nothing
/// else happens, else the tickers of the accepted currencies are appended to
/// `who`'s histories and `OffchainInvoke` is deposited.
pub open spec fn after_append_price(
    v: OracleView,
    who: AccountId,
    index: RoundIndex,
    list: Seq<TickerPayloadDetail>,
    b: BlockNumber,
) -> OracleView {
    if index >= b {
        v
    } else {
        let sub = submit_rounds(v.rounds, who, index, b, dedup_symbols(list));
        if sub.1.len() == 0 {
            OracleView { rounds: sub.0, ..v }
        } else {
            let rec = record_tickers(v.ocw_prices, v.events, who, index, b, sub.1, list);
            OracleView {
                rounds: sub.0,
                ocw_prices: rec.0,
                events: rec.1.push(Event::OffchainInvoke(Some(who), index)),
                ..v
            }
        }
    }
}

/// Whether `x` occurs in `v`.
fn contains_account(v: &Vec<AccountId>, x: AccountId) -> (r: bool)
    ensures
        r == v@.contains(x),
{
    let mut i: usize = 0;
    while i < v.len()
        invariant
            i <= v@.len(),
            forall|j: int| 0 <= j < i ==> v@[j] != x,
        decreases v@.len() - i,
    {
        if v[i] == x {
            return true;
        }
        i = i + 1;
    }
    false
}

/// Whether `x` occurs in `v`.
fn contains_currency(v: &Vec<CurrencyId>, x: CurrencyId) -> (r: bool)
    ensures
        r == v@.contains(x),
{
    let mut i: usize = 0;
    while i < v.len()
        invariant
            i <= v@.len(),
            forall|j: int| 0 <= j < i ==> v@[j] != x,
        decreases v@.len() - i,
    {
        if v[i] == x {
            return true;
        }
        i = i + 1;
    }
    false
}

/// The round after `who`'s submission to round `rb` at block `b`, or `None` if refused.
fn next_round(round: Option<&Round>, who: AccountId, rb: RoundIndex, b: BlockNumber) -> (r: Option<
    Round,
>)
    requires
        rb < b,
    ensures
        opt_round_view(r) == round_after_submit(round_view_of(round), who, rb, b),
{
    match round {
        None => {
            let r = Round { index: rb, provider: vec![who], combined: false, last_combined: rb };
            assert(r.provider@ =~= seq![who]);
            Some(r)
        },
        Some(round) => {
            if rb < round.index {
                return None;
            }
            if rb == round.index {
                if contains_account(&round.provider, who) {
                    return None;
                }
                let mut provider = round.provider.clone();
                assert(provider@ =~= round.provider@);
                provider.push(who);
                Some(
                    Round {
                        index: round.index,
                        provider,
                        combined: false,
                        last_combined: round.last_combined,
                    },
                )
            } else {
                let expired = b - round.index > UPDATE_ROUND_INDEX_LIMIT as u64;
                if round.combined || expired {
                    let r = Round {
                        index: rb,
                        provider: vec![who],
                        combined: false,
                        last_combined: round.last_combined,
                    };
                    assert(r.provider@ =~= seq![who]);
                    Some(r)
                } else {
                    None
                }
            }
        },
    }
}

/// `h` with `p` appended, dropping the oldest record once `NUM_VEC_LEN` are kept;
/// also returns the dropped record, or else the record that was newest before.
fn push_history(h: &mut VecDeque<PriceDetailOf>, p: PriceDetailOf) -> (reported: Option<
    PriceDetailOf,
>)
    ensures
        final(h)@ == history_push(old(h)@, p),
        reported == reported_record(old(h)@),
{
    let len = h.len();
    let mut reported = if len > 0 {
        Some(h[len - 1])
    } else {
        None
    };
    if h.len() == NUM_VEC_LEN {
        reported = h.pop_front();
    }
    h.push_back(p);
    proof {
        if old(h)@.len() == NUM_VEC_LEN {
            assert(old(h)@.subrange(1, old(h)@.len() as int) =~= old(h)@.drop_first());
        }
    }
    reported
}

impl Pallet {
    /// The round of every tracked currency opened, and was last aggregated,
    /// at or before block `b`.
    pub open spec fn tracked_rounds_not_after(v: OracleView, b: BlockNumber) -> bool {
        forall|c: CurrencyId|
            v.currencies.contains(c) && #[trigger] v.rounds.contains_key(c) ==> v.rounds[c].index
                <= b && v.rounds[c].last_combined <= b
    }

    /// The current round of every currency opened at or before block `b`.
    pub open spec fn rounds_not_after(rounds: Map<CurrencyId, RoundView>, b: BlockNumber) -> bool {
        forall|c: CurrencyId|
            #[trigger] rounds.contains_key(c) ==> rounds[c].index <= b && rounds[c].last_combined
                <= b
    }

    /// Opens, joins or restarts the rounds of `submit_currencies` for `who`'s
    /// submission to round `rb`; returns the currencies whose round accepted it.
    fn update_round(
        &mut self,
        who: AccountId,
        rb: RoundIndex,
        submit_currencies: &Vec<CurrencyId>,
        b: BlockNumber,
    ) -> (rst: Vec<CurrencyId>)
        requires
            rb < b,
        ensures
            final(self)@ == (OracleView {
                rounds: submit_rounds(old(self)@.rounds, who, rb, b, submit_currencies@).0,
                ..old(self)@
            }),
            rst@ == submit_rounds(old(self)@.rounds, who, rb, b, submit_currencies@).1,
            providers_distinct(old(self)@.rounds) ==> providers_distinct(final(self)@.rounds),
            forall|c: CurrencyId| #[trigger]
                rst@.contains(c) ==> final(self)@.rounds.contains_key(c)
                    && final(self)@.rounds[c].index == rb && final(self)@.rounds[c].provider.contains(
                    who,
                ) && !final(self)@.rounds[c].combined,
    {
        proof {
            if providers_distinct(old(self)@.rounds) {
                submit_rounds_keeps_providers_distinct(
                    old(self)@.rounds,
                    who,
                    rb,
                    b,
                    submit_currencies@,
                );
            }
            submit_rounds_join(old(self)@.rounds, who, rb, b, submit_currencies@);
        }
        let ghost cs = submit_currencies@;
        let mut rst: Vec<CurrencyId> = Vec::new();
        let mut i: usize = 0;
        while i < submit_currencies.len()
            invariant
                i <= cs.len(),
                cs == submit_currencies@,
                rb < b,
                self@ == (OracleView {
                    rounds: submit_rounds(old(self)@.rounds, who, rb, b, cs.take(i as int)).0,
                    ..old(self)@
                }),
                rst@ == submit_rounds(old(self)@.rounds, who, rb, b, cs.take(i as int)).1,
            decreases cs.len() - i,
        {
            let c = submit_currencies[i];
            assert(cs.take(i + 1).drop_last() =~= cs.take(i as int));
            let next = next_round(self.rounds.get(&c), who, rb, b);
            match next {
                Some(r) => {
                    self.rounds.insert(c, r);
                    rst.push(c);
                },
                None => {},
            }
            i = i + 1;
        }
        assert(cs.take(cs.len() as int) =~= cs);
        rst
    }

    /// Appends the tickers of `list` whose currency is in `accepted` to `who`'s
    /// price histories, depositing `AppendPrice` for each.
    fn update_price(
        &mut self,
        who: AccountId,
        rb: RoundIndex,
        accepted: &Vec<CurrencyId>,
        list: &Vec<TickerPayloadDetail>,
        b: BlockNumber,
    )
        ensures
            final(self)@ == (OracleView {
                ocw_prices: record_tickers(
                    old(self)@.ocw_prices,
                    old(self)@.events,
                    who,
                    rb,
                    b,
                    accepted@,
                    list@,
                ).0,
                events: record_tickers(
                    old(self)@.ocw_prices,
                    old(self)@.events,
                    who,
                    rb,
                    b,
                    accepted@,
                    list@,
                ).1,
                ..old(self)@
            }),
            histories_bounded(old(self)@.ocw_prices) ==> histories_bounded(
                final(self)@.ocw_prices,
            ),
            histories_at_most(old(self)@.ocw_prices) ==> histories_at_most(
                final(self)@.ocw_prices,
            ),
    {
        proof {
            if histories_at_most(old(self)@.ocw_prices) {
                record_tickers_keeps_histories_at_most(
                    old(self)@.ocw_prices,
                    old(self)@.events,
                    who,
                    rb,
                    b,
                    accepted@,
                    list@,
                );
            }
            if histories_bounded(old(self)@.ocw_prices) {
                record_tickers_keeps_histories_bounded(
                    old(self)@.ocw_prices,
                    old(self)@.events,
                    who,
                    rb,
                    b,
                    accepted@,
                    list@,
                );
            }
        }
        let ghost ls = list@;
        let mut i: usize = 0;
        while i < list.len()
            invariant
                i <= ls.len(),
                ls == list@,
                self@ == (OracleView {
                    ocw_prices: record_tickers(
                        old(self)@.ocw_prices,
                        old(self)@.events,
                        who,
                        rb,
                        b,
                        accepted@,
                        ls.take(i as int),
                    ).0,
                    events: record_tickers(
                        old(self)@.ocw_prices,
                        old(self)@.events,
                        who,
                        rb,
                        b,
                        accepted@,
                        ls.take(i as int),
                    ).1,
                    ..old(self)@
                }),
            decreases ls.len() - i,
        {
            let t = list[i];
            assert(ls.take(i + 1).drop_last() =~= ls.take(i as int));
            if contains_currency(accepted, t.symbol) {
                let key = (who, t.data_source_enum, t.symbol);
                let p = PriceDetailOf {
                    index: rb,
                    blocknumber: b,
                    price: t.price,
                    timestamp: t.timestamp,
                };
                let ghost before = self@;
                match self.ocw_prices.remove(&key) {
                    Some(mut h) => {
                        let reported = push_history(&mut h, p);
                        self.ocw_prices.insert(key, h);
                        self.events.push(Event::AppendPrice(Some(who), reported));
                        assert(self@.ocw_prices =~= before.ocw_prices.insert(
                            key,
                            history_push(before.ocw_prices[key], p),
                        ));
                    },
                    None => {
                        let mut h: VecDeque<PriceDetailOf> = VecDeque::new();
                        h.push_back(p);
                        assert(h@ =~= seq![p]);
                        self.ocw_prices.insert(key, h);
                        self.events.push(Event::AppendPrice(Some(who), None));
                    },
                }
            }
            i = i + 1;
        }
        assert(ls.take(ls.len() as int) =~= ls);
    }
}


/// Whether the strategy is emergency feeding.
pub open spec fn is_emergency(s: Option<AggregationStrategyEnum>) -> bool {
    s == Some(AggregationStrategyEnum::EMERGENCY)
}

/// The rounds after the aggregation time of the round of each currency of `cs`
/// was set to block `b`.
pub open spec fn reset_last_combined(
    rounds: Map<CurrencyId, RoundView>,
    cs: Seq<CurrencyId>,
    b: BlockNumber,
) -> Map<CurrencyId, RoundView>
    decreases cs.len(),
{
    if cs.len() == 0 {
        rounds
    } else {
        let m = reset_last_combined(rounds, cs.drop_last(), b);
        let c = cs.last();
        if m.contains_key(c) {
            m.insert(c, RoundView { last_combined: b, ..m[c] })
        } else {
            m
        }
    }
}

/// The request urls that `insert_initial_data` installs on top of `m`.
pub open spec fn initial_urls(m: Map<(CurrencyId, DataSourceEnum), Seq<u8>>) -> Map<
    (CurrencyId, DataSourceEnum),
    Seq<u8>,
> {
    m.insert(
        (CurrencyId::DOT, DataSourceEnum::BINANCE),
        "https://api.binance.com/api/v3/ticker/price?symbol=DOTUSDT".spec_bytes(),
    ).insert(
        (CurrencyId::KSM, DataSourceEnum::BINANCE),
        "https://api.binance.com/api/v3/ticker/price?symbol=KSMUSDT".spec_bytes(),
    ).insert(
        (CurrencyId::BTC, DataSourceEnum::BINANCE),
        "https://api.binance.com/api/v3/ticker/price?symbol=BTCUSDT".spec_bytes(),
    ).insert(
        (CurrencyId::USDC, DataSourceEnum::BINANCE),
        "https://api.binance.com/api/v3/ticker/price?symbol=USDCUSDT".spec_bytes(),
    ).insert(
        (CurrencyId::xDOT, DataSourceEnum::BINANCE),
        "https://api.binance.com/api/v3/ticker/price?symbol=DOTUSDT".spec_bytes(),
    ).insert(
        (CurrencyId::BTC, DataSourceEnum::COINBASE),
        "https://api.pro.coinbase.com/products/btc-usd/ticker".spec_bytes(),
    ).insert(
        (CurrencyId::DOT, DataSourceEnum::COINCAP),
        "https://api.coincap.io/v2/assets/polkadot".spec_bytes(),
    ).insert(
        (CurrencyId::KSM, DataSourceEnum::COINCAP),
        "https://api.coincap.io/v2/assets/kusama".spec_bytes(),
    ).insert(
        (CurrencyId::BTC, DataSourceEnum::COINCAP),
        "https://api.coincap.io/v2/assets/bitcoin".spec_bytes(),
    ).insert(
        (CurrencyId::USDC, DataSourceEnum::COINCAP),
        "https://api.coincap.io/v2/assets/usd-coin".spec_bytes(),
    ).insert(
        (CurrencyId::xDOT, DataSourceEnum::COINCAP),
        "https://api.coincap.io/v2/assets/polkadot".spec_bytes(),
    )
}

/// The outcome of handing a signed transaction to the signer: no account to
/// sign with, or the submission's own result.
pub fn signed_tx_result(sent: Option<Result<(), ()>>) -> (r: Result<(), Error>)
    ensures
        match sent {
            None => r == Err::<(), Error>(Error::NoLocalAcctForSigning),
            Some(Err(_)) => r == Err::<(), Error>(Error::OffchainUnsignedTxSignedPayloadError),
            Some(Ok(_)) => r == Ok::<(), Error>(()),
        },
{
    match sent {
        Some(Ok(())) => Ok(()),
        Some(Err(())) => Err(Error::OffchainUnsignedTxSignedPayloadError),
        None => Err(Error::NoLocalAcctForSigning),
    }
}

/// The currencies of `list`, each once, in order of first appearance.
fn submit_currencies(list: &Vec<TickerPayloadDetail>) -> (r: Vec<CurrencyId>)
    ensures
        r@ == dedup_symbols(list@),
{
    let ghost ls = list@;
    let mut r: Vec<CurrencyId> = Vec::new();
    let mut i: usize = 0;
    while i < list.len()
        invariant
            i <= ls.len(),
            ls == list@,
            r@ == dedup_symbols(ls.take(i as int)),
        decreases ls.len() - i,
    {
        assert(ls.take(i + 1).drop_last() =~= ls.take(i as int));
        let sym = list[i].symbol;
        if !contains_currency(&r, sym) {
            r.push(sym);
        }
        i = i + 1;
    }
    assert(ls.take(ls.len() as int) =~= ls);
    r
}

/// Whether the strategy is emergency feeding.
fn strategy_is_emergency(s: Option<AggregationStrategyEnum>) -> (r: bool)
    ensures
        r == is_emergency(s),
{
    match s {
        Some(AggregationStrategyEnum::EMERGENCY) => true,
        _ => false,
    }
}

impl Pallet {
    /// Records `who`'s submission `payload` at block `b` (see [`after_append_price`]).
    fn append_price(&mut self, who: AccountId, payload: Payload, b: BlockNumber)
        ensures
            final(self)@ == after_append_price(old(self)@, who, payload.index, payload.list@, b),
            payload.index >= b ==> final(self)@ == old(self)@,
            payload.index < b ==> ({
                let sub = submit_rounds(
                    old(self)@.rounds,
                    who,
                    payload.index,
                    b,
                    dedup_symbols(payload.list@),
                );
                let rec = record_tickers(
                    old(self)@.ocw_prices,
                    old(self)@.events,
                    who,
                    payload.index,
                    b,
                    sub.1,
                    payload.list@,
                );
                &&& final(self)@.rounds == sub.0
                &&& sub.1.len() == 0 ==> final(self)@.ocw_prices == old(self)@.ocw_prices
                    && final(self)@.events == old(self)@.events
                &&& sub.1.len() > 0 ==> final(self)@.ocw_prices == rec.0 && final(self)@.events
                    == rec.1.push(Event::OffchainInvoke(Some(who), payload.index))
            }),
    {
        let round_blocknumber = payload.index;
        if round_blocknumber >= b {
            return ;
        }
        let list = payload.list;
        let submit = submit_currencies(&list);
        let accepted = self.update_round(who, round_blocknumber, &submit, b);
        if accepted.len() == 0 {
            return ;
        }
        self.update_price(who, round_blocknumber, &accepted, &list, b);
        self.events.push(Event::OffchainInvoke(Some(who), round_blocknumber));
    }

    /// Submission of prices by an off-chain worker, at block `b`.
    ///
    /// Fails with `BadOrigin` unless signed and with `NoPermission` unless the
    /// signer is a member; then the storage is unchanged. Otherwise the
    /// submission is recorded as [`after_append_price`] says.
    pub fn submit_price(&mut self, origin: Origin, payload: Payload, b: BlockNumber) -> (r: Result<
        (),
        DispatchError,
    >)
        ensures
            match signer_of(origin) {
                None => r == Err::<(), DispatchError>(DispatchError::BadOrigin) && final(self)@
                    == old(self)@,
                Some(who) => if !old(self)@.members.contains(who) {
                    &&& r == Err::<(), DispatchError>(DispatchError::Module(Error::NoPermission))
                    &&& final(self)@ == old(self)@
                } else {
                    &&& r == Ok::<(), DispatchError>(())
                    &&& final(self)@ == after_append_price(
                        old(self)@,
                        who,
                        payload.index,
                        payload.list@,
                        b,
                    )
                },
            },
    {
        let who = match ensure_signed(origin) {
            Ok(who) => who,
            Err(()) => return Err(DispatchError::BadOrigin),
        };
        if !self.members.contains(&who) {
            return Err(DispatchError::Module(Error::NoPermission));
        }
        self.append_price(who, payload, b);
        Ok(())
    }

    /// Hand-fed price of a member while the oracle is in emergency feeding.
    ///
    /// `now` is the chain's time. Fails with `BadOrigin` unless signed and with
    /// `NoPermission` unless the signer is a member. Outside emergency feeding
    /// nothing changes. In emergency feeding the price is stored with `now` as
    /// its timestamp, or `ParseTimestampError` is returned if `now` does not
    /// fit a timestamp.
    pub fn emergency_feed(
        &mut self,
        origin: Origin,
        currency_id: CurrencyId,
        price: Price,
        now: u128,
    ) -> (r: Result<(), DispatchError>)
        ensures
            match signer_of(origin) {
                None => r == Err::<(), DispatchError>(DispatchError::BadOrigin) && final(self)@
                    == old(self)@,
                Some(who) => if !old(self)@.members.contains(who) {
                    &&& r == Err::<(), DispatchError>(DispatchError::Module(Error::NoPermission))
                    &&& final(self)@ == old(self)@
                } else if !is_emergency(old(self)@.aggregation_strategy) {
                    r == Ok::<(), DispatchError>(()) && final(self)@ == old(self)@
                } else if now > u64::MAX {
                    &&& r == Err::<(), DispatchError>(
                        DispatchError::Module(Error::ParseTimestampError),
                    )
                    &&& final(self)@ == old(self)@
                } else {
                    &&& r == Ok::<(), DispatchError>(())
                    &&& final(self)@ == (OracleView {
                        prices: old(self)@.prices.insert(currency_id, (price, now as u64)),
                        ..old(self)@
                    })
                },
            },
    {
        let who = match ensure_signed(origin) {
            Ok(who) => who,
            Err(()) => return Err(DispatchError::BadOrigin),
        };
        if !self.members.contains(&who) {
            return Err(DispatchError::Module(Error::NoPermission));
        }
        if strategy_is_emergency(self.aggregation_strategy) {
            let timestamp: Timestamp = match u64::try_from(now) {
                Ok(t) => t,
                Err(_) => return Err(DispatchError::Module(Error::ParseTimestampError)),
            };
            self.prices.insert(currency_id, (price, timestamp));
        }
        Ok(())
    }

    /// Sets the url from which the off-chain worker fetches `currency_id` from
    /// `data_source_enum`. Root only.
    pub fn change_url(
        &mut self,
        origin: Origin,
        currency_id: CurrencyId,
        data_source_enum: DataSourceEnum,
        url: Vec<u8>,
    ) -> (r: Result<(), DispatchError>)
        ensures
            origin != Origin::Root ==> r == Err::<(), DispatchError>(DispatchError::BadOrigin)
                && final(self)@ == old(self)@,
            origin == Origin::Root ==> r == Ok::<(), DispatchError>(()) && final(self)@ == (
            OracleView {
                request_url: old(self)@.request_url.insert((currency_id, data_source_enum), url@),
                ..old(self)@
            }),
    {
        if ensure_root(origin).is_err() {
            return Err(DispatchError::BadOrigin);
        }
        self.request_url.insert((currency_id, data_source_enum), url);
        Ok(())
    }

    /// Replaces the members by the accounts of `members`. Root only.
    pub fn change_members(&mut self, origin: Origin, members: Vec<AccountId>) -> (r: Result<
        (),
        DispatchError,
    >)
        ensures
            origin != Origin::Root ==> r == Err::<(), DispatchError>(DispatchError::BadOrigin)
                && final(self)@ == old(self)@,
            origin == Origin::Root ==> r == Ok::<(), DispatchError>(()) && final(self)@ == (
            OracleView { members: members@.to_set(), ..old(self)@ }),
    {
        if ensure_root(origin).is_err() {
            return Err(DispatchError::BadOrigin);
        }
        let ghost ms = members@;
        let mut set: BTreeSet<AccountId> = BTreeSet::new();
        let mut i: usize = 0;
        while i < members.len()
            invariant
                i <= ms.len(),
                ms == members@,
                set@ == ms.take(i as int).to_set(),
            decreases ms.len() - i,
        {
            let a = members[i];
            set.insert(a);
            proof {
                let prev = ms.take(i as int);
                let next = ms.take(i + 1);
                assert(next =~= prev.push(a));
                assert forall|x: AccountId| #[trigger] set@.contains(x) implies next.contains(x) by {
                    if x != a {
                        let j = choose|j: int| 0 <= j < prev.len() && #[trigger] prev[j] == x;
                        assert(next[j] == x);
                    } else {
                        assert(next[i as int] == a);
                    }
                }
                assert forall|x: AccountId| #[trigger] next.contains(x) implies set@.contains(x) by {
                    let j = choose|j: int| 0 <= j < next.len() && #[trigger] next[j] == x;
                    if j < i {
                        assert(prev[j] == x);
                    }
                }
                assert(set@ =~= next.to_set());
            }
            i = i + 1;
        }
        assert(ms.take(ms.len() as int) =~= ms);
        self.members = set;
        Ok(())
    }

    /// Chooses how rounds are aggregated, at block `b`. Root only.
    ///
    /// Leaving emergency feeding restarts the aggregation clock: the round of
    /// every tracked currency counts as aggregated at `b`.
    pub fn change_aggregation_strategy(
        &mut self,
        origin: Origin,
        strategy: AggregationStrategyEnum,
        b: BlockNumber,
    ) -> (r: Result<(), DispatchError>)
        ensures
            origin != Origin::Root ==> r == Err::<(), DispatchError>(DispatchError::BadOrigin)
                && final(self)@ == old(self)@,
            origin == Origin::Root ==> r == Ok::<(), DispatchError>(()) && final(self)@ == (
            OracleView {
                rounds: if is_emergency(old(self)@.aggregation_strategy) && strategy
                    != AggregationStrategyEnum::EMERGENCY {
                    reset_last_combined(old(self)@.rounds, old(self)@.currencies, b)
                } else {
                    old(self)@.rounds
                },
                aggregation_strategy: Some(strategy),
                ..old(self)@
            }),
            origin == Origin::Root && is_emergency(old(self)@.aggregation_strategy) && strategy
                != AggregationStrategyEnum::EMERGENCY ==> {
                &&& final(self)@.rounds.dom() == old(self)@.rounds.dom()
                &&& forall|c: CurrencyId| #[trigger]
                    old(self)@.rounds.contains_key(c) ==> final(self)@.rounds[c] == (if old(
                        self,
                    )@.currencies.contains(c) {
                        RoundView {
                            index: old(self)@.rounds[c].index,
                            provider: old(self)@.rounds[c].provider,
                            combined: old(self)@.rounds[c].combined,
                            last_combined: b,
                        }
                    } else {
                        old(self)@.rounds[c]
                    })
            },
    {
        proof {
            leaving_emergency_resets_every_tracked_round(old(self)@.rounds, old(self)@.currencies, b);
        }
        if ensure_root(origin).is_err() {
            return Err(DispatchError::BadOrigin);
        }
        let current_is_emergency = strategy_is_emergency(self.aggregation_strategy);
        let input_is_not_emergency = match strategy {
            AggregationStrategyEnum::EMERGENCY => false,
            _ => true,
        };
        if current_is_emergency && input_is_not_emergency {
            let currencies = self.currencies.clone();
            assert(currencies@ =~= old(self)@.currencies);
            let ghost cs = currencies@;
            let mut i: usize = 0;
            while i < currencies.len()
                invariant
                    i <= cs.len(),
                    cs == currencies@,
                    cs == old(self)@.currencies,
                    self@ == (OracleView {
                        rounds: reset_last_combined(old(self)@.rounds, cs.take(i as int), b),
                        ..old(self)@
                    }),
                decreases cs.len() - i,
            {
                let c = currencies[i];
                assert(cs.take(i + 1).drop_last() =~= cs.take(i as int));
                let found = match self.rounds.get(&c) {
                    Some(round) => Some(copy_round(round)),
                    None => None,
                };
                match found {
                    Some(round) => {
                        self.rounds.insert(
                            c,
                            Round {
                                index: round.index,
                                provider: round.provider,
                                combined: round.combined,
                                last_combined: b,
                            },
                        );
                    },
                    None => {},
                }
                i = i + 1;
            }
            assert(cs.take(cs.len() as int) =~= cs);
        }
        self.aggregation_strategy = Some(strategy);
        Ok(())
    }

    /// Installs the initial configuration: median aggregation, the tracked
    /// currencies, the data sources and their request urls. Root only.
    pub fn insert_initial_data(&mut self, origin: Origin) -> (r: Result<(), DispatchError>)
        ensures
            origin != Origin::Root ==> r == Err::<(), DispatchError>(DispatchError::BadOrigin)
                && final(self)@ == old(self)@,
            origin == Origin::Root ==> r == Ok::<(), DispatchError>(()) && final(self)@ == (
            OracleView {
                aggregation_strategy: Some(AggregationStrategyEnum::MEDIAN),
                currencies: seq![
                    CurrencyId::DOT,
                    CurrencyId::KSM,
                    CurrencyId::BTC,
                    CurrencyId::USDC,
                    CurrencyId::xDOT,
                ],
                data_sources: seq![
                    DataSourceEnum::BINANCE,
                    DataSourceEnum::COINBASE,
                    DataSourceEnum::COINCAP,
                ],
                request_url: initial_urls(old(self)@.request_url),
                ..old(self)@
            }),
    {
        if ensure_root(origin).is_err() {
            return Err(DispatchError::BadOrigin);
        }
        let currencies = vec![
            CurrencyId::DOT,
            CurrencyId::KSM,
            CurrencyId::BTC,
            CurrencyId::USDC,
            CurrencyId::xDOT,
        ];
        let data_source_type = vec![
            DataSourceEnum::BINANCE,
            DataSourceEnum::COINBASE,
            DataSourceEnum::COINCAP,
        ];
        self.aggregation_strategy = Some(AggregationStrategyEnum::MEDIAN);
        self.currencies = currencies;
        self.data_sources = data_source_type;
        self.request_url.insert(
            (CurrencyId::DOT, DataSourceEnum::BINANCE),
            "https://api.binance.com/api/v3/ticker/price?symbol=DOTUSDT".as_bytes_vec(),
        );
        self.request_url.insert(
            (CurrencyId::KSM, DataSourceEnum::BINANCE),
            "https://api.binance.com/api/v3/ticker/price?symbol=KSMUSDT".as_bytes_vec(),
        );
        self.request_url.insert(
            (CurrencyId::BTC, DataSourceEnum::BINANCE),
            "https://api.binance.com/api/v3/ticker/price?symbol=BTCUSDT".as_bytes_vec(),
        );
        self.request_url.insert(
            (CurrencyId::USDC, DataSourceEnum::BINANCE),
            "https://api.binance.com/api/v3/ticker/price?symbol=USDCUSDT".as_bytes_vec(),
        );
        self.request_url.insert(
            (CurrencyId::xDOT, DataSourceEnum::BINANCE),
            "https://api.binance.com/api/v3/ticker/price?symbol=DOTUSDT".as_bytes_vec(),
        );
        self.request_url.insert(
            (CurrencyId::BTC, DataSourceEnum::COINBASE),
            "https://api.pro.coinbase.com/products/btc-usd/ticker".as_bytes_vec(),
        );
        self.request_url.insert(
            (CurrencyId::DOT, DataSourceEnum::COINCAP),
            "https://api.coincap.io/v2/assets/polkadot".as_bytes_vec(),
        );
        self.request_url.insert(
            (CurrencyId::KSM, DataSourceEnum::COINCAP),
            "https://api.coincap.io/v2/assets/kusama".as_bytes_vec(),
        );
        self.request_url.insert(
            (CurrencyId::BTC, DataSourceEnum::COINCAP),
            "https://api.coincap.io/v2/assets/bitcoin".as_bytes_vec(),
        );
        self.request_url.insert(
            (CurrencyId::USDC, DataSourceEnum::COINCAP),
            "https://api.coincap.io/v2/assets/usd-coin".as_bytes_vec(),
        );
        self.request_url.insert(
            (CurrencyId::xDOT, DataSourceEnum::COINCAP),
            "https://api.coincap.io/v2/assets/polkadot".as_bytes_vec(),
        );
        Ok(())
    }

    /// What the off-chain worker submits at block `b`, given whether a local
    /// account can sign and the outcome of fetching the prices: the fetched
    /// list for round `b`, when the worker runs and the fetch succeeded;
    /// otherwise nothing.
    pub fn offchain_submission(
        &self,
        can_sign: bool,
        fetched: Result<Vec<TickerPayloadDetail>, Error>,
        b: BlockNumber,
    ) -> (r: Option<Payload>)
        ensures
            match r {
                Some(p) => {
                    &&& !self@.members.is_empty() && can_sign
                    &&& fetched matches Ok(list) && p.list@ == list@
                    &&& p.index == b
                },
                None => self@.members.is_empty() || !can_sign || fetched is Err,
            },
    {
        if !self.offchain_worker_can_run(can_sign) {
            return None;
        }
        match fetched {
            Ok(list) => Some(Payload { index: b, list }),
            Err(_) => None,
        }
    }

    /// Whether the off-chain worker submits prices: only when there are
    /// members and a local account can sign.
    pub fn offchain_worker_can_run(&self, can_sign: bool) -> (r: bool)
        ensures
            r == (!self@.members.is_empty() && can_sign),
    {
        let none = self.members.is_empty();
        !none && can_sign
    }
}

impl Pallet {
    /// The stored price of `currency_id`, if any.
    pub fn get_price(&self, currency_id: &CurrencyId) -> (r: Option<PriceDetail>)
        ensures
            r == self@.prices.get(*currency_id),
    {
        match self.prices.get(currency_id) {
            Some(p) => Some(*p),
            None => None,
        }
    }

    /// The url from which `currency_id` is fetched from `data_source_enum`, if any.
    pub fn ocw_oracle_request_url(
        &self,
        currency_id: &CurrencyId,
        data_source_enum: &DataSourceEnum,
    ) -> (r: Option<Url>)
        ensures
            match r {
                Some(u) => self@.request_url.contains_key((*currency_id, *data_source_enum))
                    && u@ == self@.request_url[(*currency_id, *data_source_enum)],
                None => !self@.request_url.contains_key((*currency_id, *data_source_enum)),
            },
    {
        match self.request_url.get(&(*currency_id, *data_source_enum)) {
            Some(u) => {
                let c = u.clone();
                assert(c@ =~= u@);
                Some(c)
            },
            None => None,
        }
    }

    /// The current round of `currency_id`, if any.
    pub fn ocw_oracle_round(&self, currency_id: &CurrencyId) -> (r: Option<Round>)
        ensures
            opt_round_view(r) == self@.rounds.get(*currency_id),
    {
        match self.rounds.get(currency_id) {
            Some(round) => Some(copy_round(round)),
            None => None,
        }
    }

    /// The price history of `account` for a data source and currency, oldest first, if any.
    pub fn ocw_oracle_price(&self, account: &AccountId, key: &(DataSourceEnum, CurrencyId)) -> (r:
        Option<VecDeque<PriceDetailOf>>)
        ensures
            match r {
                Some(h) => self@.ocw_prices.contains_key((*account, key.0, key.1)) && h@
                    == self@.ocw_prices[(*account, key.0, key.1)],
                None => !self@.ocw_prices.contains_key((*account, key.0, key.1)),
            },
    {
        match self.ocw_prices.get(&(*account, key.0, key.1)) {
            Some(h) => {
                let c = h.clone();
                assert(c@ =~= h@);
                Some(c)
            },
            None => None,
        }
    }

    /// The currencies that the oracle tracks.
    pub fn ocw_oracle_currencies(&self) -> (r: Vec<CurrencyId>)
        ensures
            r@ == self@.currencies,
    {
        let r = self.currencies.clone();
        assert(r@ =~= self.currencies@);
        r
    }

    /// The data sources that the off-chain workers query.
    pub fn ocw_oracle_data_source(&self) -> (r: Vec<DataSourceEnum>)
        ensures
            r@ == self@.data_sources,
    {
        let r = self.data_sources.clone();
        assert(r@ =~= self.data_sources@);
        r
    }

    /// How rounds are aggregated.
    pub fn ocw_oracle_aggregation_strategy(&self) -> (r: Option<AggregationStrategyEnum>)
        ensures
            r == self@.aggregation_strategy,
    {
        self.aggregation_strategy
    }

    /// The accounts allowed to submit prices.
    pub fn members(&self) -> (r: BTreeSet<AccountId>)
        ensures
            r@ == self@.members,
    {
        self.members.clone()
    }

    /// The events deposited so far, oldest first.
    pub fn events(&self) -> (r: Vec<Event>)
        ensures
            r@ == self@.events,
    {
        let r = self.events.clone();
        assert(r@ =~= self.events@);
        r
    }
}

/// The storage with the strategy switched to emergency feeding.
pub open spec fn to_emergency(v: OracleView) -> OracleView {
    OracleView { aggregation_strategy: Some(AggregationStrategyEnum::EMERGENCY), ..v }
}

/// The storage after the end-of-block hook has handled currency `c` at block `b`.
///
/// For a round that opened at most `UPDATE_ROUND_INDEX_LIMIT` blocks ago and is
/// not yet aggregated: if its last aggregation is `EMERGENCY_PRICE_FEED_LIMIT`
/// or more blocks old, or no strategy is set, the oracle switches to emergency
/// feeding; else, with at least `MINIMUM_PROPOSERS` providers, the round is
/// aggregated and, on success, the price stored and the round marked
/// aggregated at `b`. An older round that opened `EMERGENCY_PRICE_FEED_LIMIT`
/// or more blocks ago switches to emergency feeding. A currency without a
/// round but with a stored price also does.
pub open spec fn finalize_currency(v: OracleView, c: CurrencyId, b: BlockNumber) -> OracleView {
    match v.rounds.get(c) {
        Some(r) => if b - r.index <= UPDATE_ROUND_INDEX_LIMIT && !r.combined {
            if b - r.last_combined >= EMERGENCY_PRICE_FEED_LIMIT {
                to_emergency(v)
            } else {
                match v.aggregation_strategy {
                    Some(strategy) => if r.provider.len() < MINIMUM_PROPOSERS {
                        v
                    } else {
                        match aggregate_spec(v, strategy, r.index, r.provider, c) {
                            Ok(pd) => OracleView {
                                prices: v.prices.insert(c, pd),
                                rounds: v.rounds.insert(
                                    c,
                                    RoundView {
                                        index: r.index,
                                        provider: r.provider,
                                        combined: true,
                                        last_combined: b,
                                    },
                                ),
                                ..v
                            },
                            Err(_) => v,
                        }
                    },
                    None => to_emergency(v),
                }
            }
        } else if b - r.index >= EMERGENCY_PRICE_FEED_LIMIT {
            to_emergency(v)
        } else {
            v
        },
        None => if v.prices.contains_key(c) {
            to_emergency(v)
        } else {
            v
        },
    }
}

/// [`finalize_currency`] applied to each currency of `cs` in order.
pub open spec fn finalize_all(v: OracleView, cs: Seq<CurrencyId>, b: BlockNumber) -> OracleView
    decreases cs.len(),
{
    if cs.len() == 0 {
        v
    } else {
        finalize_currency(finalize_all(v, cs.drop_last(), b), cs.last(), b)
    }
}

impl Pallet {
    fn set_emergency(&mut self)
        ensures
            final(self)@ == to_emergency(old(self)@),
    {
        self.aggregation_strategy = Some(AggregationStrategyEnum::EMERGENCY);
    }

    fn finalize_one(&mut self, currency_id: CurrencyId, b: BlockNumber)
        requires
            old(self)@.rounds.contains_key(currency_id) ==> old(self)@.rounds[currency_id].index
                <= b && old(self)@.rounds[currency_id].last_combined <= b,
        ensures
            final(self)@ == finalize_currency(old(self)@, currency_id, b),
    {
        let found = match self.rounds.get(&currency_id) {
            Some(round) => Some(copy_round(round)),
            None => None,
        };
        match found {
            Some(round) => {
                assert(self@.rounds.contains_key(currency_id));
                let block_interval = b - round.index;
                if block_interval <= UPDATE_ROUND_INDEX_LIMIT as u64 && !round.combined {
                    if b - round.last_combined >= EMERGENCY_PRICE_FEED_LIMIT as u64 {
                        self.set_emergency();
                    } else {
                        match self.aggregation_strategy {
                            Some(strategy) => {
                                if round.provider.len() < MINIMUM_PROPOSERS as usize {
                                    return ;
                                }
                                match aggregate_price(
                                    self,
                                    strategy,
                                    &round.index,
                                    &round.provider,
                                    &currency_id,
                                ) {
                                    Ok(price_detail) => {
                                        self.prices.insert(currency_id, price_detail);
                                        self.rounds.insert(
                                            currency_id,
                                            Round {
                                                index: round.index,
                                                provider: round.provider,
                                                combined: true,
                                                last_combined: b,
                                            },
                                        );
                                    },
                                    Err(_) => {},
                                }
                            },
                            None => {
                                self.set_emergency();
                            },
                        }
                    }
                } else if block_interval >= EMERGENCY_PRICE_FEED_LIMIT as u64 {
                    self.set_emergency();
                }
            },
            None => {
                if self.prices.get(&currency_id).is_some() {
                    self.set_emergency();
                }
            },
        }
    }

    /// The end-of-block hook at block `b`: handles the round of every tracked
    /// currency in order, as [`finalize_all`] says.
    ///
    /// The round of every tracked currency must have opened, and last been
    /// aggregated, at or before `b`.
    pub fn on_finalize(&mut self, b: BlockNumber)
        requires
            Self::tracked_rounds_not_after(old(self)@, b),
        ensures
            final(self)@ == finalize_all(old(self)@, old(self)@.currencies, b),
            Self::tracked_rounds_not_after(final(self)@, b),
            forall|c: CurrencyId|
                #![trigger old(self)@.prices.contains_key(c)]
                old(self)@.currencies.contains(c) && !old(self)@.rounds.contains_key(c) && old(
                    self,
                )@.prices.contains_key(c) ==> final(self)@.aggregation_strategy == Some(
                    AggregationStrategyEnum::EMERGENCY,
                ),
    {
        proof {
            assert forall|c: CurrencyId|
                #![trigger old(self)@.prices.contains_key(c)]
                old(self)@.currencies.contains(c) && !old(self)@.rounds.contains_key(c) && old(
                    self,
                )@.prices.contains_key(c) implies finalize_all(
                old(self)@,
                old(self)@.currencies,
                b,
            ).aggregation_strategy == Some(AggregationStrategyEnum::EMERGENCY) by {
                finalize_absent_round_means_emergency(old(self)@, old(self)@.currencies, b, c);
            }
        }
        let currencies = self.currencies.clone();
        assert(currencies@ =~= old(self)@.currencies);
        let ghost cs = currencies@;
        let mut i: usize = 0;
        while i < currencies.len()
            invariant
                i <= cs.len(),
                cs == currencies@,
                self@ == finalize_all(old(self)@, cs.take(i as int), b),
                cs == self@.currencies,
                Self::tracked_rounds_not_after(self@, b),
            decreases cs.len() - i,
        {
            assert(cs.take(i + 1).drop_last() =~= cs.take(i as int));
            assert(cs.contains(cs[i as int]));
            let ghost before = self@;
            self.finalize_one(currencies[i], b);
            assert forall|c: CurrencyId|
                self@.currencies.contains(c) && #[trigger] self@.rounds.contains_key(
                    c,
                ) implies self@.rounds[c].index <= b && self@.rounds[c].last_combined <= b by {
                assert(before.rounds.contains_key(c));
            }
            i = i + 1;
        }
        assert(cs.take(cs.len() as int) =~= cs);
    }
}

} // verus!
