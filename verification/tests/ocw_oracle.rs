use oracle_pallets::aggregation_strategy::aggregate_price;
use oracle_pallets::ocw_oracle::{
    signed_tx_result, DispatchError, Error, Event, Pallet, Payload, PriceDetailOf,
    TickerPayloadDetail, NUM_VEC_LEN,
};
use oracle_pallets::types::{AggregationStrategyEnum, CurrencyId, DataSourceEnum, Origin};

fn ticker(symbol: CurrencyId, source: DataSourceEnum, price: u128, timestamp: u64) -> TickerPayloadDetail {
    TickerPayloadDetail { symbol, data_source_enum: source, price, timestamp }
}

fn pallet_with_members(members: Vec<u64>) -> Pallet {
    let mut p = Pallet::new();
    assert_eq!(p.insert_initial_data(Origin::Root), Ok(()));
    assert_eq!(p.change_members(Origin::Root, members), Ok(()));
    p
}

#[test]
fn new_pallet_is_empty() {
    let p = Pallet::new();
    assert_eq!(p.get_price(&CurrencyId::DOT), None);
    assert!(p.ocw_oracle_round(&CurrencyId::DOT).is_none());
    assert!(p.ocw_oracle_currencies().is_empty());
    assert!(p.ocw_oracle_data_source().is_empty());
    assert_eq!(p.ocw_oracle_aggregation_strategy(), None);
    assert!(p.members().is_empty());
    assert!(p.events().is_empty());
}

#[test]
fn insert_initial_data_installs_configuration() {
    let mut p = Pallet::new();
    assert_eq!(p.insert_initial_data(Origin::Root), Ok(()));
    assert_eq!(p.ocw_oracle_aggregation_strategy(), Some(AggregationStrategyEnum::MEDIAN));
    assert_eq!(
        p.ocw_oracle_currencies(),
        vec![CurrencyId::DOT, CurrencyId::KSM, CurrencyId::BTC, CurrencyId::USDC, CurrencyId::xDOT]
    );
    assert_eq!(
        p.ocw_oracle_data_source(),
        vec![DataSourceEnum::BINANCE, DataSourceEnum::COINBASE, DataSourceEnum::COINCAP]
    );
    assert_eq!(
        p.ocw_oracle_request_url(&CurrencyId::DOT, &DataSourceEnum::BINANCE),
        Some(b"https://api.binance.com/api/v3/ticker/price?symbol=DOTUSDT".to_vec())
    );
    assert_eq!(
        p.ocw_oracle_request_url(&CurrencyId::xDOT, &DataSourceEnum::COINCAP),
        Some(b"https://api.coincap.io/v2/assets/polkadot".to_vec())
    );
    assert_eq!(
        p.ocw_oracle_request_url(&CurrencyId::BTC, &DataSourceEnum::COINBASE),
        Some(b"https://api.pro.coinbase.com/products/btc-usd/ticker".to_vec())
    );
    assert_eq!(p.ocw_oracle_request_url(&CurrencyId::KSM, &DataSourceEnum::COINBASE), None);
}

#[test]
fn root_calls_refuse_other_origins() {
    let mut p = Pallet::new();
    assert_eq!(p.insert_initial_data(Origin::Signed(1)), Err(DispatchError::BadOrigin));
    assert_eq!(p.change_members(Origin::Unsigned, vec![1]), Err(DispatchError::BadOrigin));
    assert_eq!(
        p.change_url(Origin::Signed(1), CurrencyId::DOT, DataSourceEnum::BINANCE, vec![1]),
        Err(DispatchError::BadOrigin)
    );
    assert_eq!(
        p.change_aggregation_strategy(Origin::Signed(1), AggregationStrategyEnum::MEDIAN, 1),
        Err(DispatchError::BadOrigin)
    );
    assert_eq!(p.ocw_oracle_aggregation_strategy(), None);
    assert!(p.members().is_empty());
}

#[test]
fn change_url_sets_url() {
    let mut p = Pallet::new();
    assert_eq!(
        p.change_url(Origin::Root, CurrencyId::KSM, DataSourceEnum::COINBASE, b"abc".to_vec()),
        Ok(())
    );
    assert_eq!(
        p.ocw_oracle_request_url(&CurrencyId::KSM, &DataSourceEnum::COINBASE),
        Some(b"abc".to_vec())
    );
}

#[test]
fn change_members_keeps_each_account_once() {
    let mut p = Pallet::new();
    assert_eq!(p.change_members(Origin::Root, vec![3, 1, 3, 2]), Ok(()));
    let members: Vec<u64> = p.members().into_iter().collect();
    assert_eq!(members, vec![1, 2, 3]);
    assert_eq!(p.change_members(Origin::Root, vec![]), Ok(()));
    assert!(p.members().is_empty());
}

#[test]
fn submit_price_requires_signed_member() {
    let mut p = pallet_with_members(vec![1]);
    let payload = Payload { index: 5, list: vec![ticker(CurrencyId::DOT, DataSourceEnum::BINANCE, 100, 7)] };
    assert_eq!(p.submit_price(Origin::Unsigned, payload, 10), Err(DispatchError::BadOrigin));
    let payload = Payload { index: 5, list: vec![ticker(CurrencyId::DOT, DataSourceEnum::BINANCE, 100, 7)] };
    assert_eq!(
        p.submit_price(Origin::Signed(2), payload, 10),
        Err(DispatchError::Module(Error::NoPermission))
    );
    assert!(p.ocw_oracle_round(&CurrencyId::DOT).is_none());
    assert!(p.events().is_empty());
}

#[test]
fn submit_price_opens_rounds_and_records_prices() {
    let mut p = pallet_with_members(vec![1]);
    let payload = Payload {
        index: 5,
        list: vec![
            ticker(CurrencyId::DOT, DataSourceEnum::BINANCE, 100, 7),
            ticker(CurrencyId::DOT, DataSourceEnum::COINCAP, 110, 8),
            ticker(CurrencyId::KSM, DataSourceEnum::BINANCE, 50, 9),
        ],
    };
    assert_eq!(p.submit_price(Origin::Signed(1), payload, 10), Ok(()));
    let round = p.ocw_oracle_round(&CurrencyId::DOT).unwrap();
    assert_eq!(round.index, 5);
    assert_eq!(round.provider, vec![1]);
    assert!(!round.combined);
    assert_eq!(round.last_combined, 5);
    assert_eq!(p.ocw_oracle_round(&CurrencyId::KSM).unwrap().provider, vec![1]);
    let h = p.ocw_oracle_price(&1, &(DataSourceEnum::COINCAP, CurrencyId::DOT)).unwrap();
    assert_eq!(h.len(), 1);
    assert_eq!(h[0], PriceDetailOf { index: 5, blocknumber: 10, price: 110, timestamp: 8 });
    assert_eq!(
        p.events(),
        vec![
            Event::AppendPrice(Some(1), None),
            Event::AppendPrice(Some(1), None),
            Event::AppendPrice(Some(1), None),
            Event::OffchainInvoke(Some(1), 5),
        ]
    );
}

#[test]
fn submission_for_current_block_is_ignored() {
    let mut p = pallet_with_members(vec![1]);
    let payload = Payload { index: 10, list: vec![ticker(CurrencyId::DOT, DataSourceEnum::BINANCE, 100, 7)] };
    assert_eq!(p.submit_price(Origin::Signed(1), payload, 10), Ok(()));
    assert!(p.ocw_oracle_round(&CurrencyId::DOT).is_none());
    assert!(p.events().is_empty());
}

#[test]
fn account_joins_round_once_and_others_join() {
    let mut p = pallet_with_members(vec![1, 2]);
    let t = ticker(CurrencyId::DOT, DataSourceEnum::BINANCE, 100, 7);
    assert_eq!(p.submit_price(Origin::Signed(1), Payload { index: 5, list: vec![t] }, 6), Ok(()));
    assert_eq!(p.submit_price(Origin::Signed(1), Payload { index: 5, list: vec![t] }, 6), Ok(()));
    assert_eq!(p.ocw_oracle_round(&CurrencyId::DOT).unwrap().provider, vec![1]);
    assert_eq!(p.ocw_oracle_price(&1, &(DataSourceEnum::BINANCE, CurrencyId::DOT)).unwrap().len(), 1);
    assert_eq!(p.submit_price(Origin::Signed(2), Payload { index: 5, list: vec![t] }, 6), Ok(()));
    assert_eq!(p.ocw_oracle_round(&CurrencyId::DOT).unwrap().provider, vec![1, 2]);
    // an earlier round is refused
    assert_eq!(p.submit_price(Origin::Signed(2), Payload { index: 4, list: vec![t] }, 6), Ok(()));
    assert_eq!(p.ocw_oracle_round(&CurrencyId::DOT).unwrap().index, 5);
    // a later round is refused while the current one is fresh and not aggregated
    assert_eq!(p.submit_price(Origin::Signed(2), Payload { index: 6, list: vec![t] }, 7), Ok(()));
    assert_eq!(p.ocw_oracle_round(&CurrencyId::DOT).unwrap().index, 5);
    // and accepted once it is older than the update limit
    assert_eq!(p.submit_price(Origin::Signed(2), Payload { index: 8, list: vec![t] }, 9), Ok(()));
    let round = p.ocw_oracle_round(&CurrencyId::DOT).unwrap();
    assert_eq!(round.index, 8);
    assert_eq!(round.provider, vec![2]);
    assert_eq!(round.last_combined, 5);
}

#[test]
fn price_history_keeps_newest_records() {
    let mut p = pallet_with_members(vec![1]);
    for k in 0..12u64 {
        let index = k * 5;
        let t = ticker(CurrencyId::DOT, DataSourceEnum::BINANCE, 100 + k as u128, k);
        assert_eq!(p.submit_price(Origin::Signed(1), Payload { index, list: vec![t] }, index + 5), Ok(()));
    }
    let h = p.ocw_oracle_price(&1, &(DataSourceEnum::BINANCE, CurrencyId::DOT)).unwrap();
    assert_eq!(h.len(), NUM_VEC_LEN);
    assert_eq!(h[0].price, 102);
    assert_eq!(h[NUM_VEC_LEN - 1].price, 111);
    assert_eq!(h[NUM_VEC_LEN - 1].index, 55);
    let events = p.events();
    assert_eq!(
        events[events.len() - 2],
        Event::AppendPrice(Some(1), Some(PriceDetailOf { index: 5, blocknumber: 10, price: 101, timestamp: 1 }))
    );
}

#[test]
fn on_finalize_aggregates_median() {
    let mut p = pallet_with_members(vec![1, 2, 3]);
    for (who, price) in [(1u64, 100u128), (2, 300), (3, 200)] {
        let t = ticker(CurrencyId::DOT, DataSourceEnum::BINANCE, price, who);
        assert_eq!(p.submit_price(Origin::Signed(who), Payload { index: 5, list: vec![t] }, 6), Ok(()));
    }
    p.on_finalize(6);
    assert_eq!(p.get_price(&CurrencyId::DOT), Some((200, 3)));
    let round = p.ocw_oracle_round(&CurrencyId::DOT).unwrap();
    assert!(round.combined);
    assert_eq!(round.last_combined, 6);
    assert_eq!(p.ocw_oracle_aggregation_strategy(), Some(AggregationStrategyEnum::MEDIAN));
}

#[test]
fn median_of_even_count_is_upper_middle() {
    let mut p = pallet_with_members(vec![1, 2]);
    for (who, price) in [(1u64, 400u128), (2, 100)] {
        let t = ticker(CurrencyId::KSM, DataSourceEnum::COINCAP, price, who);
        assert_eq!(p.submit_price(Origin::Signed(who), Payload { index: 5, list: vec![t] }, 6), Ok(()));
    }
    let provider = p.ocw_oracle_round(&CurrencyId::KSM).unwrap().provider;
    assert_eq!(
        aggregate_price(&p, AggregationStrategyEnum::MEDIAN, &5, &provider, &CurrencyId::KSM),
        Ok((400, 1))
    );
    // records of another round do not count
    assert_eq!(
        aggregate_price(&p, AggregationStrategyEnum::MEDIAN, &4, &provider, &CurrencyId::KSM),
        Err(Error::EmptyPriceList)
    );
}

#[test]
fn other_strategies_are_not_implemented() {
    let p = pallet_with_members(vec![1]);
    assert_eq!(
        aggregate_price(&p, AggregationStrategyEnum::AVERAGE, &5, &vec![1], &CurrencyId::DOT),
        Err(Error::NotImplement)
    );
    assert_eq!(
        aggregate_price(&p, AggregationStrategyEnum::EMERGENCY, &5, &vec![1], &CurrencyId::DOT),
        Err(Error::NotImplement)
    );
}

#[test]
fn median_breaks_price_ties_by_submission_order() {
    let mut p = pallet_with_members(vec![1, 2, 3, 4]);
    for (who, price) in [(1u64, 300u128), (2, 100), (3, 300), (4, 200)] {
        let t = ticker(CurrencyId::BTC, DataSourceEnum::BINANCE, price, who);
        assert_eq!(p.submit_price(Origin::Signed(who), Payload { index: 5, list: vec![t] }, 6), Ok(()));
    }
    let provider = p.ocw_oracle_round(&CurrencyId::BTC).unwrap().provider;
    assert_eq!(
        aggregate_price(&p, AggregationStrategyEnum::MEDIAN, &5, &provider, &CurrencyId::BTC),
        Ok((300, 1))
    );
    let mut q = pallet_with_members(vec![1, 2, 3]);
    for who in [1u64, 2, 3] {
        let t = ticker(CurrencyId::BTC, DataSourceEnum::BINANCE, 100, 10 + who);
        assert_eq!(q.submit_price(Origin::Signed(who), Payload { index: 5, list: vec![t] }, 6), Ok(()));
    }
    let provider = q.ocw_oracle_round(&CurrencyId::BTC).unwrap().provider;
    assert_eq!(
        aggregate_price(&q, AggregationStrategyEnum::MEDIAN, &5, &provider, &CurrencyId::BTC),
        Ok((100, 12))
    );
}

#[test]
fn on_finalize_twice_is_once() {
    let mut p = pallet_with_members(vec![1, 2]);
    for (who, price) in [(1u64, 100u128), (2, 300)] {
        let t = ticker(CurrencyId::DOT, DataSourceEnum::BINANCE, price, who);
        assert_eq!(p.submit_price(Origin::Signed(who), Payload { index: 5, list: vec![t] }, 6), Ok(()));
    }
    let t = ticker(CurrencyId::KSM, DataSourceEnum::BINANCE, 50, 1);
    assert_eq!(p.submit_price(Origin::Signed(1), Payload { index: 0, list: vec![t] }, 1), Ok(()));
    p.on_finalize(8);
    let once = (
        p.get_price(&CurrencyId::DOT),
        p.get_price(&CurrencyId::KSM),
        p.ocw_oracle_aggregation_strategy(),
        p.ocw_oracle_round(&CurrencyId::DOT).unwrap().combined,
        p.ocw_oracle_round(&CurrencyId::DOT).unwrap().last_combined,
        p.events(),
    );
    assert_eq!(once.0, Some((300, 2)));
    assert_eq!(once.2, Some(AggregationStrategyEnum::EMERGENCY));
    p.on_finalize(8);
    let twice = (
        p.get_price(&CurrencyId::DOT),
        p.get_price(&CurrencyId::KSM),
        p.ocw_oracle_aggregation_strategy(),
        p.ocw_oracle_round(&CurrencyId::DOT).unwrap().combined,
        p.ocw_oracle_round(&CurrencyId::DOT).unwrap().last_combined,
        p.events(),
    );
    assert_eq!(once, twice);
}

#[test]
fn stale_round_switches_to_emergency() {
    let mut p = pallet_with_members(vec![1]);
    let t = ticker(CurrencyId::DOT, DataSourceEnum::BINANCE, 100, 7);
    assert_eq!(p.submit_price(Origin::Signed(1), Payload { index: 5, list: vec![t] }, 6), Ok(()));
    p.on_finalize(8);
    assert_eq!(p.ocw_oracle_aggregation_strategy(), Some(AggregationStrategyEnum::MEDIAN));
    assert!(p.ocw_oracle_round(&CurrencyId::DOT).unwrap().combined);
    p.on_finalize(11);
    assert_eq!(p.ocw_oracle_aggregation_strategy(), Some(AggregationStrategyEnum::MEDIAN));
    p.on_finalize(12);
    assert_eq!(p.ocw_oracle_aggregation_strategy(), Some(AggregationStrategyEnum::EMERGENCY));
}

#[test]
fn long_unaggregated_round_switches_to_emergency() {
    let mut p = pallet_with_members(vec![1]);
    let t = ticker(CurrencyId::DOT, DataSourceEnum::BINANCE, 100, 7);
    // round opened at 0 and joined late: last aggregation is 0
    assert_eq!(p.submit_price(Origin::Signed(1), Payload { index: 0, list: vec![t] }, 1), Ok(()));
    assert_eq!(p.submit_price(Origin::Signed(1), Payload { index: 6, list: vec![t] }, 7), Ok(()));
    let round = p.ocw_oracle_round(&CurrencyId::DOT).unwrap();
    assert_eq!((round.index, round.last_combined), (6, 0));
    p.on_finalize(7);
    assert_eq!(p.ocw_oracle_aggregation_strategy(), Some(AggregationStrategyEnum::EMERGENCY));
    assert_eq!(p.get_price(&CurrencyId::DOT), None);
}

#[test]
fn missing_strategy_switches_to_emergency() {
    let mut p = Pallet::new();
    assert_eq!(p.change_members(Origin::Root, vec![1]), Ok(()));
    assert_eq!(p.insert_initial_data(Origin::Root), Ok(()));
    let t = ticker(CurrencyId::BTC, DataSourceEnum::BINANCE, 100, 7);
    assert_eq!(p.submit_price(Origin::Signed(1), Payload { index: 5, list: vec![t] }, 6), Ok(()));
    p.on_finalize(6);
    assert_eq!(p.get_price(&CurrencyId::BTC), Some((100, 7)));
    let mut q = Pallet::new();
    assert_eq!(q.change_members(Origin::Root, vec![1]), Ok(()));
    q.on_finalize(6);
    assert_eq!(q.ocw_oracle_aggregation_strategy(), None);
}

#[test]
fn emergency_feed_only_in_emergency() {
    let mut p = pallet_with_members(vec![1]);
    assert_eq!(p.emergency_feed(Origin::Signed(1), CurrencyId::DOT, 42, 1000), Ok(()));
    assert_eq!(p.get_price(&CurrencyId::DOT), None);
    assert_eq!(
        p.change_aggregation_strategy(Origin::Root, AggregationStrategyEnum::EMERGENCY, 3),
        Ok(())
    );
    assert_eq!(
        p.emergency_feed(Origin::Signed(2), CurrencyId::DOT, 42, 1000),
        Err(DispatchError::Module(Error::NoPermission))
    );
    assert_eq!(p.emergency_feed(Origin::Unsigned, CurrencyId::DOT, 42, 1000), Err(DispatchError::BadOrigin));
    assert_eq!(
        p.emergency_feed(Origin::Signed(1), CurrencyId::DOT, 42, u64::MAX as u128 + 1),
        Err(DispatchError::Module(Error::ParseTimestampError))
    );
    assert_eq!(p.get_price(&CurrencyId::DOT), None);
    assert_eq!(p.emergency_feed(Origin::Signed(1), CurrencyId::DOT, 42, 1000), Ok(()));
    assert_eq!(p.get_price(&CurrencyId::DOT), Some((42, 1000)));
}

#[test]
fn emergency_blocks_aggregation_and_absent_round_with_price_triggers_it() {
    let mut p = pallet_with_members(vec![1]);
    assert_eq!(
        p.change_aggregation_strategy(Origin::Root, AggregationStrategyEnum::EMERGENCY, 3),
        Ok(())
    );
    assert_eq!(p.emergency_feed(Origin::Signed(1), CurrencyId::KSM, 42, 1000), Ok(()));
    let t = ticker(CurrencyId::DOT, DataSourceEnum::BINANCE, 100, 7);
    assert_eq!(p.submit_price(Origin::Signed(1), Payload { index: 5, list: vec![t] }, 6), Ok(()));
    p.on_finalize(6);
    assert_eq!(p.get_price(&CurrencyId::DOT), None);
    assert!(!p.ocw_oracle_round(&CurrencyId::DOT).unwrap().combined);
    assert_eq!(p.get_price(&CurrencyId::KSM), Some((42, 1000)));
    assert_eq!(p.ocw_oracle_aggregation_strategy(), Some(AggregationStrategyEnum::EMERGENCY));
}

#[test]
fn leaving_emergency_restarts_aggregation_clock() {
    let mut p = pallet_with_members(vec![1]);
    let t = ticker(CurrencyId::DOT, DataSourceEnum::BINANCE, 100, 7);
    assert_eq!(p.submit_price(Origin::Signed(1), Payload { index: 5, list: vec![t] }, 6), Ok(()));
    assert_eq!(
        p.change_aggregation_strategy(Origin::Root, AggregationStrategyEnum::EMERGENCY, 7),
        Ok(())
    );
    assert_eq!(p.ocw_oracle_round(&CurrencyId::DOT).unwrap().last_combined, 5);
    assert_eq!(
        p.change_aggregation_strategy(Origin::Root, AggregationStrategyEnum::MEDIAN, 20),
        Ok(())
    );
    assert_eq!(p.ocw_oracle_round(&CurrencyId::DOT).unwrap().last_combined, 20);
    assert_eq!(p.ocw_oracle_aggregation_strategy(), Some(AggregationStrategyEnum::MEDIAN));
}

#[test]
fn signed_tx_outcomes() {
    assert_eq!(signed_tx_result(None), Err(Error::NoLocalAcctForSigning));
    assert_eq!(signed_tx_result(Some(Err(()))), Err(Error::OffchainUnsignedTxSignedPayloadError));
    assert_eq!(signed_tx_result(Some(Ok(()))), Ok(()));
}

#[test]
fn offchain_worker_needs_members_and_signer() {
    let p = Pallet::new();
    assert!(!p.offchain_worker_can_run(true));
    let p = pallet_with_members(vec![1]);
    assert!(p.offchain_worker_can_run(true));
    assert!(!p.offchain_worker_can_run(false));
}

#[test]
fn last_ticker_of_a_source_is_newest_record() {
    let mut p = pallet_with_members(vec![1]);
    let payload = Payload {
        index: 5,
        list: vec![
            ticker(CurrencyId::DOT, DataSourceEnum::BINANCE, 100, 7),
            ticker(CurrencyId::DOT, DataSourceEnum::BINANCE, 120, 8),
        ],
    };
    assert_eq!(p.submit_price(Origin::Signed(1), payload, 10), Ok(()));
    let h = p.ocw_oracle_price(&1, &(DataSourceEnum::BINANCE, CurrencyId::DOT)).unwrap();
    assert_eq!(h.len(), 2);
    assert_eq!(h[1], PriceDetailOf { index: 5, blocknumber: 10, price: 120, timestamp: 8 });
    assert_eq!(p.ocw_oracle_round(&CurrencyId::DOT).unwrap().provider, vec![1]);
}

#[test]
fn full_history_reports_dropped_record() {
    let mut p = pallet_with_members(vec![1]);
    for k in 0..11u64 {
        let index = k * 5;
        let t = ticker(CurrencyId::KSM, DataSourceEnum::COINCAP, 200 + k as u128, k);
        assert_eq!(p.submit_price(Origin::Signed(1), Payload { index, list: vec![t] }, index + 5), Ok(()));
        let events = p.events();
        let expected = if k == 0 {
            None
        } else if k < 10 {
            Some(PriceDetailOf { index: (k - 1) * 5, blocknumber: k * 5, price: 199 + k as u128, timestamp: k - 1 })
        } else {
            Some(PriceDetailOf { index: 0, blocknumber: 5, price: 200, timestamp: 0 })
        };
        assert_eq!(events[events.len() - 2], Event::AppendPrice(Some(1), expected));
    }
}

#[test]
fn offchain_submission_needs_members_signer_and_prices() {
    let list = vec![ticker(CurrencyId::DOT, DataSourceEnum::BINANCE, 100, 7)];
    let p = Pallet::new();
    assert!(p.offchain_submission(true, Ok(list.clone()), 9).is_none());
    let p = pallet_with_members(vec![1]);
    assert!(p.offchain_submission(false, Ok(list.clone()), 9).is_none());
    assert!(p.offchain_submission(true, Err(Error::HttpFetchingError), 9).is_none());
    let payload = p.offchain_submission(true, Ok(list.clone()), 9).unwrap();
    assert_eq!(payload.index, 9);
    assert_eq!(payload.list, list);
}
