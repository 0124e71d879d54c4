use oracle_pallets::data_source::{
    get_ticker, response_text, Binance, Coinbase, Coincap, DataDetail, DataSourceApi, PriceJson,
};
use oracle_pallets::ocw_oracle::{Error, Pallet, TickerPayloadDetail};
use oracle_pallets::types::{CurrencyId, DataSourceEnum};
use oracle_pallets::util::{de_string_to_bytes, timestamp_from_moment, u64_to_decimal};

#[test]
fn response_must_be_text() {
    assert_eq!(response_text(b"{\"price\":\"1.5\"}"), Ok("{\"price\":\"1.5\"}"));
    assert_eq!(response_text(&[0xff, 0x20]), Err(Error::HttpFetchingError));
    assert_eq!(response_text("é".as_bytes()), Ok("é"));
}

#[test]
fn price_field_must_be_text() {
    assert_eq!(Pallet::price_text(b"32.02420000"), Ok("32.02420000"));
    assert_eq!(Pallet::price_text(&[0xc3]), Err(Error::ConvertToStringError));
}

#[test]
fn string_fields_become_bytes() {
    assert_eq!(de_string_to_bytes("DOTUSDT"), b"DOTUSDT".to_vec());
    assert_eq!(de_string_to_bytes(""), Vec::<u8>::new());
}

#[test]
fn timestamps_from_chain_time() {
    assert_eq!(timestamp_from_moment(1616844616682), Ok(1616844616682));
    assert_eq!(timestamp_from_moment(u64::MAX as u128), Ok(u64::MAX));
    assert_eq!(timestamp_from_moment(u64::MAX as u128 + 1), Err(Error::ParseTimestampError));
}

#[test]
fn binance_and_coinbase_use_chain_time() {
    let t = Binance::get_ticker(CurrencyId::DOT, DataSourceEnum::BINANCE, 3202420000, 5, 77).unwrap();
    assert_eq!(
        t,
        TickerPayloadDetail { symbol: CurrencyId::DOT, data_source_enum: DataSourceEnum::BINANCE, price: 3202420000, timestamp: 77 }
    );
    assert_eq!(
        Coinbase::get_ticker(CurrencyId::BTC, DataSourceEnum::COINBASE, 5, 0, u128::MAX),
        Err(Error::ParseTimestampError)
    );
}

#[test]
fn coincap_uses_response_time() {
    let json = PriceJson {
        data: DataDetail { id: b"polkadot".to_vec(), symbol: b"DOT".to_vec(), priceUsd: b"31.99".to_vec() },
        timestamp: 1616844616682,
    };
    let t = Coincap::get_ticker(CurrencyId::DOT, DataSourceEnum::COINCAP, 3199, json.timestamp, u128::MAX)
        .unwrap();
    assert_eq!(t.timestamp, 1616844616682);
    assert_eq!(
        get_ticker(CurrencyId::DOT, DataSourceEnum::COINCAP, 3199, 1616844616682, u128::MAX),
        Ok(t)
    );
    assert_eq!(
        get_ticker(CurrencyId::DOT, DataSourceEnum::BINANCE, 3199, 1616844616682, 5).unwrap().timestamp,
        5
    );
}

#[test]
fn decimal_text_of_numbers() {
    assert_eq!(u64_to_decimal(0), b"0".to_vec());
    assert_eq!(u64_to_decimal(1616844616682), b"1616844616682".to_vec());
    assert_eq!(u64_to_decimal(u64::MAX), u64::MAX.to_string().into_bytes());
}

#[test]
fn debug_text_of_coincap_response() {
    let json = PriceJson {
        data: DataDetail { id: b"polkadot".to_vec(), symbol: b"DOT".to_vec(), priceUsd: b"31.9914435600884307".to_vec() },
        timestamp: 1616844616682,
    };
    assert_eq!(
        String::from_utf8(json.data.debug_text().unwrap()).unwrap(),
        "{ id: polkadot, symbol: DOT, priceUsd: 31.9914435600884307 }"
    );
    assert_eq!(
        String::from_utf8(json.debug_text().unwrap()).unwrap(),
        "{ data: { id: polkadot, symbol: DOT, priceUsd: 31.9914435600884307 }, timestamp: 1616844616682 }"
    );
    let bad = PriceJson {
        data: DataDetail { id: vec![0xff], symbol: b"DOT".to_vec(), priceUsd: b"1".to_vec() },
        timestamp: 1,
    };
    assert_eq!(bad.data.debug_text(), None);
    assert_eq!(bad.debug_text(), Err(b"{ data: ".to_vec()));
}
