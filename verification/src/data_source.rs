//! The price providers and the shape of their responses.
//!
//! A response must be text, which is tested here; its JSON is decoded into
//! [`Ticker`] or [`PriceJson`] by the caller, which also converts the price
//! field into a [`Price`]. What follows is done here: building the
//! [`TickerPayloadDetail`] with the timestamp that the source calls for.
use vstd::prelude::*;

use vstd::string::StringSliceAdditionalSpecFns;
use vstd::utf8::valid_utf8;

use crate::ocw_oracle::{Error, TickerPayloadDetail};
use crate::types::{CurrencyId, DataSourceEnum, Price, Timestamp};
use crate::util::{append_bytes, decimal_digits, timestamp_from_moment, u64_to_decimal};
use crate::wrappers::str_from_utf8;

verus! {

/// The Binance ticker api.
pub struct Binance;

/// The Coinbase ticker api.
pub struct Coinbase;

/// The Coincap assets api.
pub struct Coincap;

/// A Binance ticker response: `{ "symbol": "DOTUSDT", "price": "32.02420000" }`.
#[derive(Debug, Default)]
pub struct Ticker {
    pub symbol: Vec<u8>,
    pub price: Vec<u8>,
}

/// A Coincap asset response: the asset's data and the time of the answer.
#[derive(Debug, Default)]
pub struct PriceJson {
    pub data: DataDetail,
    pub timestamp: Timestamp,
}

/// The fields of a Coincap asset that the oracle reads.
#[allow(non_snake_case)]
#[derive(Debug, Default)]
pub struct DataDetail {
    pub id: Vec<u8>,
    pub symbol: Vec<u8>,
    pub priceUsd: Vec<u8>,
}

/// The body of a price response as text; `HttpFetchingError` unless it is UTF-8.
pub fn response_text(bytes: &[u8]) -> (r: Result<&str, Error>)
    ensures
        valid_utf8(bytes@) <==> r is Ok,
        r matches Ok(s) ==> s.spec_bytes() == bytes@,
        !valid_utf8(bytes@) ==> r == Err::<&str, Error>(Error::HttpFetchingError),
{
    match str_from_utf8(bytes) {
        Some(s) => Ok(s),
        None => Err(Error::HttpFetchingError),
    }
}

/// A ticker of `symbol` from `data_source_enum` at `price`, observed at `timestamp`.
pub open spec fn ticker(
    symbol: CurrencyId,
    data_source_enum: DataSourceEnum,
    price: Price,
    timestamp: Timestamp,
) -> TickerPayloadDetail {
    TickerPayloadDetail { symbol, data_source_enum, price, timestamp }
}

/// The ticker that a source yields for `price`: a Coincap answer carries its
/// own `response_timestamp`, the other sources are stamped with the chain time
/// `now` (`ParseTimestampError` if it does not fit a timestamp).
pub open spec fn ticker_of(
    symbol: CurrencyId,
    data_source_enum: DataSourceEnum,
    price: Price,
    response_timestamp: Timestamp,
    now: u128,
) -> Result<TickerPayloadDetail, Error> {
    match data_source_enum {
        DataSourceEnum::COINCAP => Ok(
            ticker(symbol, data_source_enum, price, response_timestamp),
        ),
        _ => if now <= u64::MAX {
            Ok(ticker(symbol, data_source_enum, price, now as u64))
        } else {
            Err(Error::ParseTimestampError)
        },
    }
}

/// A price provider: turns the price read from its response into a ticker.
pub trait DataSourceApi {
    /// The ticker of `symbol` at `price` from `source`, given the timestamp
    /// that the response carries (if the source reports one) and the chain
    /// time `now`.
    fn get_ticker(
        symbol: CurrencyId,
        source: DataSourceEnum,
        price: Price,
        response_timestamp: Timestamp,
        now: u128,
    ) -> Result<TickerPayloadDetail, Error>;
}

impl DataSourceApi for Binance {
    /// Stamped with the chain time `now`; `ParseTimestampError` if it does not fit.
    fn get_ticker(
        symbol: CurrencyId,
        source: DataSourceEnum,
        price: Price,
        response_timestamp: Timestamp,
        now: u128,
    ) -> (r: Result<TickerPayloadDetail, Error>)
        ensures
            now <= u64::MAX ==> r == Ok::<TickerPayloadDetail, Error>(
                ticker(symbol, source, price, now as u64),
            ),
            now > u64::MAX ==> r == Err::<TickerPayloadDetail, Error>(Error::ParseTimestampError),
    {
        let timestamp = timestamp_from_moment(now)?;
        Ok(TickerPayloadDetail { symbol, data_source_enum: source, price, timestamp })
    }
}

impl DataSourceApi for Coinbase {
    /// Stamped with the chain time `now`; `ParseTimestampError` if it does not fit.
    fn get_ticker(
        symbol: CurrencyId,
        source: DataSourceEnum,
        price: Price,
        response_timestamp: Timestamp,
        now: u128,
    ) -> (r: Result<TickerPayloadDetail, Error>)
        ensures
            now <= u64::MAX ==> r == Ok::<TickerPayloadDetail, Error>(
                ticker(symbol, source, price, now as u64),
            ),
            now > u64::MAX ==> r == Err::<TickerPayloadDetail, Error>(Error::ParseTimestampError),
    {
        let timestamp = timestamp_from_moment(now)?;
        Ok(TickerPayloadDetail { symbol, data_source_enum: source, price, timestamp })
    }
}

impl DataSourceApi for Coincap {
    /// Stamped with the time that the response reports.
    fn get_ticker(
        symbol: CurrencyId,
        source: DataSourceEnum,
        price: Price,
        response_timestamp: Timestamp,
        now: u128,
    ) -> (r: Result<TickerPayloadDetail, Error>)
        ensures
            r == Ok::<TickerPayloadDetail, Error>(
                ticker(symbol, source, price, response_timestamp),
            ),
    {
        Ok(TickerPayloadDetail { symbol, data_source_enum: source, price, timestamp: response_timestamp })
    }
}

/// The ticker that `source` yields for `price` (see [`ticker_of`]).
pub fn get_ticker(
    symbol: CurrencyId,
    source: DataSourceEnum,
    price: Price,
    response_timestamp: Timestamp,
    now: u128,
) -> (r: Result<TickerPayloadDetail, Error>)
    ensures
        r == ticker_of(symbol, source, price, response_timestamp, now),
        source == DataSourceEnum::COINCAP ==> r == Ok::<TickerPayloadDetail, Error>(
            TickerPayloadDetail { symbol, data_source_enum: source, price, timestamp: response_timestamp },
        ),
        source != DataSourceEnum::COINCAP && now <= u64::MAX ==> r == Ok::<
            TickerPayloadDetail,
            Error,
        >(TickerPayloadDetail { symbol, data_source_enum: source, price, timestamp: now as u64 }),
        source != DataSourceEnum::COINCAP && now > u64::MAX ==> r == Err::<
            TickerPayloadDetail,
            Error,
        >(Error::ParseTimestampError),
{
    match source {
        DataSourceEnum::BINANCE => Binance::get_ticker(symbol, source, price, response_timestamp, now),
        DataSourceEnum::COINBASE => Coinbase::get_ticker(
            symbol,
            source,
            price,
            response_timestamp,
            now,
        ),
        DataSourceEnum::COINCAP => Coincap::get_ticker(symbol, source, price, response_timestamp, now),
    }
}

/// The debug text of a Coincap asset: `{ id: .., symbol: .., priceUsd: .. }`
/// with the fields as text; `None` if a field is not UTF-8.
pub open spec fn data_detail_text(id: Seq<u8>, symbol: Seq<u8>, price_usd: Seq<u8>) -> Option<
    Seq<u8>,
> {
    if valid_utf8(id) && valid_utf8(symbol) && valid_utf8(price_usd) {
        Some(
            "{ id: ".spec_bytes() + id + ", symbol: ".spec_bytes() + symbol
                + ", priceUsd: ".spec_bytes() + price_usd + " }".spec_bytes(),
        )
    } else {
        None
    }
}

/// The debug text of a Coincap response: `{ data: .., timestamp: .. }` with
/// the asset's debug text and the timestamp in decimal. If the asset has no
/// debug text, writing fails after `{ data: ` was written: `Err` holds what
/// was written.
pub open spec fn price_json_text(data: Option<Seq<u8>>, timestamp: Timestamp) -> Result<
    Seq<u8>,
    Seq<u8>,
> {
    match data {
        Some(d) => Ok(
            "{ data: ".spec_bytes() + d + ", timestamp: ".spec_bytes() + decimal_digits(
                timestamp as nat,
            ) + " }".spec_bytes(),
        ),
        None => Err("{ data: ".spec_bytes()),
    }
}

impl DataDetail {
    /// The debug text of the asset (see [`data_detail_text`]).
    pub fn debug_text(&self) -> (r: Option<Vec<u8>>)
        ensures
            match r {
                Some(t) => data_detail_text(self.id@, self.symbol@, self.priceUsd@) == Some(t@),
                None => data_detail_text(self.id@, self.symbol@, self.priceUsd@) is None,
            },
    {
        if str_from_utf8(self.id.as_slice()).is_none() || str_from_utf8(
            self.symbol.as_slice(),
        ).is_none() || str_from_utf8(self.priceUsd.as_slice()).is_none() {
            return None;
        }
        let mut t: Vec<u8> = Vec::new();
        append_bytes(&mut t, "{ id: ".as_bytes());
        append_bytes(&mut t, self.id.as_slice());
        append_bytes(&mut t, ", symbol: ".as_bytes());
        append_bytes(&mut t, self.symbol.as_slice());
        append_bytes(&mut t, ", priceUsd: ".as_bytes());
        append_bytes(&mut t, self.priceUsd.as_slice());
        append_bytes(&mut t, " }".as_bytes());
        assert(t@ =~= "{ id: ".spec_bytes() + self.id@ + ", symbol: ".spec_bytes() + self.symbol@
            + ", priceUsd: ".spec_bytes() + self.priceUsd@ + " }".spec_bytes());
        Some(t)
    }
}

impl PriceJson {
    /// The debug text of the response (see [`price_json_text`]): `Ok` with the
    /// whole text, or `Err` with the text written before the asset's fields
    /// turned out not to be UTF-8.
    pub fn debug_text(&self) -> (r: Result<Vec<u8>, Vec<u8>>)
        ensures
            match r {
                Ok(t) => price_json_text(
                    data_detail_text(self.data.id@, self.data.symbol@, self.data.priceUsd@),
                    self.timestamp,
                ) == Ok::<Seq<u8>, Seq<u8>>(t@),
                Err(t) => price_json_text(
                    data_detail_text(self.data.id@, self.data.symbol@, self.data.priceUsd@),
                    self.timestamp,
                ) == Err::<Seq<u8>, Seq<u8>>(t@),
            },
    {
        let mut t: Vec<u8> = Vec::new();
        append_bytes(&mut t, "{ data: ".as_bytes());
        let data = match self.data.debug_text() {
            Some(d) => d,
            None => {
                assert(t@ =~= "{ data: ".spec_bytes());
                return Err(t);
            },
        };
        let ts = u64_to_decimal(self.timestamp);
        append_bytes(&mut t, data.as_slice());
        append_bytes(&mut t, ", timestamp: ".as_bytes());
        append_bytes(&mut t, ts.as_slice());
        append_bytes(&mut t, " }".as_bytes());
        assert(t@ =~= "{ data: ".spec_bytes() + data@ + ", timestamp: ".spec_bytes() + ts@
            + " }".spec_bytes());
        Ok(t)
    }
}

/// Only a Coincap ticker takes the time its response reports; every other
/// source's ticker is stamped with the chain time, whatever its response
/// reports, and fails with `ParseTimestampError` when that time does not fit.
pub proof fn only_coincap_uses_response_time(
    symbol: CurrencyId,
    source: DataSourceEnum,
    price: Price,
    rt1: Timestamp,
    rt2: Timestamp,
    now: u128,
)
    ensures
        source != DataSourceEnum::COINCAP ==> ticker_of(symbol, source, price, rt1, now) == ticker_of(
            symbol,
            source,
            price,
            rt2,
            now,
        ),
        source != DataSourceEnum::COINCAP && now <= u64::MAX ==> ticker_of(
            symbol,
            source,
            price,
            rt1,
            now,
        ) == Ok::<TickerPayloadDetail, Error>(
            TickerPayloadDetail { symbol, data_source_enum: source, price, timestamp: now as u64 },
        ),
        source != DataSourceEnum::COINCAP && now > u64::MAX ==> ticker_of(
            symbol,
            source,
            price,
            rt1,
            now,
        ) == Err::<TickerPayloadDetail, Error>(Error::ParseTimestampError),
        source == DataSourceEnum::COINCAP ==> ticker_of(symbol, source, price, rt1, now) == Ok::<
            TickerPayloadDetail,
            Error,
        >(TickerPayloadDetail { symbol, data_source_enum: source, price, timestamp: rt1 }),
{
}

} // verus!
