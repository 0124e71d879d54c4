use vstd::prelude::*;

verus! {

/// Amount of the smallest price unit (the price scaled by the price precision).
pub type Price = u128;

/// Milliseconds since the Unix epoch.
pub type Timestamp = u64;

/// A price together with the time at which it was observed.
pub type PriceDetail = (Price, Timestamp);

/// Block height of the chain.
pub type BlockNumber = u64;

/// Identifier of an account.
pub type AccountId = u64;

/// The block number at which an oracle round was opened.
pub type RoundIndex = BlockNumber;

/// Raw bytes of a request url.
pub type Url = Vec<u8>;

/// Assets whose prices the oracle tracks.
#[allow(non_camel_case_types)]
#[derive(Clone, Copy, Debug, PartialEq, Eq, Structural)]
pub enum CurrencyId {
    DOT,
    KSM,
    BTC,
    USDC,
    USDT,
    xDOT,
}

/// Price providers that the off-chain worker queries.
#[derive(Clone, Copy, Debug, PartialEq, Eq, Structural)]
pub enum DataSourceEnum {
    BINANCE,
    COINBASE,
    COINCAP,
}

/// How the submissions of one round are combined into a price.
#[derive(Clone, Copy, Debug, PartialEq, Eq, Structural)]
pub enum AggregationStrategyEnum {
    EMERGENCY,
    MEDIAN,
    AVERAGE,
}

/// The origin of a dispatched call.
#[derive(Clone, Copy, Debug, PartialEq, Eq, Structural)]
pub enum Origin {
    Root,
    Signed(AccountId),
    Unsigned,
}

/// The account that signed `origin`, if it is a signed origin.
pub open spec fn signer_of(origin: Origin) -> Option<AccountId> {
    match origin {
        Origin::Signed(who) => Some(who),
        _ => None,
    }
}

/// Returns the signing account, or `BadOrigin` for any other origin.
pub fn ensure_signed(origin: Origin) -> (res: Result<AccountId, ()>)
    ensures
        match signer_of(origin) {
            Some(who) => res == Ok::<AccountId, ()>(who),
            None => res is Err,
        },
{
    match origin {
        Origin::Signed(who) => Ok(who),
        _ => Err(()),
    }
}

/// Succeeds exactly for the root origin.
pub fn ensure_root(origin: Origin) -> (res: Result<(), ()>)
    ensures
        res is Ok <==> origin == Origin::Root,
{
    match origin {
        Origin::Root => Ok(()),
        _ => Err(()),
    }
}

} // verus!
