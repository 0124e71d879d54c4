//! The price pallet: serves the price of a currency from, in this order, a
//! fixed price for the stable currency, an emergency price set by a feeder,
//! or the latest oracle value.
use vstd::prelude::*;

use crate::table::Table;
use crate::types::{CurrencyId, PriceDetail};

verus! {

/// Decimals of a currency amount.
pub const CURRENCY_DECIMAL: u32 = 18;

/// An oracle price, as the inner value of its fixed-point representation.
pub type OraclePrice = u128;

/// Milliseconds since the Unix epoch.
pub type Moment = u64;

/// An oracle value together with the time it was reported.
#[derive(Clone, Copy, Debug, PartialEq, Eq, Structural)]
pub struct TimeStampedPrice {
    pub value: OraclePrice,
    pub timestamp: Moment,
}

/// Events of the price pallet.
#[derive(Clone, Copy, Debug, PartialEq, Eq, Structural)]
pub enum Event {
    /// An emergency price was set.
    SetEmergencyPrice(CurrencyId, OraclePrice),
    /// The emergency price of a currency was removed.
    ResetEmergencyPrice(CurrencyId),
}

/// Why a dispatched call failed.
#[derive(Clone, Copy, Debug, PartialEq, Eq, Structural)]
pub enum DispatchError {
    BadOrigin,
}

/// The storage and configuration of the price pallet.
pub struct Pallet {
    emergency_price: Table<CurrencyId, OraclePrice>,
    stable_currency_id: CurrencyId,
    stable_currency_fixed_price: OraclePrice,
    events: Vec<Event>,
}

/// The mathematical content of the price pallet.
#[verifier::ext_equal]
pub struct PricesView {
    /// The emergency price of each currency that has one.
    pub emergency_price: Map<CurrencyId, OraclePrice>,
    /// The stable currency, whose price is fixed.
    pub stable_currency_id: CurrencyId,
    /// The fixed price of the stable currency.
    pub stable_currency_fixed_price: OraclePrice,
    /// The events deposited so far, oldest first.
    pub events: Seq<Event>,
}

impl View for Pallet {
    type V = PricesView;

    closed spec fn view(&self) -> PricesView {
        PricesView {
            emergency_price: self.emergency_price@,
            stable_currency_id: self.stable_currency_id,
            stable_currency_fixed_price: self.stable_currency_fixed_price,
            events: self.events@,
        }
    }
}

/// The price that the pallet serves for `c`, given the oracle's latest value for it.
///
/// A timestamp of zero marks the stable currency's price and emergency
/// prices, so an oracle value stamped zero is not served.
pub open spec fn price_of(v: PricesView, c: CurrencyId, oracle: Option<TimeStampedPrice>) -> Option<
    PriceDetail,
> {
    if c == v.stable_currency_id {
        Some((v.stable_currency_fixed_price, 0))
    } else if v.emergency_price.contains_key(c) {
        Some((v.emergency_price[c], 0))
    } else {
        match oracle {
            Some(t) => if t.timestamp != 0 {
                Some((t.value, t.timestamp))
            } else {
                None
            },
            None => None,
        }
    }
}

impl Pallet {
    /// A pallet without emergency prices, configured with its stable currency
    /// and that currency's fixed price.
    pub fn new(stable_currency_id: CurrencyId, stable_currency_fixed_price: OraclePrice) -> (p:
        Self)
        ensures
            p@ == (PricesView {
                emergency_price: Map::empty(),
                stable_currency_id,
                stable_currency_fixed_price,
                events: Seq::empty(),
            }),
    {
        Pallet {
            emergency_price: Table::new(),
            stable_currency_id,
            stable_currency_fixed_price,
            events: Vec::new(),
        }
    }

    /// The emergency price of `currency_id`, if any.
    pub fn emergency_price(&self, currency_id: &CurrencyId) -> (r: Option<OraclePrice>)
        ensures
            r == self@.emergency_price.get(*currency_id),
    {
        match self.emergency_price.get(currency_id) {
            Some(p) => Some(*p),
            None => None,
        }
    }

    /// The events deposited so far, oldest first.
    pub fn events(&self) -> (r: Vec<Event>)
        ensures
            r@ == self@.events,
    {
        let r = self.events.clone();
        assert(r@ =~= self.events@);
        r
    }

    /// The emergency price of `currency_id` with timestamp zero, if any.
    fn get_emergency_price(&self, currency_id: &CurrencyId) -> (r: Option<PriceDetail>)
        ensures
            r == (if self@.emergency_price.contains_key(*currency_id) {
                Some((self@.emergency_price[*currency_id], 0u64))
            } else {
                None
            }),
    {
        if let Some(price) = self.emergency_price(currency_id) {
            Some((price, 0))
        } else {
            None
        }
    }

    /// The price and timestamp of `currency_id`, given the oracle's latest
    /// value for it: the fixed price for the stable currency, else the
    /// emergency price, both with timestamp zero, else the oracle's value
    /// unless it is stamped zero (a zero timestamp means a fixed or emergency price).
    pub fn get_price(&self, currency_id: &CurrencyId, oracle: Option<TimeStampedPrice>) -> (r:
        Option<PriceDetail>)
        ensures
            r == price_of(self@, *currency_id, oracle),
    {
        if *currency_id == self.stable_currency_id {
            Some((self.stable_currency_fixed_price, 0))
        } else {
            match self.get_emergency_price(currency_id) {
                Some(p) => Some(p),
                None => match oracle {
                    Some(t) => if t.timestamp != 0 {
                        Some((t.value, t.timestamp))
                    } else {
                        None
                    },
                    None => None,
                },
            }
        }
    }

    /// Sets the emergency price of `currency_id` and deposits `SetEmergencyPrice`.
    pub fn set_emergency_price(&mut self, currency_id: CurrencyId, price: OraclePrice)
        ensures
            final(self)@ == (PricesView {
                emergency_price: old(self)@.emergency_price.insert(currency_id, price),
                events: old(self)@.events.push(Event::SetEmergencyPrice(currency_id, price)),
                ..old(self)@
            }),
    {
        self.emergency_price.insert(currency_id, price);
        self.events.push(Event::SetEmergencyPrice(currency_id, price));
    }

    /// Removes the emergency price of `currency_id` and deposits `ResetEmergencyPrice`.
    pub fn reset_emergency_price(&mut self, currency_id: CurrencyId)
        ensures
            final(self)@ == (PricesView {
                emergency_price: old(self)@.emergency_price.remove(currency_id),
                events: old(self)@.events.push(Event::ResetEmergencyPrice(currency_id)),
                ..old(self)@
            }),
    {
        let _ = self.emergency_price.remove(&currency_id);
        self.events.push(Event::ResetEmergencyPrice(currency_id));
    }

    /// Call that sets an emergency price; `feeder` is whether the origin is
    /// an accepted feeder.
    pub fn set_price(&mut self, feeder: bool, currency_id: CurrencyId, price: OraclePrice) -> (r:
        Result<(), DispatchError>)
        ensures
            !feeder ==> r == Err::<(), DispatchError>(DispatchError::BadOrigin) && final(self)@
                == old(self)@,
            feeder ==> r == Ok::<(), DispatchError>(()) && final(self)@ == (PricesView {
                emergency_price: old(self)@.emergency_price.insert(currency_id, price),
                events: old(self)@.events.push(Event::SetEmergencyPrice(currency_id, price)),
                ..old(self)@
            }),
    {
        if !feeder {
            return Err(DispatchError::BadOrigin);
        }
        self.set_emergency_price(currency_id, price);
        Ok(())
    }

    /// Call that removes an emergency price; `feeder` is whether the origin is
    /// an accepted feeder.
    pub fn reset_price(&mut self, feeder: bool, currency_id: CurrencyId) -> (r: Result<
        (),
        DispatchError,
    >)
        ensures
            !feeder ==> r == Err::<(), DispatchError>(DispatchError::BadOrigin) && final(self)@
                == old(self)@,
            feeder ==> r == Ok::<(), DispatchError>(()) && final(self)@ == (PricesView {
                emergency_price: old(self)@.emergency_price.remove(currency_id),
                events: old(self)@.events.push(Event::ResetEmergencyPrice(currency_id)),
                ..old(self)@
            }),
    {
        if !feeder {
            return Err(DispatchError::BadOrigin);
        }
        self.reset_emergency_price(currency_id);
        Ok(())
    }
}

} // verus!
