use oracle_pallets::prices::{DispatchError, Event, Pallet, TimeStampedPrice, CURRENCY_DECIMAL};
use oracle_pallets::types::CurrencyId;

#[test]
fn stable_currency_has_fixed_price() {
    let mut p = Pallet::new(CurrencyId::USDT, 1_000_000);
    let oracle = Some(TimeStampedPrice { value: 7, timestamp: 9 });
    assert_eq!(p.get_price(&CurrencyId::USDT, oracle), Some((1_000_000, 0)));
    p.set_emergency_price(CurrencyId::USDT, 5);
    assert_eq!(p.get_price(&CurrencyId::USDT, oracle), Some((1_000_000, 0)));
    assert_eq!(CURRENCY_DECIMAL, 18);
}

#[test]
fn emergency_price_overrides_oracle_until_reset() {
    let mut p = Pallet::new(CurrencyId::USDT, 1);
    let oracle = Some(TimeStampedPrice { value: 7, timestamp: 9 });
    assert_eq!(p.get_price(&CurrencyId::DOT, oracle), Some((7, 9)));
    assert_eq!(p.get_price(&CurrencyId::DOT, None), None);
    assert_eq!(p.set_price(true, CurrencyId::DOT, 42), Ok(()));
    assert_eq!(p.emergency_price(&CurrencyId::DOT), Some(42));
    assert_eq!(p.get_price(&CurrencyId::DOT, oracle), Some((42, 0)));
    assert_eq!(p.get_price(&CurrencyId::DOT, None), Some((42, 0)));
    assert_eq!(p.get_price(&CurrencyId::KSM, oracle), Some((7, 9)));
    assert_eq!(p.reset_price(true, CurrencyId::DOT), Ok(()));
    assert_eq!(p.emergency_price(&CurrencyId::DOT), None);
    assert_eq!(p.get_price(&CurrencyId::DOT, oracle), Some((7, 9)));
    assert_eq!(
        p.events(),
        vec![Event::SetEmergencyPrice(CurrencyId::DOT, 42), Event::ResetEmergencyPrice(CurrencyId::DOT)]
    );
}

#[test]
fn only_feeders_set_prices() {
    let mut p = Pallet::new(CurrencyId::USDT, 1);
    assert_eq!(p.set_price(false, CurrencyId::DOT, 42), Err(DispatchError::BadOrigin));
    assert_eq!(p.emergency_price(&CurrencyId::DOT), None);
    assert_eq!(p.set_price(true, CurrencyId::DOT, 42), Ok(()));
    assert_eq!(p.reset_price(false, CurrencyId::DOT), Err(DispatchError::BadOrigin));
    assert_eq!(p.emergency_price(&CurrencyId::DOT), Some(42));
    assert_eq!(p.events(), vec![Event::SetEmergencyPrice(CurrencyId::DOT, 42)]);
}

#[test]
fn oracle_value_stamped_zero_is_not_served() {
    let mut p = Pallet::new(CurrencyId::USDT, 1);
    let stamped_zero = Some(TimeStampedPrice { value: 5, timestamp: 0 });
    assert_eq!(p.get_price(&CurrencyId::DOT, stamped_zero), None);
    p.set_emergency_price(CurrencyId::DOT, 8);
    assert_eq!(p.get_price(&CurrencyId::DOT, stamped_zero), Some((8, 0)));
}
