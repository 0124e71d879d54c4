# oracle_pallets

Verified price-oracle logic for a blockchain runtime, written in Verus.

* `src/ocw_oracle.rs` — the off-chain-worker oracle: its storage (`Pallet`,
  viewed as `OracleView`), the calls `submit_price`, `emergency_feed`,
  `change_url`, `change_members`, `change_aggregation_strategy`,
  `insert_initial_data`, and the end-of-block hook `on_finalize`, each with a
  contract over spec functions such as `after_append_price` and `finalize_all`.
* `src/aggregation_strategy.rs` — aggregation of a round's prices (median).
* `src/data_source.rs` — the price providers and their responses.
* `src/prices.rs` — the price pallet: stable-currency price, emergency
  prices, oracle fallback.
* `src/table.rs` — the finite maps that hold the storage.
* `src/util.rs`, `src/wrappers.rs` — conversions and the std calls they rest on.
* `src/laws.rs` — properties across calls (bounded price histories, distinct
  round providers, rounds never ahead of the chain, emergency feeding, the
  median's position, read-after-write of emergency prices).
* `app/` — JSON decoding of the provider responses (serde) and the decimal
  price conversion through `f64`, around the library.
* `tests/` — tests of the library on concrete values.
