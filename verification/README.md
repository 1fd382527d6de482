# moex_order_book

Order books rebuilt from Moscow Exchange order logs, written in Verus.

- `src/` is the verified library: parsing of equity and derivatives order log
  lines (`OrderLog`, `EquityOrderLog`, `DerivativeOrderLog`), exact decimal
  prices (`Decimal`), the generic price-level book `MoexOrderBook` with its
  `OrderStack`s, and the per-instrument `Market`. Each public function states
  its result in `ensures`; the proof functions `lemma_*` state the laws that
  tie several operations together.
- `app/` holds the serialisable copies of the log types, with the `chrono` and
  `rust_decimal` types they carry, and the conversions to and from the
  library's plain values.
- `tests/` runs the library on concrete lines and books.
