# polybot

The trading core of a paper-trading bot for Polymarket's 15-minute BTC
up/down markets, verified with Verus.

- `src/` — the verified library:
  - `decimal` — `rust_decimal` numbers as mantissa and scale; exact
    comparisons, and the crate's arithmetic behind contracts;
  - `clock` — instants as plain integers;
  - `text` — decimal digits of whole numbers and substring search;
  - `market_data` — bounded spot-price history, momentum, returns,
    implied probability;
  - `risk` — daily loss limit and trade size limit;
  - `paper_trading` — simulated positions kept by id, closing rules, trade
    records, statistics, and the laws they obey;
  - `exchange`, `feeds`, `polymarket`, `signals`, `ui` — the decisions of
    order routing, the feeds, the market lookup and the dashboard.
- `app/` — the terminal program: network feeds, the TUI, the
  floating-point signal model and the settings.
- `tests/` — tests of the library on concrete values.
