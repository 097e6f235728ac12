# purse_pilot

Bazaar flipping with books that add up. The library under `src/` is verified
with Verus:

- `bazaar_tracker`: active orders, first-in-first-out cost lots of collected
  buys, the check before a sell order, the accounting of collected sells,
  cooldowns, planned sells, reconciliation with the orders that the bazaar
  shows, and snapshots of all that.
- `bazaar_lifecycle`: what to do next. Filled orders come first, new buys last.
- `bazaar_scanner`: screening, scoring and ranking of bazaar products, position
  limits and repricing rules.
- `number` is the arithmetic that prices and scores are computed in, and `double`
  computes it in double precision, rounded to the nearest number: `rounding` says
  what that is, `packing` finds it. `listing`, `text` and `clock` are what the
  rest is built from.

Contracts speak of the contents of a tracker, `TrackerState`. Functions that
read the clock come in pairs: `..._at` takes the time as an argument, its twin
asks the clock.

`app/` holds what talks to the outside: the bazaar over HTTP, the files that a
tracker is saved in, a tracker behind a lock, and a probe that prints the best
flips. It computes in `f64`.
