# dex_arbitrage

Simulation of arbitrage between decentralised exchanges: automated market makers
(constant product, concentrated liquidity, StableSwap), arbitrage detection between pools
and along triangular routes, flashloans, gas price modelling and performance metrics.

Layout:

- `src/` is the verified library (Verus). It holds the parts of the logic that do not
  compute with floating-point numbers, each with a contract: flashloan providers and the
  validation and gas estimate of flashloan transactions, the selection of pool pairs and
  of triangular routes, stable rankings and searches for the best block, hour or grid
  point, execution counters, token-index checks of multi-token pools and the parsing of
  candle intervals. Values that the application orders (prices, profits) reach it as
  integer keys that order the same way.
- `app/` is the command-line program and everything that computes with floating-point
  numbers (pool pricing, profits, fees, gas costs, random gas forecasts); it calls the
  library for the decisions above.
- `tests/` exercises the library.
