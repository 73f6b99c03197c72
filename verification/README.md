# embed_core

Verified building blocks of an allocation-free, `f64` streaming-indicator
library (SMA, EMA, Wilder RSI, Wilder ATR, ROC) and its caller-allocated C
handle surface.

- `src/` is the Verus library: the fixed-capacity ring window (`ring`), the
  warmup/seeding lifecycle of the seeded indicators (`warmup`), the rebuild
  cadence of a rolling sum (`cadence`), the C return-code rules (`abi`) and the
  version string. Each comes with its contracts and the laws proved over them.
- `app/` holds what cannot be verified here: the floating-point indicator
  arithmetic, the `Indicator` trait, `Candle`, the `libm` switch point and the
  `extern "C"` handle functions. It drives the verified pieces above.
- `tests/` exercises the library on concrete values.
