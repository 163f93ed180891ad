# kinetic-signals

Streaming feature extraction for stochastic signals (Hurst exponent, Hawkes
intensity, surprise scores, RMS volatility, Shannon entropy, moments, moving
averages), split into a verified core and a real-valued shell.

- `src/` — the Verus-verified library `kinetic_signals`: snapshot schema and
  validation, the rolling volatility ring (with snapshot/restore), histogram
  counting, the Hurst window plan, surprise-sequence sizing and pairing, and
  the SMA window bookkeeping. Samples are carried as IEEE-754 bit patterns,
  so finiteness checks and storage are exact integer logic.
- `app/` — the `f32`/`f64` estimators, which call the library for all of the
  above, plus serde-enabled copies of the snapshot types.
- `tests/` — tests of the library.
