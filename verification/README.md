# llmfit-core ranking support, verified

A verified library for the ranking side of `llmfit`: which catalog entries are
installed with which inference provider, which entries may be ranked on a
machine, how each ranked entry is to be analysed, and how throughput measured
on the machine calibrates the formula estimates.

Layout:

- `src/catalog.rs` — machines, catalog entries, the model database.
- `src/installed.rs` — the installed-model index (name sets held once each)
  and its provider queries, which take the providers' matchers as a closure.
- `src/fit.rs` — analysed rows and measured throughput.
- `src/analysis.rs` — the ranking gate, the hidden count, analysis requests
  and sweep plans, and completion of analysed rows.
- `src/calibration.rs` — median, clamped local calibration and its laws.

Calibration records the formula estimate beside the factor, so re-applying
it is idempotent. Numbers are fixed-point integers: throughputs in thousandths of a token per
second, calibration factors and ratios in millionths, parameter counts in
millions.
