# sarfimax

A price forecasting service (ARFIMA/SARFIMAX models over exchange candles),
with its integer, text and bookkeeping logic verified in Verus.

- `src/` — the verified library:
  - `config`: the service settings and the one-setting changes to them;
  - `parse`, `decimal`, `text`: decimal integers and booleans read and written
    exactly as the standard library does, blank text, text equality;
  - `paths`: the data files of each operating system;
  - `price`: the start time of a download (through chrono), the length of a
    candle interval, the batches of a download and their addresses;
  - `rs_series`: the arguments of the rescaled-range service;
  - `records`: appending records to a stored JSON array (through serde_json);
  - `series`: seasonal classes, repeated seasonal patterns, whole windows.
- `app/` — the C and Python entry points, file and network I/O, and the
  floating-point models (Box-Cox, ESD anomalies, R/S analysis, fractional
  differencing, Durbin-Levinson, ARMA fitting with argmin, forecasts and
  confidence bands).
- `tests/` — tests of the library on concrete values.
