# kero_engine

A verified solar return-on-investment engine for Brazilian residential installations.

- `src/decimal.rs` — `Dec`, a decimal number held as mantissa, scale and sign flag, and the
  `rust_decimal` operations on it (behind trusted wrappers with stated contracts).
- `src/aneel_api.rs` — selection of conventional residential tariff records from an ANEEL
  datastore answer, and their averaging into one state tariff.
- `src/hsp_request.rs` — reference coordinates and fallback peak-sun-hour table per state,
  and the choice between a measured value and the table.
- `src/simulation.rs` — the Fio B transition schedule and the 25-year cash-flow projection,
  as a whole (`calculate_solar_roi`) and as a step-by-step run (`SimulationRun`).
- `src/text.rs` — string equality and decimal-comma normalization.
- `app/` — the HTTP clients (ANEEL, NASA POWER), serde copies of the data types, the async
  ROI calculation that feeds fetched data to `SimulationRun`, and the snapshot tools.
