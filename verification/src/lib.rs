//! Solar return-on-investment engine: tariff aggregation, irradiation lookup and a
//! 25-year cash-flow projection of a photovoltaic installation under Brazil's
//! distribution-charge transition rules.
pub mod aneel_api;
pub mod decimal;
pub mod hsp_request;
pub mod simulation;
pub mod text;

pub use decimal::Dec;
pub use simulation::{
    calculate_solar_roi, GeneralLegalFramework, PhaseConnection, SimulationError,
    SimulationInput, SimulationResult, SimulationRun, TaxStrategy, YearlyProjection,
};
