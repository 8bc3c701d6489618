//! Verified core of a price forecasting service built on an ARFIMA model:
//! the settings and their changes, the parsing of service arguments, the
//! plan of a price download, the files of each operating system, the stored
//! JSON records, and the index arithmetic of the seasonal and R/S analyses.

pub mod arfima_args;
pub mod config;
pub mod decimal;
pub mod parse;
pub mod paths;
pub mod price;
pub mod records;
pub mod rs_series;
pub mod series;
pub mod text;
