//! Weather-station telemetry turned into gauge values.
//!
//! A station sends one sample as query parameters. `weather` decodes the
//! sample: every quantity of the catalog in `field` is optional, and keys
//! that the catalog does not know are set aside. `decimal` and `whole` read
//! the numbers; decimals are fixed-point, so reading and rounding are exact.
//! `values` says what a sample does to the gauges: the gauge of each
//! quantity that is present is overwritten with the quantity rounded to the
//! gauge's precision, every other gauge keeps what it held. `metrics` holds
//! the gauges themselves, registered once with the registry that encodes
//! them in the text exposition format, which `exposition` describes.
//! `handler` answers the three requests
//! of the transport, `error` words the failures, `config` holds the bind
//! address.

pub mod config;
pub mod decimal;
pub mod error;
pub mod exposition;
pub mod field;
pub mod handler;
pub mod metrics;
pub mod query;
pub mod text;
pub mod values;
pub mod weather;
pub mod whole;
