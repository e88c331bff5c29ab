//! Import of transit reference data: stop areas, stop points and calendar
//! services are read from tabular sources into identifier-indexed collections
//! and merged into a shared model.

pub mod collection;
pub mod common_format;
pub mod date;
pub mod decimal;
pub mod error;
pub mod model;
pub mod objects;
pub mod reader;
pub mod table;
pub mod transxchange;
