//! Verified core of a Czech housing-affordability dashboard: region
//! mappings, story classification, methodology disclosures and the text
//! parsing that feeds the data pipeline.

pub mod stories;
pub mod text;
pub mod numbers;
pub mod dates;
pub mod regions;
pub mod methodology;
pub mod templates;
pub mod format;
pub mod forecast;
pub mod listings;
pub mod czso;
pub mod cnb;
pub mod config;
pub mod scenario;
pub mod queries;
