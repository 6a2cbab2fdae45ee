pub mod config;
pub mod csv_schema;
pub mod query_params;
pub mod utils;
