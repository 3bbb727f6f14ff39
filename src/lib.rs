//! Compiles multidimensional queries (fact table, drilldowns, cuts, measures,
//! ratio and growth analytics, wrapping clauses) into one SQL statement.
pub mod dims;
pub mod growth;
pub mod laws;
pub mod options;
pub mod postgres;
pub mod primary_agg;
pub mod query_ir;
pub mod rca;
pub mod sql;
pub mod text;

pub use crate::primary_agg::primary_agg;
pub use crate::rca::calculate;
pub use crate::sql::{clickhouse_sql, standard_sql};
