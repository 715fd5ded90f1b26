//! SQL text generation for the parsql derive macros: parameter numbering,
//! identifier sanitising and the statements that the derives emit.

pub mod text;
pub mod utils;
pub mod numbering;
pub mod query_builder;
pub mod sql_sanitizer;
pub mod statement;
pub mod updateable;
pub mod deletable;
pub mod insertable;
pub mod queryable;
pub mod sql_params;
pub mod update_params;
pub mod direct_sql;
pub mod trace;
pub mod traits;
