//! A parameterized SQL statement builder.
//!
//! The builder accumulates fields, a source table, joins, filter predicates,
//! grouping, limit and offset together with the values bound to the filters'
//! placeholders, and renders a statement string with numbered placeholders
//! (`$1`, `$2`, ...) next to the values in placeholder order.

pub mod mutation;
pub mod names;
pub mod query;
pub mod text;
pub mod value;

pub use mutation::insert;
pub use mutation::update;
pub use names::convert_table_name;
pub use query::SelectQuery;
pub use query::TableName;
pub use value::Value;
