//! An embedded relational mapping engine over SQLite tables.
//!
//! Entities are described by their columns and stand in tables as rows of
//! generic values. The engine compiles typed filters into `WHERE` clauses,
//! writes column-selective updates from partial values, spreads entities
//! with vector-valued fields over several rows and regroups them on
//! reading, and rebuilds a table by copy when its columns no longer serve
//! the entity.
//!
//! Statements without parameters run on the store's connection from here.
//! Statements with parameters are synthesised here and bound by the caller,
//! who also turns floating point numbers into the decimal literals that the
//! engine carries.

pub mod text;
pub mod value;
pub mod interner;
pub mod column;
pub mod convert;
pub mod variant;
pub mod vector;
pub mod order;
pub mod filter;
pub mod partial;
pub mod row;
pub mod statement;
pub mod schema;
pub mod migration;
pub mod database;
pub mod datetime;

pub use crate::column::{SqlColumn, SqlColumnType};
pub use crate::convert::{MustBeEqual, RelatedSqlColumnType};
pub use crate::database::{CheckError, Database};
pub use crate::filter::{FieldFilter, GenericFilter, SqlColumnFilter};
pub use crate::interner::StaticStringStorage;
pub use crate::migration::{
    Backfill, Migration, MigrationAction, MigrationEvent, MigrationHandler, MigrationStage,
    Transpose,
};
pub use crate::order::{ColumnOrdering, GenericOrder, OrderingAscDesc, OrderingNulls};
pub use crate::partial::{HasPartialRepresentation, HasValue, PartialType, PartialValue};
pub use crate::row::{DecodeFailure, RowDecodeError};
pub use crate::statement::SqlFailureBehavior;
pub use crate::value::SqlValue;
pub use crate::variant::EnumLayout;
pub use crate::vector::{FromRowType, RowRecord, ToRows, VecEntity};
pub use rusqlite;
