//! Converts row-oriented relational tables into column-oriented container
//! files: schema inference, value coercion and row-group coordination.
//!
//! - [`schema`]: column plans, their soundness and how they read as text.
//! - [`infer`]: from the declared type and the statistics of a source
//!   column to its plan.
//! - [`value`]: from one dynamically typed cell to one value of the
//!   column's physical type.
//! - [`batch`]: the cells of one column of one row group as value and
//!   definition-level buffers.
//! - [`coordinator`]: the order in which cursors and sink are driven.
//! - [`sink`]: column plans as the sink's schema and writer properties.
//! - [`summary`]: the bytes that the written file spends on each column.
//!
//! The library reads no database and writes no file. Whoever embeds it runs
//! the statements it builds, hands it the cells, and carries out the actions
//! that the coordinator asks for.

pub mod batch;
pub mod coordinator;
pub mod infer;
pub mod progress;
pub mod schema;
pub mod sink;
pub mod summary;
pub mod text;
pub mod value;

pub use crate::infer::infer_schema;
pub use crate::progress::Progress;
pub use crate::schema::{Column, Encoding, LogicalType, PhysicalType, TimeType, TimeUnit};
