//! Plain-text tables for the terminal.
//!
//! A [`Table`] collects headers, alignments, rows, a row cap and a column
//! separator, and renders them as lines of aligned columns. Cells may carry
//! terminal colour sequences: they are written as they are and do not count
//! towards the width of a column.
//!
//! Every function states what it computes over the characters of the texts
//! involved, and is proved to compute just that.

pub mod text;
pub mod ansi;
pub mod align;
pub mod elide;
pub mod width;
pub mod blueprint;
pub mod render;
pub mod table;

pub use blueprint::TableBlueprint;
pub use blueprint::TableError;
pub use table::Table;
