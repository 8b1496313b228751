//! Watches one address record of a geospatial feature table: selects the
//! record's row, flattens it into a text summary, and renders the line diff
//! between two summaries as markup.

pub mod diff;
pub mod driver;
pub mod extract;
pub mod format;
pub mod model;
pub mod summary;
pub mod text;
