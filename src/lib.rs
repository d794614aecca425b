//! Grouping of a terminal line's cells into runs that share their rendering
//! attributes, and resolution of the colors each run is drawn with.

pub mod cell;
pub mod color;
pub mod builder;
pub mod text_run;
