//! A terminal chart viewer's core: the input-mode state machine, the parsing
//! of delimited-text rows into a series of points or of labelled bars, the
//! axis bounds of a series and the description of what one frame shows.

pub mod number;
pub mod records;
pub mod bounds;
pub mod controller;
pub mod plan;
pub mod category;
