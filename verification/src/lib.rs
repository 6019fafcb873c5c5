//! Core of a terminal log viewer: decoding of ANSI-coloured lines into styled
//! segments, and the filter / scroll state machine that decides what is shown.

pub mod app;
pub mod decoder;
pub mod entry;
pub mod history;
pub mod model;
pub mod pattern;
pub mod style;
pub mod text;
