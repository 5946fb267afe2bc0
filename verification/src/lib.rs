//! Open-file registry and duplicate-open coordination for a single-document
//! markdown viewer: the in-memory authority on which files are currently
//! considered open, and the command surface through which the view layer
//! queries and updates it.

pub mod commands;
pub mod registry;
