//! A tree explorer's core: it turns a walk of a directory into a labelled,
//! numbered, nested tree, keeps the address table that later invocations
//! resolve labels and numbers through, and drives the interactive session.

pub mod app;
pub mod cli;
pub mod error;
pub mod icons;
pub mod label;
pub mod markers;
pub mod modes;
pub mod paths;
pub mod status;
pub mod table;
pub mod transform;
pub mod traverse;
pub mod tree;
