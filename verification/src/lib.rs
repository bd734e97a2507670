//! A native-code build driver: the decisions and command lines of a
//! compile-and-link pipeline, stated and proved over plain values.

pub mod command;
pub mod error;
pub mod file;
pub mod graph;
pub mod path;

pub use command::CommandExt;
