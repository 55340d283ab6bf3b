//! Multi-file resolution and assembly driver for a circuit-description
//! language front end.
//!
//! Given an entry source file and a running compiler version, the driver
//! discovers and schedules every transitively included file exactly once,
//! records the inclusion graph together with the custom-gates feature flags
//! of each file, enforces the version-compatibility policy, checks that
//! exactly one file declares a program entry point, and checks that every
//! chain of includes reaching a file that uses the custom-gates feature
//! declares the feature pragma throughout.
//!
//! Reading files from disk and the single-file grammar are outside this
//! library: a caller runs the loop, hands each file's text and parse result
//! to the [`driver::AssemblyDriver`] as plain values, and receives the next
//! decision back.

pub mod driver;
pub mod file_library;
pub mod file_stack;
pub mod includes_graph;
pub mod report;
pub mod version;
