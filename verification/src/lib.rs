//! A minimal task tracker library: a task is a title stored under an opaque
//! text identifier assigned by a persistence backend.
//!
//! The crate is split as the application is: `cli` parses the command line
//! and renders output lines, `todo` holds the domain operations over an
//! abstract persistence driver, and `persistency` holds the backends that
//! this crate itself provides, together with the identifier format.

pub mod cli;
pub mod persistency;
pub mod todo;
