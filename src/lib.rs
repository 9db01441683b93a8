//! A bridge that runs a user-written Rhai script over a tagged value: the
//! value model, its exact conversion to and from Rhai's dynamic values, and
//! the compile-and-run life cycle of one script node.

pub mod value;




pub mod native;
pub mod convert;
pub mod script;
pub mod agent;
