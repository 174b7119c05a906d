//! Layered configuration lookup: a key is offered to an ordered chain of
//! sources and the first source that has a value answers.

pub mod args;
pub mod cfg;
pub mod cli;
pub mod command;
pub mod flat;
pub mod json;
pub mod model;
pub mod route;
pub mod settings;
pub mod store;
