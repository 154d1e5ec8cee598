//! Storage layer of a bytecode virtual machine embedded in a host node: it resolves module and
//! resource reads against chain context, a native bank and a byte store, and routes each write
//! of a transaction to the one sink that owns it.
use vstd::prelude::*;

pub mod language;
pub mod store;
pub mod errors;
pub mod chain;
pub mod walker;
pub mod bank;
pub mod value;
pub mod event;
pub mod session;
pub mod name_pool;
pub mod source_text;
pub mod outcome;
