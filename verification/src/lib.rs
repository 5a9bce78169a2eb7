//! Rule resolution and application for sorting the messages of a remote
//! mailbox: the rule set and its derived views, the decisions taken while a
//! rule is applied to a mail store, and the text of what is reported.

pub mod config;
pub mod distinct;
pub mod engine;
pub mod laws;
pub mod model;
pub mod order;
pub mod outcome;
pub mod rules;
pub mod summary;
pub mod text;
pub mod verbosity;
