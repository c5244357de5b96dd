//! A note-capture pipeline. A submitted text is stored, then a summary and
//! a set of labels are derived for it by a text-generation service and
//! stored with it; the enriched records can be listed.
//!
//! The crate holds the decisions of that pipeline. Talking to the store and
//! to the generation service is left to the caller: [`pipeline`] says, step
//! by step, what is to be asked of them, [`services::db`] writes the
//! statements and says what the store does with them, and
//! [`services::openai`] writes the requests and reads the completions.
//! [`commands`] runs the two workflows to their end on the storage engine.

pub mod commands;
pub mod config;
pub mod pipeline;
pub mod services;
pub mod text;
pub mod types;
