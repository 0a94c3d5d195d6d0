use vstd::prelude::*;

pub mod text;
pub mod datetime;
pub mod cli;
pub mod config;
pub mod json;
pub mod module;
pub mod webhook;
pub mod kv;
pub mod protocol;
pub mod session;
pub mod cron;
pub mod scheduler;
pub mod llm;
pub mod user;
pub mod emotion;
pub mod attention;
pub mod compress;
pub mod delegation;
pub mod modules;
pub mod channels;
pub mod tui;
pub mod registry;
pub mod providers;
pub mod skills;
pub mod process;
pub mod schema;

verus! {
} // verus!
