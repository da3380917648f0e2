//! Decision logic of a GitHub app that automatically merges pull requests which
//! match configured automerge rules.
#![allow(non_camel_case_types)]

pub mod automerge;
pub mod config;
pub mod dependabot;
pub mod graphql;
pub mod rules;
pub mod text;
pub mod utils;
pub mod webhook;
