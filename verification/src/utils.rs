pub mod automerge;
pub mod pull_request;
pub mod rules;

pub use crate::utils::pull_request::merge_pull_request;
pub use crate::webhook::verify_webhook_payload;
