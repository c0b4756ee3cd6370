//! Natural-language mission planning: handling of the model's replies.

pub mod client;
pub mod prompts;
