//! What the user sees and types: pages and prompts.
pub mod pages;
pub mod prompts;
