//! A terminal issue tracker: epics that own stories, kept in one store,
//! browsed through a stack of pages.
//!
//! * [`models`] holds the entities, the store and its consistency invariant.
//! * [`db`] is the only way to change a store; each change keeps the invariant.
//! * [`ui`] renders pages and maps what the user typed to an [`models::Action`].
//! * [`navigator`] owns the page stack and carries actions out.
pub mod db;
pub mod models;
pub mod navigator;
pub mod text;
pub mod ui;
