//! Refresh-and-cache core of a live-stream aggregation service.

pub mod auth;
pub mod category;
pub mod error;
pub mod fetch;
pub mod filter;
pub mod poller;
pub mod requests;
pub mod snapshot;
pub mod states;
pub mod streams;
pub mod tag_catalog;
pub mod tags;
pub mod text;
pub mod token;
pub mod user;
