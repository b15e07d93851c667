//! Verified core of the Readdeck bookstore service: request validation,
//! authentication rules, rate-limit keys, pagination, and the decisions
//! that the HTTP handlers take between their database round trips.

pub mod text;
pub mod error;
pub mod validation;
pub mod address;
pub mod auth;
pub mod rate_limit;
pub mod pagination;
pub mod events;
pub mod catalog;
pub mod cart;
pub mod orders;
pub mod vendor;
