//! Core of a configuration-management backend: entities, an in-memory
//! relational store, filtered and paginated queries, partial updates, response
//! envelopes and token issuance.

pub mod clock;
pub mod entity;
pub mod handler;
pub mod jwt;
pub mod laws;
pub mod models;
pub mod mutation;
pub mod password;
pub mod query;
pub mod resp;
pub mod store;
pub mod table;
pub mod text;
pub mod token;
pub mod upload;
pub mod vo;
