//! Migration of schema-less document collections into a relational store.
//!
//! A sample of a collection gives its schema; the schema gives the
//! statements and the order of the columns; every document becomes a row in
//! that order; rows are written in batches, each batch in one transaction.
//! The library decides and computes. Reading the source and writing the
//! sink is left to its user, who performs the actions of a
//! `migration::Migrator` one by one.

pub mod batching;
pub mod cli;
pub mod connection;
pub mod converter;
pub mod error;
pub mod inference;
pub mod migration;
pub mod outside;
pub mod schema;
pub mod text;
pub mod transaction;
pub mod value;
