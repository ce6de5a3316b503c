//! Verified core of a local file indexer: extension classification, query
//! sanitisation, text extraction from already-read content, fingerprints,
//! exclusion rules and the decisions taken while scanning and watching.

pub mod text;
pub mod search;
pub mod config;
pub mod parser;
pub mod fingerprint;
pub mod crawler;
pub mod models;
pub mod indexer;
pub mod watcher;
pub mod commands;
pub mod db;
