//! Capture of incoming HTTP requests into a relational store: the decisions that
//! the service makes about what it keeps of a request, verified.

pub mod decimal;
pub mod text;
pub mod config;
pub mod body;
pub mod request;
pub mod write;
pub mod db;
