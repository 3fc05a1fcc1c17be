//! Verified core of a small tool-calling chat agent.
pub mod text;
pub mod audit;
pub mod openai;
pub mod local;
pub mod tools;
pub mod config;
pub mod catalog;
pub mod agent;
pub mod session;
