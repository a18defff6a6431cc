//! The decisions, parsers and data of the ChampR client and of its build
//! server, with their contracts.
pub mod text;
pub mod b64;
pub mod cmd;
pub mod envfile;
pub mod web;
pub mod error;
pub mod models;
pub mod auth;
pub mod config;
pub mod server;
pub mod client;
