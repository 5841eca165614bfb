//! Decisions, grammars and records of the Yard deployment tool.

pub mod activation;
pub mod atomic_file;
pub mod backup;
pub mod cli;
pub mod clock;
pub mod command;
pub mod config;
pub mod copies;
pub mod deploy;
pub mod envfile;
pub mod error;
pub mod host;
pub mod http;
pub mod images;
pub mod journal;
pub mod json;
pub mod monitor;
pub mod number;
pub mod operation;
pub mod order;
pub mod points;
pub mod project;
pub mod restore;
pub mod service_health;
pub mod state;
pub mod status;
pub mod table;
pub mod text;
pub mod time;
pub mod url;
pub mod web;
