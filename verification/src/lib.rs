//! Linger: the verified core of a self-renaming web application template.
pub mod auth;
pub mod cli;
pub mod config;
pub mod csrf;
pub mod db;
pub mod email;
pub mod error;
pub mod generator;
pub mod scaffold;
pub mod server;
pub mod text;
