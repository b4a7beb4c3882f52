//! The verified core of a karaoke rotation ticker.

pub mod config;
pub mod db;
pub mod discovery;
pub mod number;
pub mod query;
pub mod server;
pub mod text;
