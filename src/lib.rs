pub mod alert;
pub mod conf;
pub mod config;
pub mod conn;
pub mod ding;
pub mod error;
pub mod monitor;
pub mod queue;
pub mod route;
pub mod service;
pub mod text;
