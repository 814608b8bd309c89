pub mod clock;
pub mod config;
pub mod draw;
pub mod engine;
