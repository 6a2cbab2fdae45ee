pub mod binance;
pub mod error;
pub mod fixed;
pub mod shared;
pub mod strategy;
pub mod text;
