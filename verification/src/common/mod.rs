pub mod config;
pub mod consts;
pub mod errors;
pub mod ledger;
pub mod listing;
pub mod math;
pub mod preserve;
pub mod sound;
pub mod types;
pub mod views;
