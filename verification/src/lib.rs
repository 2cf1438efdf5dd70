pub mod text;
pub mod types;
pub mod resolve;
pub mod journey;
pub mod emit;
pub mod baseline;
pub mod laws;
pub mod yaml;
pub mod validate;
pub mod cli;
pub mod config;
pub mod run;
pub mod doctor;
pub mod files;
