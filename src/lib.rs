pub mod agent;
pub mod answer;
pub mod commands;
pub mod config;
pub mod context;
pub mod diff;
pub mod edits;
pub mod json;
pub mod paths;
pub mod plan;
pub mod review;
pub mod text;
pub mod turn;
pub mod wire;
