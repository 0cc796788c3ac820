//! sdkcheck: audits whether an agent can follow a product's docs and complete
//! the intended flow, and reports the evidence.
pub mod text;
pub mod env_map;
pub mod secrets;
pub mod models;
pub mod report;
pub mod report_lines;
pub mod paths;
pub mod win_path;
pub mod naming;
pub mod runner;
pub mod fake_openai;
pub mod audits;
pub mod recipes;
pub mod cli;
