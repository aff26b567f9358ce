//! BuildOps 40 import pipeline: document extraction, chunking, plan generation
//! and the decisions behind analysis and import, with machine-checked contracts.

pub mod commands;
pub mod db;
pub mod error;
pub mod services;
pub mod text;
