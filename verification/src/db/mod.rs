//! The data model of the curriculum store and of the import pipeline.

pub mod models;
