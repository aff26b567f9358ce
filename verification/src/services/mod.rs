//! The stages of the import pipeline.

pub mod ai_analyzer;
pub mod document_chunker;
pub mod import_applier;
pub mod import_job;
pub mod pdf_extractor;
pub mod plan_generator;
