//! Background pipeline: capture, OCR, stability gate, translation, overlay.
//!
//! The pipeline decides; the host acts. Work that needs no answer is left in the list of actions,
//! which the host performs in order. Work with an answer is returned as a step, and the host calls
//! back with what came of it.

pub mod command;
pub mod config_apply;
pub mod laws;
pub mod ocr;
pub mod promises;
pub mod readings;
pub mod translate;
pub mod worker;
