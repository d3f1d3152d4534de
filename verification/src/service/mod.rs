//! Service identification: the probe database and its evaluation.

pub mod dbparser;
pub mod directive;
pub mod exclude;
pub mod identify;
pub mod pattern;
pub mod payload;
pub mod ports;
pub mod progress;
pub mod version;
