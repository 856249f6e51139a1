//! The rules of a tray application that turns HDR on while a listed game runs.

pub mod seqs;
pub mod text;
pub mod text_laws;
pub mod wide;
pub mod rules;
pub mod rule_laws;
pub mod lists;
pub mod list_files;
pub mod list_laws;
pub mod download;
pub mod status;
pub mod hdr;
pub mod hdr_laws;
pub mod monitor;
pub mod startup;
pub mod startup_laws;
pub mod tray;
