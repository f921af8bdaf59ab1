//! Batch anonymization of DICOM files.
//!
//! A run finds the files of a directory that carry the extension of the format,
//! sets the patient's name of each to a new name, or clears it, and writes each
//! file back, in place or into a directory of its own. This library holds the
//! rules of such a run: what a path is made of ([`path`]), what a run is asked
//! to do and where its output goes ([`config`]), which entries of a directory
//! listing are files to work on ([`discover`]), what is done with each of them
//! ([`pipeline`]) and how a record is rewritten ([`record`]). It reads no
//! directory and no file: the caller lists the directory, and reads and writes
//! the files that a plan names.

pub mod config;
pub mod discover;
pub mod path;
pub mod pipeline;
pub mod record;
pub mod text;
