//! Invocation contract of a print-spooler backend: the spooler's positional
//! arguments and environment are turned into one validated job request, and
//! every way of failing is mapped to the exit status the spooler expects.

pub mod exit_code;
pub mod error;
pub mod outside;
pub mod text;
pub mod path;
pub mod options;
pub mod copies;
pub mod job;
pub mod backend;
