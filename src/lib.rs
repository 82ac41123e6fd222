//! Acquisition and installation of multi-part application packages on a
//! device reached over a debug bridge.
//!
//! The library holds the logic, each function with a contract that Verus
//! proves: the catalog listing (row schemas, per-title deduplication,
//! popularity ranking, search), the download queue and its scheduler
//! decisions, the sync engine's progress reports and control arguments, the
//! install pipeline's decisions and its custom script language, and the
//! parsers of the debug bridge's text output. Processes, HTTP, the file
//! system and the device itself stay with the caller, which hands the
//! library plain values and acts on what it returns.
use vstd::prelude::*;

pub mod adb;
pub mod binary_paths;
pub mod catalog;
pub mod config;
pub mod download;
pub mod game;
pub mod install;
pub mod listing;
pub mod logger;
pub mod responses;
pub mod text;
pub mod transfer;

verus! {

} // verus!
