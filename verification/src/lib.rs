//! Extraction of a loot-box pull history from a game's paginated record UI.
//!
//! The library holds the verified core of the scanner: the record model and
//! the reconciliation of freshly scanned records with stored ones, the
//! bookkeeping of the concurrent OCR dispatch engine, the pixel-level page
//! classifier, and the pagination state machine.  Capture, input injection,
//! the OCR backend process and all file and console I/O live outside the
//! library and only hand plain values in and out.

pub mod action;
pub mod backend;
pub mod classify;
pub mod config;
pub mod datetime;
pub mod dispatch;
pub mod errors;
pub mod export;
pub mod interact;
pub mod language;
pub mod paginate;
pub mod reconcile;
pub mod record;

pub use language::Language;
