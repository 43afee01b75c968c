//! The failure taxonomy of the scanner.

use vstd::prelude::*;

verus! {

/// Every typed failure that a component of the scanner can report.
///
/// Failures propagate upward as values; no component retries on its own and
/// none repairs data silently.
#[derive(Debug, Clone, Copy, PartialEq, Eq, Structural)]
pub enum ScanError {
    /// The capture source produced no frame.
    CaptureUnavailable,
    /// A captured frame did not have the required 16:9 aspect ratio.
    AspectRatioMismatch,
    /// A frame was not a valid record-listing page.
    NotAListingPage,
    /// The OCR backend process could not be started or reused.
    OcrBackendUnavailable,
    /// The OCR backend answered, but its response could not be decoded.
    OcrMalformedResponse,
    /// The OCR backend reported that the image holds no text.
    OcrNoTextFound,
    /// A recognized text could not be decoded into a record field.
    FieldParseFailure,
    /// Advancing saw no new page index within its poll budget.
    PaginationTimeout,
    /// Rewinding did not reach the first page within its retry budget.
    PaginationRetryBudgetExceeded,
    /// A merged record sequence was not ordered by descending timestamp.
    ReconciliationOrderViolation,
}

impl ScanError {
    /// A short description of the failure, for logs and console output.
    pub fn message(&self) -> &'static str {
        match self {
            ScanError::CaptureUnavailable => "capture source produced no frame",
            ScanError::AspectRatioMismatch => "captured frame is not 16:9",
            ScanError::NotAListingPage => "frame is not a record listing page",
            ScanError::OcrBackendUnavailable => "OCR backend unavailable",
            ScanError::OcrMalformedResponse => "OCR backend response malformed",
            ScanError::OcrNoTextFound => "OCR backend found no text",
            ScanError::FieldParseFailure => "recognized text is not a valid field",
            ScanError::PaginationTimeout => "page index did not advance in time",
            ScanError::PaginationRetryBudgetExceeded => "could not rewind to the first page",
            ScanError::ReconciliationOrderViolation => "merged records are not time-ordered",
        }
    }
}

} // verus!
