use snowbreak_gacha_export::action::{next_page_click_pos, previous_page_click_pos};
use snowbreak_gacha_export::config::Config;
use snowbreak_gacha_export::errors::ScanError;
use snowbreak_gacha_export::Language;

#[test]
fn clicks_at_the_design_positions_on_a_canonical_client() {
    assert_eq!(next_page_click_pos(0, 0, 1920, 1080), (1664, 616));
    assert_eq!(previous_page_click_pos(0, 0, 1920, 1080), (1664, 435));
}

#[test]
fn clicks_scale_with_the_client_size_and_origin() {
    // Half-size client, shifted by its screen origin.
    assert_eq!(next_page_click_pos(100, 50, 960, 540), (100 + 832, 50 + 308));
    assert_eq!(previous_page_click_pos(100, 50, 960, 540), (100 + 832, 50 + 218));
}

#[test]
fn config_language_can_be_set() {
    let mut config = Config::default();
    assert_eq!(config.language, Language::ChineseSimplified);
    config.set_language(Language::English);
    assert_eq!(config.language, Language::English);
}

#[test]
fn every_failure_has_a_message() {
    let all = [
        ScanError::CaptureUnavailable,
        ScanError::AspectRatioMismatch,
        ScanError::NotAListingPage,
        ScanError::OcrBackendUnavailable,
        ScanError::OcrMalformedResponse,
        ScanError::OcrNoTextFound,
        ScanError::FieldParseFailure,
        ScanError::PaginationTimeout,
        ScanError::PaginationRetryBudgetExceeded,
        ScanError::ReconciliationOrderViolation,
    ];
    for e in all {
        assert!(!e.message().is_empty());
    }
}
