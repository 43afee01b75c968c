use snowbreak_gacha_export::errors::ScanError;
use snowbreak_gacha_export::paginate::{
    ControlAction, Observation, PaginationController, Phase,
};

fn listing(index: u32) -> Observation {
    Observation::Listing { index }
}

#[test]
fn locating_accepts_the_first_page() {
    let mut c = PaginationController::new(60, 10);
    let out = c.step(listing(1));
    assert!(out.accept_page);
    assert_eq!(out.action, ControlAction::ClickNext);
    assert_eq!(c.phase, Phase::Advancing);
    assert_eq!(c.pages_accepted, 1);
}

#[test]
fn locating_rewinds_from_a_later_page() {
    let mut c = PaginationController::new(60, 10);
    let out = c.step(listing(4));
    assert!(!out.accept_page);
    assert_eq!(out.action, ControlAction::ClickPrevious);
    assert_eq!(c.phase, Phase::Rewinding);
}

#[test]
fn locating_fails_on_a_foreign_screen() {
    let mut c = PaginationController::new(60, 10);
    let out = c.step(Observation::NotListing);
    assert_eq!(out.action, ControlAction::Stop);
    assert_eq!(c.phase, Phase::Failed);
    assert_eq!(c.failure, Some(ScanError::NotAListingPage));
}

#[test]
fn rewinding_reaches_the_first_page() {
    let mut c = PaginationController::new(60, 10);
    c.step(listing(3));
    c.step(listing(2));
    let out = c.step(listing(1));
    assert!(out.accept_page);
    assert_eq!(out.action, ControlAction::ClickNext);
    assert_eq!(c.phase, Phase::Advancing);
    assert_eq!(c.pages_accepted, 1);
}

#[test]
fn rewinding_gives_up_after_its_budget() {
    let mut c = PaginationController::new(3, 10);
    c.step(listing(9));
    c.step(listing(8));
    c.step(listing(7));
    let out = c.step(listing(6));
    assert_eq!(out.action, ControlAction::Stop);
    assert_eq!(c.phase, Phase::Failed);
    assert_eq!(c.failure, Some(ScanError::PaginationRetryBudgetExceeded));
}

#[test]
fn advancing_accepts_contiguous_pages() {
    let mut c = PaginationController::new(60, 10);
    c.step(listing(1));
    let out = c.step(listing(2));
    assert!(out.accept_page);
    assert_eq!(c.pages_accepted, 2);
    // A stale index is no progress, only a poll.
    let out = c.step(listing(2));
    assert!(!out.accept_page);
    assert_eq!(out.action, ControlAction::Poll);
    // The poll counter resets once the index advances.
    let out = c.step(listing(3));
    assert!(out.accept_page);
    assert_eq!(c.pages_accepted, 3);
    assert_eq!(c.idle_polls, 0);
}

#[test]
fn advancing_ends_in_done_after_bounded_no_progress_polls() {
    // On the last page the index never advances: the controller reaches
    // Done after at most its poll budget, instead of looping forever.
    let budget: u32 = 5;
    let mut c = PaginationController::new(60, budget);
    c.step(listing(1));
    let mut steps = 0u32;
    loop {
        let out = c.step(listing(1));
        steps += 1;
        assert!(steps <= budget, "the controller must stop within its poll budget");
        if out.action == ControlAction::Stop {
            break;
        }
        assert_eq!(out.action, ControlAction::Poll);
    }
    assert_eq!(c.phase, Phase::Done);
    assert_eq!(steps, budget);
    assert_eq!(c.pages_accepted, 1);
}

#[test]
fn terminal_phases_absorb_every_observation() {
    let mut c = PaginationController::new(60, 1);
    c.step(listing(1));
    c.step(Observation::NotListing);
    assert_eq!(c.phase, Phase::Done);
    let out = c.step(listing(2));
    assert!(!out.accept_page);
    assert_eq!(out.action, ControlAction::Stop);
    assert_eq!(c.phase, Phase::Done);
    assert_eq!(c.pages_accepted, 1);
}
