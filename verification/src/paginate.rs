//! The pagination controller: an explicit state machine that drives the
//! capture → classify → click cycle over the record listing.
//!
//! The controller never touches the screen itself.  Its driver captures
//! and classifies one frame, hands the observation to `step`, and performs
//! the action the controller answers: click, poll again, or stop.  There
//! is no explicit end-of-list marker; the absence of progress within the
//! poll budget is the completion signal.

use vstd::prelude::*;

use crate::errors::ScanError;

verus! {

/// The phase of the pagination controller.
#[derive(Debug, Copy, Clone, PartialEq, Eq, Structural)]
pub enum Phase {
    /// Checking that the screen shows the record listing at all.
    Locating,
    /// Clicking back toward the first page.
    Rewinding,
    /// Clicking forward, polling until the index advances or time is up.
    Advancing,
    /// The whole listing has been traversed; pages 1..N were accepted.
    Done,
    /// The traversal failed; pages accepted so far remain usable.
    Failed,
}

/// What one capture+classify cycle saw on the screen.
#[derive(Debug, Copy, Clone, PartialEq, Eq, Structural)]
pub enum Observation {
    /// A valid listing page carrying this page-index label.
    Listing { index: u32 },
    /// Not a valid listing page.
    NotListing,
}

/// What the controller asks its driver to do next.
#[derive(Debug, Copy, Clone, PartialEq, Eq, Structural)]
pub enum ControlAction {
    /// Click "previous page", wait the settle delay, capture and classify.
    ClickPrevious,
    /// Click "next page", wait the settle delay, capture and classify.
    ClickNext,
    /// Capture and classify again without clicking.
    Poll,
    /// Nothing: the controller is in a terminal phase.
    Stop,
}

/// One step's answer: whether the observed page joins the accepted pages,
/// and what to do next.
#[derive(Debug, Copy, Clone, PartialEq, Eq, Structural)]
pub struct StepOutcome {
    /// The observed page is page `pages_accepted` of the listing; keep it.
    pub accept_page: bool,
    /// What the driver performs before the next observation.
    pub action: ControlAction,
}

/// The pagination controller's state.  All counters are plain data; the
/// transition function `spec_step` is the single source of truth.
#[derive(Debug, Copy, Clone, PartialEq, Eq, Structural)]
pub struct PaginationController {
    /// Where the traversal stands.
    pub phase: Phase,
    /// How many pages were accepted; their indices are exactly 1..=this.
    pub pages_accepted: u32,
    /// How many rewind clicks were spent.
    pub rewind_spent: u32,
    /// The bound on rewind clicks; reaching it fails the traversal.
    pub rewind_budget: u32,
    /// Consecutive no-progress polls while advancing.
    pub idle_polls: u32,
    /// The bound on consecutive no-progress polls; reaching it means the
    /// listing has ended.
    pub poll_budget: u32,
    /// Why the traversal failed, once the phase is `Failed`.
    pub failure: Option<ScanError>,
}

/// Whether an observation advances the traversal: the next page, with the
/// index that follows the accepted ones.
pub open spec fn spec_is_progress(pages_accepted: u32, obs: Observation) -> bool {
    match obs {
        Observation::Listing { index } => index == pages_accepted + 1,
        Observation::NotListing => false,
    }
}

/// The counters stay within their budgets.
pub open spec fn ctl_wf(s: PaginationController) -> bool {
    &&& s.rewind_spent <= s.rewind_budget
    &&& s.idle_polls <= s.poll_budget
}

/// The transition function: from a state and an observation to the next
/// state, whether the observed page is accepted, and the next action.
pub open spec fn spec_step(s: PaginationController, obs: Observation) -> (
    PaginationController,
    bool,
    ControlAction,
) {
    match s.phase {
        Phase::Locating => match obs {
            Observation::Listing { index } => {
                if index == 1 {
                    (
                        PaginationController {
                            phase: Phase::Advancing,
                            pages_accepted: 1,
                            idle_polls: 0,
                            ..s
                        },
                        true,
                        ControlAction::ClickNext,
                    )
                } else if s.rewind_spent < s.rewind_budget {
                    (
                        PaginationController {
                            phase: Phase::Rewinding,
                            rewind_spent: (s.rewind_spent + 1) as u32,
                            ..s
                        },
                        false,
                        ControlAction::ClickPrevious,
                    )
                } else {
                    (
                        PaginationController {
                            phase: Phase::Failed,
                            failure: Some(ScanError::PaginationRetryBudgetExceeded),
                            ..s
                        },
                        false,
                        ControlAction::Stop,
                    )
                }
            },
            Observation::NotListing => (
                PaginationController {
                    phase: Phase::Failed,
                    failure: Some(ScanError::NotAListingPage),
                    ..s
                },
                false,
                ControlAction::Stop,
            ),
        },
        Phase::Rewinding => {
            if obs == (Observation::Listing { index: 1u32 }) {
                (
                    PaginationController {
                        phase: Phase::Advancing,
                        pages_accepted: 1,
                        idle_polls: 0,
                        ..s
                    },
                    true,
                    ControlAction::ClickNext,
                )
            } else if s.rewind_spent < s.rewind_budget {
                (
                    PaginationController { rewind_spent: (s.rewind_spent + 1) as u32, ..s },
                    false,
                    ControlAction::ClickPrevious,
                )
            } else {
                (
                    PaginationController {
                        phase: Phase::Failed,
                        failure: Some(ScanError::PaginationRetryBudgetExceeded),
                        ..s
                    },
                    false,
                    ControlAction::Stop,
                )
            }
        },
        Phase::Advancing => {
            if spec_is_progress(s.pages_accepted, obs) {
                (
                    PaginationController {
                        pages_accepted: (s.pages_accepted + 1) as u32,
                        idle_polls: 0,
                        ..s
                    },
                    true,
                    ControlAction::ClickNext,
                )
            } else if s.idle_polls < s.poll_budget {
                let bumped = PaginationController { idle_polls: (s.idle_polls + 1) as u32, ..s };
                if bumped.idle_polls == s.poll_budget {
                    (
                        PaginationController { phase: Phase::Done, ..bumped },
                        false,
                        ControlAction::Stop,
                    )
                } else {
                    (bumped, false, ControlAction::Poll)
                }
            } else {
                (PaginationController { phase: Phase::Done, ..s }, false, ControlAction::Stop)
            }
        },
        Phase::Done => (s, false, ControlAction::Stop),
        Phase::Failed => (s, false, ControlAction::Stop),
    }
}

impl PaginationController {
    /// A controller ready to locate the listing, with the given budgets.
    pub fn new(rewind_budget: u32, poll_budget: u32) -> (s: Self)
        ensures
            s == (PaginationController {
                phase: Phase::Locating,
                pages_accepted: 0,
                rewind_spent: 0,
                rewind_budget,
                idle_polls: 0,
                poll_budget,
                failure: None,
            }),
            ctl_wf(s),
    {
        PaginationController {
            phase: Phase::Locating,
            pages_accepted: 0,
            rewind_spent: 0,
            rewind_budget,
            idle_polls: 0,
            poll_budget,
            failure: None,
        }
    }

    /// Advances the controller by one observation, exactly as `spec_step`
    /// prescribes.  `pages_accepted` can only grow when the observed index
    /// continues the accepted range, so the accepted pages always carry
    /// the contiguous indices 1..=`pages_accepted`.
    pub fn step(&mut self, obs: Observation) -> (r: StepOutcome)
        requires
            ctl_wf(*old(self)),
            old(self).pages_accepted < u32::MAX,
        ensures
            ctl_wf(*final(self)),
            ({
                let t = spec_step(*old(self), obs);
                &&& *final(self) == t.0
                &&& r.accept_page == t.1
                &&& r.action == t.2
            }),
    {
        match self.phase {
            Phase::Locating => match obs {
                Observation::Listing { index } => {
                    if index == 1 {
                        self.phase = Phase::Advancing;
                        self.pages_accepted = 1;
                        self.idle_polls = 0;
                        StepOutcome { accept_page: true, action: ControlAction::ClickNext }
                    } else if self.rewind_spent < self.rewind_budget {
                        self.phase = Phase::Rewinding;
                        self.rewind_spent = self.rewind_spent + 1;
                        StepOutcome { accept_page: false, action: ControlAction::ClickPrevious }
                    } else {
                        self.phase = Phase::Failed;
                        self.failure = Some(ScanError::PaginationRetryBudgetExceeded);
                        StepOutcome { accept_page: false, action: ControlAction::Stop }
                    }
                },
                Observation::NotListing => {
                    self.phase = Phase::Failed;
                    self.failure = Some(ScanError::NotAListingPage);
                    StepOutcome { accept_page: false, action: ControlAction::Stop }
                },
            },
            Phase::Rewinding => {
                let at_first = match obs {
                    Observation::Listing { index } => index == 1,
                    Observation::NotListing => false,
                };
                if at_first {
                    self.phase = Phase::Advancing;
                    self.pages_accepted = 1;
                    self.idle_polls = 0;
                    StepOutcome { accept_page: true, action: ControlAction::ClickNext }
                } else if self.rewind_spent < self.rewind_budget {
                    self.rewind_spent = self.rewind_spent + 1;
                    StepOutcome { accept_page: false, action: ControlAction::ClickPrevious }
                } else {
                    self.phase = Phase::Failed;
                    self.failure = Some(ScanError::PaginationRetryBudgetExceeded);
                    StepOutcome { accept_page: false, action: ControlAction::Stop }
                }
            },
            Phase::Advancing => {
                let progressed = match obs {
                    Observation::Listing { index } => index as u64 == self.pages_accepted as u64
                        + 1,
                    Observation::NotListing => false,
                };
                if progressed {
                    self.pages_accepted = self.pages_accepted + 1;
                    self.idle_polls = 0;
                    StepOutcome { accept_page: true, action: ControlAction::ClickNext }
                } else if self.idle_polls < self.poll_budget {
                    self.idle_polls = self.idle_polls + 1;
                    if self.idle_polls == self.poll_budget {
                        self.phase = Phase::Done;
                        StepOutcome { accept_page: false, action: ControlAction::Stop }
                    } else {
                        StepOutcome { accept_page: false, action: ControlAction::Poll }
                    }
                } else {
                    self.phase = Phase::Done;
                    StepOutcome { accept_page: false, action: ControlAction::Stop }
                }
            },
            Phase::Done => StepOutcome { accept_page: false, action: ControlAction::Stop },
            Phase::Failed => StepOutcome { accept_page: false, action: ControlAction::Stop },
        }
    }
}

/// An accepted page always carries the index that continues the accepted
/// range, so the pages a driver keeps on `accept_page` carry exactly the
/// contiguous indices 1..=`pages_accepted`.
pub proof fn lemma_accepted_page_is_next(s: PaginationController, obs: Observation)
    requires
        ctl_wf(s),
        s.pages_accepted < u32::MAX,
    ensures
        ({
            let t = spec_step(s, obs);
            t.1 ==> obs == (Observation::Listing { index: t.0.pages_accepted })
        }),
{
}

/// The controller after a whole sequence of observations.
pub open spec fn run(s: PaginationController, obs: Seq<Observation>) -> PaginationController
    decreases obs.len(),
{
    if obs.len() == 0 {
        s
    } else {
        run(spec_step(s, obs[0]).0, obs.drop_first())
    }
}

/// Terminal phases are absorbing: once done, every further observation
/// leaves the controller as it is.
pub proof fn lemma_done_stays(s: PaginationController, obs: Seq<Observation>)
    requires
        s.phase == Phase::Done || s.phase == Phase::Failed,
    ensures
        run(s, obs) == s,
    decreases obs.len(),
{
    if obs.len() > 0 {
        lemma_done_stays(s, obs.drop_first());
    }
}

/// Advancing terminates: on a listing whose index never advances again —
/// its last page — the controller reaches `Done`, never `Failed` and never
/// an unbounded loop, after at most its remaining poll budget of
/// observations.
pub proof fn lemma_advancing_terminates(s: PaginationController, obs: Seq<Observation>)
    requires
        ctl_wf(s),
        s.phase == Phase::Advancing,
        forall|i: int| 0 <= i < obs.len() ==> !spec_is_progress(s.pages_accepted, #[trigger] obs[i]),
        obs.len() >= s.poll_budget - s.idle_polls,
        obs.len() > 0,
    ensures
        run(s, obs).phase == Phase::Done,
    decreases obs.len(),
{
    let t = spec_step(s, obs[0]).0;
    if t.phase == Phase::Done {
        lemma_done_stays(t, obs.drop_first());
    } else {
        assert(t.phase == Phase::Advancing);
        assert(t.pages_accepted == s.pages_accepted);
        assert(forall|i: int|
            0 <= i < obs.drop_first().len() ==> !spec_is_progress(
                t.pages_accepted,
                #[trigger] obs.drop_first()[i],
            ));
        lemma_advancing_terminates(t, obs.drop_first());
    }
}

} // verus!
