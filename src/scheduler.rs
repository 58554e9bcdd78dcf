//! The poll cycle as a state machine. Each call of `step` takes the event that the last action
//! produced and returns the next action; the caller performs it (loading the watchlist,
//! fetching a page, writing to the store, delivering messages, sleeping) and reports back.
use vstd::prelude::*;
use crate::detect::{detect, detect_spec, Detection, DetectionView};
use crate::extract::{scrape_manga_auto, scrape_spec, ExtractionError};
use crate::models::{Manga, MangaView};
use crate::notify::DeliveryReport;
use crate::source::{source_for, Source};

verus! {

/// Where the poll cycle stands.
#[derive(Clone, Copy, Debug, PartialEq, Eq, Structural)]
pub enum Phase {
    /// Between cycles, waiting for the next tick.
    Idle,
    /// Waiting for the watchlist.
    Loading,
    /// Waiting for the current work's page to be fetched and read.
    Extracting,
    /// Waiting for the current work's new state to be written.
    Persisting,
    /// Waiting for the current work's update to be delivered.
    Notifying,
    /// Shut down on request; no further work is started.
    Stopped,
}

/// What became of one tracked work in a cycle.
#[derive(Clone, Copy, Debug, PartialEq, Eq, Structural)]
pub enum WorkOutcome {
    /// No adapter handles its URL.
    Skipped,
    /// Its page could not be fetched.
    FetchFailed,
    /// Its page yielded no record.
    ExtractionFailed(ExtractionError),
    /// The page shows no newer installment.
    Unchanged,
    /// A newer installment was found but could not be written; it is found again next cycle.
    PersistFailed,
    /// The new state was written and the update delivered, with this tally.
    Notified(DeliveryReport),
}

/// What the caller reports after performing an action.
pub enum Event {
    /// The poll interval has elapsed.
    Tick,
    WatchlistLoaded(Vec<Manga>),
    WatchlistFailed,
    /// The current work's page could not be fetched.
    FetchFailed,
    /// The current work's page.
    Fetched(String),
    /// Whether the new state was written.
    Persisted(bool),
    /// The tally of delivering the update to every channel.
    Notified(DeliveryReport),
}

/// What the caller is asked to do next.
pub enum Action {
    LoadWatchlist,
    /// Fetch the page at `url`, asking as `source`'s site expects.
    Extract { url: String, source: Source },
    /// Upsert this state, keyed by its URL.
    Persist(Manga),
    /// Deliver the update of this work to every channel.
    Notify(Manga),
    /// Wait for the next tick.
    Sleep,
    /// Shut down.
    Stop,
    /// The event did not fit the current phase and changed nothing.
    Ignore,
}

pub enum EventView {
    Tick,
    WatchlistLoaded(Seq<MangaView>),
    WatchlistFailed,
    FetchFailed,
    Fetched(Seq<char>),
    Persisted(bool),
    Notified(DeliveryReport),
}

pub enum ActionView {
    LoadWatchlist,
    Extract { url: Seq<char>, source: Source },
    Persist(MangaView),
    Notify(MangaView),
    Sleep,
    Stop,
    Ignore,
}

pub open spec fn works_view(v: Seq<Manga>) -> Seq<MangaView> {
    v.map_values(|m: Manga| m@)
}

impl View for Event {
    type V = EventView;

    open spec fn view(&self) -> EventView {
        match self {
            Event::Tick => EventView::Tick,
            Event::WatchlistLoaded(v) => EventView::WatchlistLoaded(works_view(v@)),
            Event::WatchlistFailed => EventView::WatchlistFailed,
            Event::FetchFailed => EventView::FetchFailed,
            Event::Fetched(html) => EventView::Fetched(html@),
            Event::Persisted(ok) => EventView::Persisted(*ok),
            Event::Notified(rep) => EventView::Notified(*rep),
        }
    }
}

impl View for Action {
    type V = ActionView;

    open spec fn view(&self) -> ActionView {
        match self {
            Action::LoadWatchlist => ActionView::LoadWatchlist,
            Action::Extract { url, source } => ActionView::Extract { url: url@, source: *source },
            Action::Persist(m) => ActionView::Persist(m@),
            Action::Notify(m) => ActionView::Notify(m@),
            Action::Sleep => ActionView::Sleep,
            Action::Stop => ActionView::Stop,
            Action::Ignore => ActionView::Ignore,
        }
    }
}

pub struct SchedulerView {
    pub phase: Phase,
    pub works: Seq<MangaView>,
    pub cursor: int,
    pub pending: Option<MangaView>,
    pub outcomes: Seq<WorkOutcome>,
    pub stop_requested: bool,
}

/// Moves on from work `cursor`: works that no adapter handles are marked skipped; the first
/// that one does is extracted, unless a stop was requested; when none is left the cycle ends.
pub open spec fn advance_spec(
    works: Seq<MangaView>,
    cursor: int,
    outcomes: Seq<WorkOutcome>,
    stop: bool,
) -> (SchedulerView, ActionView)
    decreases works.len() - cursor,
{
    let here = SchedulerView {
        phase: Phase::Idle,
        works,
        cursor,
        pending: None,
        outcomes,
        stop_requested: stop,
    };
    if cursor >= works.len() || stop {
        if stop {
            (SchedulerView { phase: Phase::Stopped, ..here }, ActionView::Stop)
        } else {
            (here, ActionView::Sleep)
        }
    } else if cursor < 0 {
        (here, ActionView::Sleep)
    } else {
        match source_for(works[cursor].url) {
            None => advance_spec(works, cursor + 1, outcomes.push(WorkOutcome::Skipped), stop),
            Some(source) => (
                SchedulerView { phase: Phase::Extracting, ..here },
                ActionView::Extract { url: works[cursor].url, source },
            ),
        }
    }
}

/// Records the current work's outcome and moves on.
pub open spec fn finish_spec(s: SchedulerView, outcome: WorkOutcome) -> (SchedulerView, ActionView) {
    advance_spec(s.works, s.cursor + 1, s.outcomes.push(outcome), s.stop_requested)
}

/// One transition of the poll cycle.
pub open spec fn step_spec(s: SchedulerView, e: EventView, now: int) -> (SchedulerView, ActionView) {
    let ignored = (s, ActionView::Ignore);
    match s.phase {
        Phase::Idle => match e {
            EventView::Tick => if s.stop_requested {
                (SchedulerView { phase: Phase::Stopped, ..s }, ActionView::Stop)
            } else {
                (
                    SchedulerView {
                        phase: Phase::Loading,
                        works: Seq::empty(),
                        cursor: 0,
                        pending: None,
                        outcomes: Seq::empty(),
                        stop_requested: false,
                    },
                    ActionView::LoadWatchlist,
                )
            },
            _ => ignored,
        },
        Phase::Loading => match e {
            EventView::WatchlistLoaded(works) => advance_spec(
                works,
                0,
                Seq::empty(),
                s.stop_requested,
            ),
            EventView::WatchlistFailed => advance_spec(
                Seq::empty(),
                0,
                Seq::empty(),
                s.stop_requested,
            ),
            _ => ignored,
        },
        Phase::Extracting => match e {
            EventView::FetchFailed => finish_spec(s, WorkOutcome::FetchFailed),
            EventView::Fetched(html) => match scrape_spec(s.works[s.cursor].url, html) {
                Err(err) => finish_spec(s, WorkOutcome::ExtractionFailed(err)),
                Ok(record) => match detect_spec(s.works[s.cursor], record, now) {
                    DetectionView::NoChange => finish_spec(s, WorkOutcome::Unchanged),
                    DetectionView::Changed(m) => (
                        SchedulerView { phase: Phase::Persisting, pending: Some(m), ..s },
                        ActionView::Persist(m),
                    ),
                },
            },
            _ => ignored,
        },
        Phase::Persisting => match e {
            EventView::Persisted(true) => (
                SchedulerView { phase: Phase::Notifying, ..s },
                ActionView::Notify(s.pending->0),
            ),
            EventView::Persisted(false) => finish_spec(s, WorkOutcome::PersistFailed),
            _ => ignored,
        },
        Phase::Notifying => match e {
            EventView::Notified(report) => finish_spec(s, WorkOutcome::Notified(report)),
            _ => ignored,
        },
        Phase::Stopped => ignored,
    }
}

/// The scheduler of the periodic update: one poll cycle at a time over the whole watchlist.
pub struct AutoMangaCommands {
    phase: Phase,
    works: Vec<Manga>,
    cursor: usize,
    pending: Option<Manga>,
    outcomes: Vec<WorkOutcome>,
    stop_requested: bool,
}

impl View for AutoMangaCommands {
    type V = SchedulerView;

    closed spec fn view(&self) -> SchedulerView {
        SchedulerView {
            phase: self.phase,
            works: works_view(self.works@),
            cursor: self.cursor as int,
            pending: match self.pending {
                Some(m) => Some(m@),
                None => None,
            },
            outcomes: self.outcomes@,
            stop_requested: self.stop_requested,
        }
    }
}

/// What holds of every reachable scheduler state: one outcome per work already passed, a
/// current work while one is in progress, and its new state while it is written and delivered.
pub open spec fn state_wf(s: SchedulerView) -> bool {
    &&& 0 <= s.cursor <= s.works.len()
    &&& s.outcomes.len() == s.cursor
    &&& (s.phase == Phase::Extracting || s.phase == Phase::Persisting || s.phase
        == Phase::Notifying) ==> s.cursor < s.works.len()
    &&& (s.phase == Phase::Persisting || s.phase == Phase::Notifying) <==> s.pending is Some
}

/// Passing over the rest of the watchlist keeps the state well formed and asks only to extract,
/// to sleep or to stop; a cycle that ends in sleep has an outcome for every work.
proof fn lemma_advance(works: Seq<MangaView>, cursor: int, outcomes: Seq<WorkOutcome>, stop: bool)
    requires
        0 <= cursor <= works.len(),
        outcomes.len() == cursor,
    ensures
        ({
            let (t, a) = advance_spec(works, cursor, outcomes, stop);
            &&& state_wf(t)
            &&& a is Extract || a is Sleep || a is Stop
            &&& a is Sleep ==> t.phase == Phase::Idle && t.outcomes.len() == t.works.len()
        }),
    decreases works.len() - cursor,
{
    if cursor < works.len() && !stop {
        if source_for(works[cursor].url) is None {
            lemma_advance(works, cursor + 1, outcomes.push(WorkOutcome::Skipped), stop);
        }
    }
}

/// The outcome that an event records for the current work, where it finishes it.
spec fn finishing_outcome(s: SchedulerView, e: EventView) -> Option<WorkOutcome> {
    match (s.phase, e) {
        (Phase::Extracting, EventView::FetchFailed) => Some(WorkOutcome::FetchFailed),
        (Phase::Extracting, EventView::Fetched(html)) => match scrape_spec(
            s.works[s.cursor].url,
            html,
        ) {
            Err(err) => Some(WorkOutcome::ExtractionFailed(err)),
            Ok(record) => if detect_spec(s.works[s.cursor], record, 0) is NoChange {
                Some(WorkOutcome::Unchanged)
            } else {
                None
            },
        },
        (Phase::Persisting, EventView::Persisted(false)) => Some(WorkOutcome::PersistFailed),
        (Phase::Notifying, EventView::Notified(report)) => Some(WorkOutcome::Notified(report)),
        _ => None,
    }
}

/// What holds after any transition from a well-formed state.
proof fn lemma_step_facts(s: SchedulerView, e: EventView, now: int)
    requires
        state_wf(s),
    ensures
        ({
            let (t, a) = step_spec(s, e, now);
            &&& state_wf(t)
            &&& a is Sleep ==> t.phase == Phase::Idle && t.outcomes.len() == t.works.len()
            &&& a matches ActionView::Persist(m) ==> {
                &&& s.phase == Phase::Extracting
                &&& m.latest_chapter > s.works[s.cursor].latest_chapter
                &&& m.url == s.works[s.cursor].url
            }
            &&& a matches ActionView::Notify(m) ==> {
                &&& s.phase == Phase::Persisting
                &&& e == EventView::Persisted(true)
                &&& s.pending == Some(m)
            }
        }),
{
    match finishing_outcome(s, e) {
        Some(o) => lemma_advance(s.works, s.cursor + 1, s.outcomes.push(o), s.stop_requested),
        None => {},
    }
    if s.phase == Phase::Loading {
        match e {
            EventView::WatchlistLoaded(works) => lemma_advance(works, 0, Seq::empty(), s.stop_requested),
            _ => lemma_advance(Seq::empty(), 0, Seq::empty(), s.stop_requested),
        }
    }
}

/// Every transition keeps the state well formed, and the action that ends a cycle in sleep
/// leaves an outcome recorded for every work of the watchlist.
pub proof fn lemma_step_wf(s: SchedulerView, e: EventView, now: int)
    requires
        state_wf(s),
    ensures
        state_wf(step_spec(s, e, now).0),
        step_spec(s, e, now).1 is Sleep ==> {
            let t = step_spec(s, e, now).0;
            &&& t.phase == Phase::Idle
            &&& t.outcomes.len() == t.works.len()
        },
{
    lemma_step_facts(s, e, now);
}

/// A work's state is written only with a strictly greater installment number than the one the
/// watchlist held for it, under the same URL; and an update is delivered only after its state
/// was written.
pub proof fn lemma_only_newer_is_written(s: SchedulerView, e: EventView, now: int)
    requires
        state_wf(s),
    ensures
        step_spec(s, e, now).1 matches ActionView::Persist(m) ==> {
            &&& s.phase == Phase::Extracting
            &&& m.latest_chapter > s.works[s.cursor].latest_chapter
            &&& m.url == s.works[s.cursor].url
        },
        step_spec(s, e, now).1 matches ActionView::Notify(m) ==> {
            &&& s.phase == Phase::Persisting
            &&& e == EventView::Persisted(true)
            &&& s.pending == Some(m)
        },
{
    lemma_step_facts(s, e, now);
}

impl AutoMangaCommands {
    #[verifier::type_invariant]
    spec fn inv(self) -> bool {
        state_wf(self@)
    }

    /// A scheduler between cycles, with nothing done yet.
    pub fn new() -> (r: AutoMangaCommands)
        ensures
            r@ == (SchedulerView {
                phase: Phase::Idle,
                works: Seq::empty(),
                cursor: 0,
                pending: None,
                outcomes: Seq::empty(),
                stop_requested: false,
            }),
    {
        let r = AutoMangaCommands {
            phase: Phase::Idle,
            works: Vec::new(),
            cursor: 0,
            pending: None,
            outcomes: Vec::new(),
            stop_requested: false,
        };
        assert(works_view(r.works@) =~= Seq::<MangaView>::empty());
        r
    }

    pub fn phase(&self) -> (r: Phase)
        ensures
            r == self@.phase,
    {
        self.phase
    }

    /// One outcome for each work of the current cycle already passed, in watchlist order.
    pub fn outcomes(&self) -> (r: &Vec<WorkOutcome>)
        ensures
            r@ == self@.outcomes,
    {
        &self.outcomes
    }

    /// Asks for a shutdown: the work in progress is finished, no new one is started.
    pub fn request_stop(self) -> (r: AutoMangaCommands)
        ensures
            r@ == (SchedulerView { stop_requested: true, ..self@ }),
    {
        proof {
            use_type_invariant(&self);
        }
        AutoMangaCommands { stop_requested: true, ..self }
    }
}

fn advance(
    works: Vec<Manga>,
    start: usize,
    recorded: Vec<WorkOutcome>,
    stop: bool,
) -> (r: (AutoMangaCommands, Action))
    requires
        start <= works.len(),
        recorded.len() == start,
    ensures
        (r.0@, r.1@) == advance_spec(works_view(works@), start as int, recorded@, stop),
{
    let ghost wv = works_view(works@);
    let ghost goal = advance_spec(wv, start as int, recorded@, stop);
    let mut cursor = start;
    let mut outcomes = recorded;
    while cursor < works.len() && !stop
        invariant
            wv == works_view(works@),
            goal == advance_spec(works_view(works@), start as int, recorded@, stop),
            cursor <= works.len(),
            outcomes.len() == cursor,
            goal == advance_spec(wv, cursor as int, outcomes@, stop),
        decreases works.len() - cursor,
    {
        assert(wv[cursor as int] == works@[cursor as int]@);
        match Source::for_url(works[cursor].url.as_str()) {
            Some(source) => {
                let url = works[cursor].url.clone();
                let s = AutoMangaCommands {
                    phase: Phase::Extracting,
                    works,
                    cursor,
                    pending: None,
                    outcomes,
                    stop_requested: stop,
                };
                return (s, Action::Extract { url, source });
            },
            None => {
                outcomes.push(WorkOutcome::Skipped);
                cursor = cursor + 1;
            },
        }
    }
    if stop {
        let s = AutoMangaCommands {
            phase: Phase::Stopped,
            works,
            cursor,
            pending: None,
            outcomes,
            stop_requested: stop,
        };
        (s, Action::Stop)
    } else {
        let s = AutoMangaCommands {
            phase: Phase::Idle,
            works,
            cursor,
            pending: None,
            outcomes,
            stop_requested: stop,
        };
        (s, Action::Sleep)
    }
}

impl AutoMangaCommands {
    /// Takes the event that the last action produced, at time `now`, and returns the next
    /// state and action.
    pub fn step(self, event: Event, now: i64) -> (r: (AutoMangaCommands, Action))
        ensures
            (r.0@, r.1@) == step_spec(self@, event@, now as int),
            r.1 is Sleep ==> r.0@.phase == Phase::Idle && r.0@.outcomes.len() == r.0@.works.len(),
    {
        proof {
            use_type_invariant(&self);
            lemma_step_wf(self@, event@, now as int);
        }
        let ghost old_view = self@;
        let ghost goal = step_spec(self@, event@, now as int);
        let AutoMangaCommands { phase, works, cursor, pending, mut outcomes, stop_requested } = self;
        assert(forall|i: int|
            0 <= i < works@.len() ==> old_view.works[i] == (#[trigger] works@[i])@);
        let count = works.len();
        assert(phase == Phase::Extracting || phase == Phase::Persisting || phase
            == Phase::Notifying ==> cursor < count);
        let r = match (phase, event) {
            (Phase::Idle, Event::Tick) => {
                if stop_requested {
                    let s = AutoMangaCommands {
                        phase: Phase::Stopped,
                        works,
                        cursor,
                        pending,
                        outcomes,
                        stop_requested,
                    };
                    (s, Action::Stop)
                } else {
                    (AutoMangaCommands::new_cycle(), Action::LoadWatchlist)
                }
            },
            (Phase::Loading, Event::WatchlistLoaded(list)) => {
                advance(list, 0, Vec::new(), stop_requested)
            },
            (Phase::Loading, Event::WatchlistFailed) => {
                let none: Vec<Manga> = Vec::new();
                assert(works_view(none@) =~= Seq::<MangaView>::empty());
                advance(none, 0, Vec::new(), stop_requested)
            },
            (Phase::Extracting, Event::FetchFailed) => {
                outcomes.push(WorkOutcome::FetchFailed);
                advance(works, cursor + 1, outcomes, stop_requested)
            },
            (Phase::Extracting, Event::Fetched(html)) => {
                match scrape_manga_auto(works[cursor].url.as_str(), html.as_str()) {
                    Err(err) => {
                        outcomes.push(WorkOutcome::ExtractionFailed(err));
                        advance(works, cursor + 1, outcomes, stop_requested)
                    },
                    Ok(record) => match detect(&works[cursor], &record, now) {
                        Detection::NoChange => {
                            outcomes.push(WorkOutcome::Unchanged);
                            advance(works, cursor + 1, outcomes, stop_requested)
                        },
                        Detection::Changed(m) => {
                            let for_action = m.duplicate();
                            let s = AutoMangaCommands {
                                phase: Phase::Persisting,
                                works,
                                cursor,
                                pending: Some(m),
                                outcomes,
                                stop_requested,
                            };
                            (s, Action::Persist(for_action))
                        },
                    },
                }
            },
            (Phase::Persisting, Event::Persisted(true)) => match pending {
                Some(m) => {
                    let for_action = m.duplicate();
                    let s = AutoMangaCommands {
                        phase: Phase::Notifying,
                        works,
                        cursor,
                        pending: Some(m),
                        outcomes,
                        stop_requested,
                    };
                    (s, Action::Notify(for_action))
                },
                None => {
                    let s = AutoMangaCommands { phase, works, cursor, pending, outcomes, stop_requested };
                    (s, Action::Ignore)
                },
            },
            (Phase::Persisting, Event::Persisted(false)) => {
                outcomes.push(WorkOutcome::PersistFailed);
                advance(works, cursor + 1, outcomes, stop_requested)
            },
            (Phase::Notifying, Event::Notified(report)) => {
                outcomes.push(WorkOutcome::Notified(report));
                advance(works, cursor + 1, outcomes, stop_requested)
            },
            (phase, _) => {
                let s = AutoMangaCommands { phase, works, cursor, pending, outcomes, stop_requested };
                (s, Action::Ignore)
            },
        };
        assert(r.0@ == goal.0);
        assert(r.1@ == goal.1);
        r
    }

    fn new_cycle() -> (r: AutoMangaCommands)
        ensures
            r@ == (SchedulerView {
                phase: Phase::Loading,
                works: Seq::empty(),
                cursor: 0,
                pending: None,
                outcomes: Seq::empty(),
                stop_requested: false,
            }),
    {
        let r = AutoMangaCommands {
            phase: Phase::Loading,
            works: Vec::new(),
            cursor: 0,
            pending: None,
            outcomes: Vec::new(),
            stop_requested: false,
        };
        assert(works_view(r.works@) =~= Seq::<MangaView>::empty());
        r
    }
}

} // verus!
