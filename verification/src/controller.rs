//! The debounce and diff controller: a state machine that takes events and
//! answers each with the next thing to do.
//!
//! A cycle starts when changes are pending, none has arrived for the debounce
//! window, and no cycle is running. It drains the pending set, diffs the
//! files that were read, has the diff summarized and the summary published,
//! and ends. While it runs, new changes gather in the pending set and wait
//! for the next cycle.

use vstd::prelude::*;
use crate::changelog::{is_blank, is_blank_text, lemma_trimmed_is_empty, trimmed};
use crate::cycle::{cycle, holds_no_ignored, initialize_cache, process_changes};
use crate::cycle::{lemma_cycle_stores_no_ignored, FileReading, FileReadingView};
use crate::paths::ignored;
use crate::pending::{no_path_ignored, quiescent, recorded};
use crate::pending::{ChangeKind, ChangedPath, ChangedPathView, PendingChanges, PendingView};
use crate::store::{Cache, SnapshotView};
use crate::summarizer::{reply_summary, summary_of_reply};

verus! {

/// Where the controller stands. Anything but `Idle` means that a cycle is
/// running.
#[derive(Clone, Copy, Debug, PartialEq, Eq, Structural)]
pub enum Phase {
    /// No cycle is running.
    Idle,
    /// A cycle waits for the drained paths to be read.
    Reading,
    /// A cycle waits for the summary of its diff.
    Summarizing,
    /// A cycle waits for its summary to be published.
    Publishing,
}

/// What happened outside.
#[derive(Debug)]
pub enum Event {
    /// A notification of `kind` for `paths` arrived at `now`.
    Changed { kind: ChangeKind, paths: Vec<ChangedPath>, now: u64 },
    /// The poll interval passed; it is `now`.
    Tick { now: u64 },
    /// The drained paths were read.
    FilesRead { files: Vec<FileReading> },
    /// The summarizer returned `summary`.
    SummaryReady { summary: String },
    /// The summarizer failed, timed out, or returned nothing usable.
    SummaryFailed,
    /// The store was persisted and the summary appended to the changelog, or
    /// that was tried and failed.
    Published,
}

/// What an `Event` stands for.
pub enum EventView {
    Changed { kind: ChangeKind, paths: Seq<ChangedPathView>, now: u64 },
    Tick { now: u64 },
    FilesRead { files: Seq<FileReadingView> },
    SummaryReady { summary: Seq<char> },
    SummaryFailed,
    Published,
}

impl View for Event {
    type V = EventView;

    open spec fn view(&self) -> EventView {
        match *self {
            Event::Changed { kind, paths, now } => EventView::Changed {
                kind,
                paths: paths.deep_view(),
                now,
            },
            Event::Tick { now } => EventView::Tick { now },
            Event::FilesRead { files } => EventView::FilesRead { files: files.deep_view() },
            Event::SummaryReady { summary } => EventView::SummaryReady { summary: summary@ },
            Event::SummaryFailed => EventView::SummaryFailed,
            Event::Published => EventView::Published,
        }
    }
}

/// What to do next.
#[derive(Debug)]
pub enum Action {
    /// Nothing.
    Wait,
    /// Read each of `paths` and report what was found with `FilesRead`.
    ReadFiles { paths: Vec<String> },
    /// Have `diff` summarized and report with `SummaryReady` or
    /// `SummaryFailed`.
    Summarize { diff: String },
    /// Persist the store, append `summary` to the changelog, and report with
    /// `Published`.
    Publish { summary: String },
}

/// What an `Action` stands for.
pub enum ActionView {
    Wait,
    ReadFiles { paths: Seq<Seq<char>> },
    Summarize { diff: Seq<char> },
    Publish { summary: Seq<char> },
}

impl View for Action {
    type V = ActionView;

    open spec fn view(&self) -> ActionView {
        match *self {
            Action::Wait => ActionView::Wait,
            Action::ReadFiles { paths } => ActionView::ReadFiles { paths: paths.deep_view() },
            Action::Summarize { diff } => ActionView::Summarize { diff: diff@ },
            Action::Publish { summary } => ActionView::Publish { summary: summary@ },
        }
    }
}

/// The controller: the store, the pending set, the phase, the debounce
/// window in milliseconds and the watched directory.
pub struct Controller {
    store: Cache,
    pending: PendingChanges,
    phase: Phase,
    window: u64,
    root: String,
}

/// What a `Controller` stands for.
pub struct ControllerView {
    pub store: Map<Seq<char>, SnapshotView>,
    pub pending: PendingView,
    pub phase: Phase,
    pub window: u64,
    pub root: Seq<char>,
}

/// A cycle is running.
pub open spec fn processing(state: ControllerView) -> bool {
    !(state.phase is Idle)
}

/// The state after a notification: it reaches the pending set, whatever the
/// phase, and nothing else.
pub open spec fn after_change(
    state: ControllerView,
    kind: ChangeKind,
    changed: Seq<ChangedPathView>,
    now: u64,
) -> ControllerView {
    ControllerView { pending: recorded(state.pending, kind, changed, now), ..state }
}

/// A tick at `now` starts a cycle: none is running, changes are pending, and
/// the last one is at least the window old.
pub open spec fn fires(state: ControllerView, now: u64) -> bool {
    state.phase is Idle && quiescent(state.pending, now, state.window)
}

/// The state after a tick: where it starts a cycle, the pending set is empty
/// and the cycle waits for its files; else nothing has changed.
pub open spec fn after_tick(state: ControllerView, now: u64) -> ControllerView {
    if fires(state, now) {
        ControllerView {
            pending: PendingView {
                paths: Set::empty(),
                last_event: state.pending.last_event,
            },
            phase: Phase::Reading,
            ..state
        }
    } else {
        state
    }
}

/// The state after the files were read: the cycle has gone over them, and
/// waits for a summary where the aggregate diff is not empty, else is over.
/// Outside a cycle that waits for its files nothing changes.
pub open spec fn after_files_read(
    state: ControllerView,
    files: Seq<FileReadingView>,
) -> ControllerView {
    if state.phase is Reading {
        let (store, diff) = cycle(state.store, files, state.root);
        ControllerView {
            store,
            phase: if diff.len() == 0 {
                Phase::Idle
            } else {
                Phase::Summarizing
            },
            ..state
        }
    } else {
        state
    }
}

/// The summary is handed on: the cycle waits for one and this one is not
/// blank.
pub open spec fn publishes(state: ControllerView, summary: Option<Seq<char>>) -> bool {
    state.phase is Summarizing && summary is Some && !is_blank(summary->0)
}

/// The state after the summarizer answered, with a summary or without: the
/// cycle waits for the summary to be published, or is over where there is
/// nothing to publish. The store keeps what the cycle has put into it.
pub open spec fn after_summary(
    state: ControllerView,
    summary: Option<Seq<char>>,
) -> ControllerView {
    if state.phase is Summarizing {
        ControllerView {
            phase: if publishes(state, summary) {
                Phase::Publishing
            } else {
                Phase::Idle
            },
            ..state
        }
    } else {
        state
    }
}

/// The state after publishing: the cycle is over.
pub open spec fn after_published(state: ControllerView) -> ControllerView {
    if state.phase is Publishing {
        ControllerView { phase: Phase::Idle, ..state }
    } else {
        state
    }
}

/// The state after `event`.
pub open spec fn after_event(state: ControllerView, event: EventView) -> ControllerView {
    match event {
        EventView::Changed { kind, paths, now } => after_change(state, kind, paths, now),
        EventView::Tick { now } => after_tick(state, now),
        EventView::FilesRead { files } => after_files_read(state, files),
        EventView::SummaryReady { summary } => after_summary(state, Some(summary)),
        EventView::SummaryFailed => after_summary(state, None),
        EventView::Published => after_published(state),
    }
}

/// `action` is a right answer to `event` in `state`.
pub open spec fn answers(state: ControllerView, event: EventView, action: ActionView) -> bool {
    match event {
        EventView::Tick { now } => if fires(state, now) {
            &&& action matches ActionView::ReadFiles { paths }
            &&& paths.to_set() == state.pending.paths
            &&& paths.no_duplicates()
        } else {
            action is Wait
        },
        EventView::FilesRead { files } => {
            let diff = cycle(state.store, files, state.root).1;
            if state.phase is Reading && diff.len() > 0 {
                action == (ActionView::Summarize { diff })
            } else {
                action is Wait
            }
        },
        EventView::SummaryReady { summary } => if publishes(state, Some(summary)) {
            action == (ActionView::Publish { summary })
        } else {
            action is Wait
        },
        _ => action is Wait,
    }
}

/// The state after each of `events` in turn.
pub open spec fn after_events(state: ControllerView, events: Seq<EventView>) -> ControllerView
    decreases events.len(),
{
    if events.len() == 0 {
        state
    } else {
        after_event(after_events(state, events.drop_last()), events.last())
    }
}

/// While a cycle runs, a tick starts no other and leaves the pending set as
/// it is.
pub proof fn lemma_single_flight(state: ControllerView, now: u64)
    requires
        processing(state),
    ensures
        !fires(state, now),
        after_tick(state, now) == state,
{
}

/// A change that is notified while a cycle runs is pending when the cycle is
/// over: every event adds to the pending set or leaves it as it is, but for
/// the tick that starts a cycle, and none starts while one runs.
pub proof fn lemma_pending_outlasts_cycle(
    state: ControllerView,
    event: EventView,
    path: Seq<char>,
)
    requires
        processing(state),
        state.pending.paths.contains(path),
    ensures
        after_event(state, event).pending.paths.contains(path),
{
}

/// A path that is pending while a cycle runs is still pending when the cycle
/// is over, whatever happens until then.
pub proof fn lemma_pending_outlasts_running_cycle(
    state: ControllerView,
    events: Seq<EventView>,
    path: Seq<char>,
)
    requires
        state.pending.paths.contains(path),
        forall|k: int|
            0 <= k < events.len() ==> processing(#[trigger] after_events(state, events.take(k))),
    ensures
        after_events(state, events).pending.paths.contains(path),
    decreases events.len(),
{
    if events.len() > 0 {
        let earlier = events.drop_last();
        assert forall|k: int| 0 <= k < earlier.len() implies processing(
            #[trigger] after_events(state, earlier.take(k)),
        ) by {
            assert(earlier.take(k) == events.take(k));
        }
        lemma_pending_outlasts_running_cycle(state, earlier, path);
        assert(events.take(events.len() - 1) == earlier);
        lemma_pending_outlasts_cycle(after_events(state, earlier), events.last(), path);
    }
}

/// A notification changes neither the phase nor the store.
pub proof fn lemma_change_leaves_cycle_alone(
    state: ControllerView,
    kind: ChangeKind,
    changed: Seq<ChangedPathView>,
    now: u64,
)
    ensures
        after_change(state, kind, changed, now).phase == state.phase,
        after_change(state, kind, changed, now).store == state.store,
{
}

/// No cycle starts before the window has passed since the last change, nor
/// with nothing pending.
pub proof fn lemma_no_cycle_before_window(state: ControllerView, now: u64)
    requires
        now < state.pending.last_event + state.window || state.pending.paths.is_empty(),
    ensures
        !fires(state, now),
        after_tick(state, now) == state,
{
}

/// A failed summary ends the cycle and keeps the store as the cycle left it.
pub proof fn lemma_failed_summary_keeps_store(state: ControllerView)
    requires
        state.phase is Summarizing,
    ensures
        after_summary(state, None).store == state.store,
        after_summary(state, None).phase is Idle,
        !publishes(state, None),
{
}

/// A summary that is handed on to be published is not empty once trimmed.
pub proof fn lemma_published_summary_is_not_empty(state: ControllerView, summary: Seq<char>)
    requires
        publishes(state, Some(summary)),
    ensures
        trimmed(summary).len() > 0,
{
    lemma_trimmed_is_empty(summary);
}

/// No event brings an excluded path into the store or into the pending set.
pub proof fn lemma_events_keep_exclusion(state: ControllerView, event: EventView)
    requires
        holds_no_ignored(state.store),
        no_path_ignored(state.pending),
    ensures
        holds_no_ignored(after_event(state, event).store),
        no_path_ignored(after_event(state, event).pending),
{
    match event {
        EventView::FilesRead { files } => {
            lemma_cycle_stores_no_ignored(state.store, files, state.root);
        },
        _ => {},
    }
}

/// Whatever happens, no excluded path comes into the store or into the
/// pending set.
pub proof fn lemma_runs_keep_exclusion(state: ControllerView, events: Seq<EventView>)
    requires
        holds_no_ignored(state.store),
        no_path_ignored(state.pending),
    ensures
        holds_no_ignored(after_events(state, events).store),
        no_path_ignored(after_events(state, events).pending),
    decreases events.len(),
{
    if events.len() > 0 {
        lemma_runs_keep_exclusion(state, events.drop_last());
        lemma_events_keep_exclusion(after_events(state, events.drop_last()), events.last());
    }
}

impl View for Controller {
    type V = ControllerView;

    closed spec fn view(&self) -> ControllerView {
        ControllerView {
            store: self.store@,
            pending: self.pending@,
            phase: self.phase,
            window: self.window,
            root: self.root@,
        }
    }
}

impl Controller {
    /// The store holds no excluded path.
    #[verifier::type_invariant]
    spec fn wf(self) -> bool {
        holds_no_ignored(self.store@)
    }

    /// A controller for the watched directory `root` with a debounce window
    /// of `window` milliseconds. Its store is the baseline made of `files`,
    /// the tracked files as they are at the start: whatever an earlier run
    /// has persisted plays no part. Nothing is pending and no cycle is
    /// running.
    pub fn new(root: &str, window: u64, files: &Vec<FileReading>) -> (controller: Self)
        ensures
            controller@.store == crate::cycle::baseline(files.deep_view(), root@),
            controller@.pending.paths == Set::<Seq<char>>::empty(),
            controller@.phase is Idle,
            controller@.window == window,
            controller@.root == root@,
    {
        let store = initialize_cache(files, root);
        Controller {
            store,
            pending: PendingChanges::new(),
            phase: Phase::Idle,
            window,
            root: root.to_owned(),
        }
    }

    /// A controller with nothing in it, to stand in for one that is being
    /// changed: an empty store, nothing pending, no cycle running, no window
    /// and no watched directory.
    fn vacant() -> (controller: Self)
        ensures
            controller@.store == Map::<Seq<char>, SnapshotView>::empty(),
            controller@.pending.paths == Set::<Seq<char>>::empty(),
            controller@.pending.last_event == 0,
            controller@.phase is Idle,
            controller@.window == 0,
            controller@.root == Seq::<char>::empty(),
    {
        Controller {
            store: Cache::new(),
            pending: PendingChanges::new(),
            phase: Phase::Idle,
            window: 0,
            root: String::new(),
        }
    }

    /// The phase.
    pub fn phase(&self) -> (phase: Phase)
        ensures
            phase == self@.phase,
    {
        self.phase
    }

    /// True while a cycle is running.
    pub fn is_processing(&self) -> (busy: bool)
        ensures
            busy == processing(self@),
    {
        match self.phase {
            Phase::Idle => false,
            _ => true,
        }
    }

    /// The snapshot store. It holds no excluded path.
    pub fn store(&self) -> (store: &Cache)
        ensures
            store@ == self@.store,
            holds_no_ignored(store@),
    {
        proof {
            use_type_invariant(self);
        }
        &self.store
    }

    /// The pending changes. None of them is an excluded path.
    pub fn pending(&self) -> (pending: &PendingChanges)
        ensures
            pending@ == self@.pending,
    {
        &self.pending
    }

    /// The debounce window, in milliseconds.
    pub fn window(&self) -> (window: u64)
        ensures
            window == self@.window,
    {
        self.window
    }

    /// Takes up a notification of `kind` for `changed`, received at `now`.
    pub fn on_change(&mut self, kind: ChangeKind, changed: &Vec<ChangedPath>, now: u64)
        ensures
            final(self)@ == after_change(old(self)@, kind, changed.deep_view(), now),
            no_path_ignored(final(self)@.pending),
    {
        proof {
            use_type_invariant(&*self);
        }
        let mut taken = Controller::vacant();
        std::mem::swap(self, &mut taken);
        let Controller { store, mut pending, phase, window, root } = taken;
        pending.record(kind, changed, now);
        *self = Controller { store, pending, phase, window, root };
    }

    /// Checks at `now` whether a cycle is due. Where one is, the pending
    /// paths are handed out to be read and the pending set is left empty;
    /// where none is, above all while a cycle runs, nothing changes.
    pub fn on_tick(&mut self, now: u64) -> (action: Action)
        ensures
            final(self)@ == after_tick(old(self)@, now),
            answers(old(self)@, EventView::Tick { now }, action@),
            action matches Action::ReadFiles { paths } ==> forall|i: int|
                0 <= i < paths.len() ==> !ignored(#[trigger] paths[i]@),
    {
        proof {
            use_type_invariant(&*self);
        }
        if self.is_processing() || !self.pending.is_quiescent(now, self.window) {
            return Action::Wait;
        }
        let mut taken = Controller::vacant();
        std::mem::swap(self, &mut taken);
        let Controller { store, mut pending, phase, window, root } = taken;
        let paths = pending.drain();
        *self = Controller { store, pending, phase: Phase::Reading, window, root };
        Action::ReadFiles { paths }
    }

    /// Takes up what was read of the drained paths: diffs each file against
    /// the store and sets the snapshots of those that changed. Answers with
    /// the aggregate diff to be summarized; where it is empty the cycle is
    /// over.
    pub fn on_files_read(&mut self, files: &Vec<FileReading>) -> (action: Action)
        ensures
            final(self)@ == after_files_read(old(self)@, files.deep_view()),
            answers(old(self)@, EventView::FilesRead { files: files.deep_view() }, action@),
    {
        proof {
            use_type_invariant(&*self);
        }
        match self.phase {
            Phase::Reading => {},
            _ => {
                return Action::Wait;
            },
        }
        let mut taken = Controller::vacant();
        std::mem::swap(self, &mut taken);
        let Controller { mut store, pending, phase, window, root } = taken;
        proof {
            lemma_cycle_stores_no_ignored(store@, files.deep_view(), root@);
        }
        let diff = process_changes(&mut store, files, root.as_str());
        if diff.as_str().is_empty() {
            *self = Controller { store, pending, phase: Phase::Idle, window, root };
            Action::Wait
        } else {
            *self = Controller { store, pending, phase: Phase::Summarizing, window, root };
            Action::Summarize { diff }
        }
    }

    /// Takes up the summarizer's answer. A summary that is not blank is
    /// handed on to be published; a blank one ends the cycle as a failure
    /// does.
    pub fn on_summary(&mut self, summary: String) -> (action: Action)
        ensures
            final(self)@ == after_summary(old(self)@, Some(summary@)),
            answers(old(self)@, EventView::SummaryReady { summary: summary@ }, action@),
    {
        proof {
            use_type_invariant(&*self);
        }
        match self.phase {
            Phase::Summarizing => {},
            _ => {
                return Action::Wait;
            },
        }
        let blank = is_blank_text(summary.as_str());
        let mut taken = Controller::vacant();
        std::mem::swap(self, &mut taken);
        let Controller { store, pending, phase, window, root } = taken;
        if blank {
            *self = Controller { store, pending, phase: Phase::Idle, window, root };
            Action::Wait
        } else {
            *self = Controller { store, pending, phase: Phase::Publishing, window, root };
            Action::Publish { summary }
        }
    }

    /// Takes up that the summarizer failed: the cycle is over, and the store
    /// keeps the snapshots that the cycle has set.
    pub fn on_summary_failed(&mut self)
        ensures
            final(self)@ == after_summary(old(self)@, None),
    {
        proof {
            use_type_invariant(&*self);
        }
        match self.phase {
            Phase::Summarizing => {},
            _ => {
                return ;
            },
        }
        let mut taken = Controller::vacant();
        std::mem::swap(self, &mut taken);
        let Controller { store, pending, phase, window, root } = taken;
        *self = Controller { store, pending, phase: Phase::Idle, window, root };
    }

    /// Takes up the summarizer's reply `body`: the summary in it where it
    /// holds one, else a failure.
    pub fn on_reply(&mut self, body: &[u8]) -> (action: Action)
        ensures
            final(self)@ == after_summary(old(self)@, reply_summary(body@)),
            match reply_summary(body@) {
                Some(summary) => answers(
                    old(self)@,
                    EventView::SummaryReady { summary },
                    action@,
                ),
                None => action is Wait,
            },
    {
        match summary_of_reply(body) {
            Some(summary) => self.on_summary(summary),
            None => {
                self.on_summary_failed();
                Action::Wait
            },
        }
    }

    /// Takes up that publishing is done: the cycle is over.
    pub fn on_published(&mut self)
        ensures
            final(self)@ == after_published(old(self)@),
    {
        proof {
            use_type_invariant(&*self);
        }
        match self.phase {
            Phase::Publishing => {},
            _ => {
                return ;
            },
        }
        let mut taken = Controller::vacant();
        std::mem::swap(self, &mut taken);
        let Controller { store, pending, phase, window, root } = taken;
        *self = Controller { store, pending, phase: Phase::Idle, window, root };
    }

    /// Takes `event` and answers with what to do next.
    pub fn step(&mut self, event: Event) -> (action: Action)
        ensures
            final(self)@ == after_event(old(self)@, event@),
            answers(old(self)@, event@, action@),
            holds_no_ignored(final(self)@.store),
    {
        let action = match event {
            Event::Changed { kind, paths, now } => {
                self.on_change(kind, &paths, now);
                Action::Wait
            },
            Event::Tick { now } => self.on_tick(now),
            Event::FilesRead { files } => self.on_files_read(&files),
            Event::SummaryReady { summary } => self.on_summary(summary),
            Event::SummaryFailed => {
                self.on_summary_failed();
                Action::Wait
            },
            Event::Published => {
                self.on_published();
                Action::Wait
            },
        };
        proof {
            use_type_invariant(&*self);
        }
        action
    }
}

} // verus!
