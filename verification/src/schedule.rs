//! The task of one registration: when it wakes, and what it asks for in which
//! order. The task itself does no outside work. It hands out one action at a
//! time and is told how the action ended.

use crate::model::{
    event_views, meeting_views, EventDraft, EventDraftView, Meeting, MeetingView, MirroredEvent,
    MirroredEventView, SyncError, Synchronizer, SynchronizerView,
};
use crate::reconcile::{
    copy_draft, creations, do_sync, draft_views, drafts_to_create, lemma_nothing_to_create,
    lemma_second_pass_creates_nothing, made_from, outcome_views, planned, rejected, rejections,
};
use crate::source::{build_query, meetings_in, meetings_of, query_text, DirectoryReply};
use crate::text::{parse_u64, parsed_u64};
use vstd::prelude::*;

verus! {

/// The time from one tick to the next, in seconds.
pub const PERIOD_SECONDS: u64 = 900;

/// The seconds that lie between one possible delay of a first tick and the
/// next.
pub const JITTER_UNIT_SECONDS: u64 = 3;

/// How many delays a first tick can have: none, one unit, and so on.
pub const JITTER_STEPS: u64 = 255;

/// The bound that the delay before a first tick stays below, in seconds.
pub const MAX_JITTER_SECONDS: u64 = 765;

/// Whether a task has seen its first tick.
#[derive(Clone, Copy, Debug, PartialEq, Eq, Structural)]
pub enum Phase {
    /// Waiting for the first tick.
    Pending,
    /// Ticking; a task never leaves this phase.
    Active,
}

/// Where a pass stands.
enum Stage {
    Idle,
    Resolving { guild: u64, channel: u64 },
    Fetching { calendar: u64, channel: u64 },
    Listing { calendar: u64, channel: u64, meetings: Vec<Meeting> },
    Creating { calendar: u64, drafts: Vec<EventDraft>, done: usize },
}

/// Where a pass stands.
pub enum StageView {
    /// Between two passes: waiting for the next tick.
    Idle,
    /// Waiting for the calendar and the voice channel to be looked up.
    Resolving { guild: u64, channel: u64 },
    /// Waiting for the directory's reply.
    Fetching { calendar: u64, channel: u64 },
    /// Waiting for the calendar's list of events.
    Listing { calendar: u64, channel: u64, meetings: Seq<MeetingView> },
    /// Waiting for the event at `done` to be created; those before it are.
    Creating { calendar: u64, drafts: Seq<EventDraftView>, done: nat },
}

/// The task of one registration.
pub struct SyncTask {
    registration: Synchronizer,
    phase: Phase,
    next_due: u64,
    stage: Stage,
}

/// The view of a task.
pub struct TaskView {
    pub registration: SynchronizerView,
    pub phase: Phase,
    /// When the next tick is due, in seconds after the task's start.
    pub next_due: nat,
    pub stage: StageView,
}

/// What the task is told.
#[derive(Clone, Debug, PartialEq, Eq)]
pub enum Event {
    /// The time of the next tick has come.
    Tick,
    /// Both identifiers were found.
    Resolved { calendar: u64, channel: u64 },
    /// The calendar or the voice channel was not found.
    ResolutionFailed,
    /// The directory's reply, or what came in its place.
    Fetched(DirectoryReply),
    /// The events that the calendar holds.
    Listed(Vec<MirroredEvent>),
    /// The calendar's events could not be listed.
    ListingFailed,
    /// The event was created.
    Created,
    /// The event could not be created.
    CreationFailed,
}

/// The view of an event: a reply is taken as the meetings or the error that
/// it stands for.
pub enum EventView {
    Tick,
    Resolved { calendar: u64, channel: u64 },
    ResolutionFailed,
    Fetched(Result<Seq<MeetingView>, SyncError>),
    Listed(Seq<MirroredEventView>),
    ListingFailed,
    Created,
    CreationFailed,
}

/// What the task asks for.
#[derive(Clone, Debug, PartialEq, Eq)]
pub enum Action {
    /// Wait until `until` seconds after the task's start, then send `Tick`.
    Sleep { until: u64 },
    /// Look up the calendar `guild` and the voice channel `channel`.
    Resolve { guild: u64, channel: u64 },
    /// Put `query` to the directory.
    Fetch { query: String },
    /// List the events of `calendar`.
    List { calendar: u64 },
    /// Create the event `draft` in `calendar`.
    Create { calendar: u64, draft: EventDraft },
}

/// The view of an action.
pub enum ActionView {
    Sleep { until: nat },
    Resolve { guild: u64, channel: u64 },
    Fetch { query: Seq<char> },
    List { calendar: u64 },
    Create { calendar: u64, draft: EventDraftView },
}

impl Stage {
    spec fn view(&self) -> StageView {
        match *self {
            Stage::Idle => StageView::Idle,
            Stage::Resolving { guild, channel } => StageView::Resolving { guild, channel },
            Stage::Fetching { calendar, channel } => StageView::Fetching { calendar, channel },
            Stage::Listing { calendar, channel, meetings } => StageView::Listing {
                calendar,
                channel,
                meetings: meeting_views(meetings@),
            },
            Stage::Creating { calendar, drafts, done } => StageView::Creating {
                calendar,
                drafts: draft_views(drafts@),
                done: done as nat,
            },
        }
    }
}

impl View for SyncTask {
    type V = TaskView;

    closed spec fn view(&self) -> TaskView {
        TaskView {
            registration: self.registration@,
            phase: self.phase,
            next_due: self.next_due as nat,
            stage: self.stage.view(),
        }
    }
}

impl View for Event {
    type V = EventView;

    open spec fn view(&self) -> EventView {
        match *self {
            Event::Tick => EventView::Tick,
            Event::Resolved { calendar, channel } => EventView::Resolved { calendar, channel },
            Event::ResolutionFailed => EventView::ResolutionFailed,
            Event::Fetched(reply) => EventView::Fetched(
                match meetings_in(reply) {
                    Ok(meetings) => Ok(meeting_views(meetings)),
                    Err(error) => Err(error),
                },
            ),
            Event::Listed(events) => EventView::Listed(event_views(events@)),
            Event::ListingFailed => EventView::ListingFailed,
            Event::Created => EventView::Created,
            Event::CreationFailed => EventView::CreationFailed,
        }
    }
}

impl View for Action {
    type V = ActionView;

    open spec fn view(&self) -> ActionView {
        match *self {
            Action::Sleep { until } => ActionView::Sleep { until: until as nat },
            Action::Resolve { guild, channel } => ActionView::Resolve { guild, channel },
            Action::Fetch { query } => ActionView::Fetch { query: query@ },
            Action::List { calendar } => ActionView::List { calendar },
            Action::Create { calendar, draft } => ActionView::Create { calendar, draft: draft@ },
        }
    }
}

/// The delay before the first tick. Where the task is to wait, `draw` picks
/// one of the 255 delays of 0, 3, 6 and so on up to 762 seconds, the last draw
/// picking the first delay again; where it is not, there is none.
pub open spec fn jitter_of(initial_wait: bool, draw: u8) -> nat {
    if initial_wait {
        ((draw as nat % JITTER_STEPS as nat) * JITTER_UNIT_SECONDS) as nat
    } else {
        0
    }
}

/// A task is well formed when its registration asks for at least one event
/// and, while it creates events, one is still left to create.
pub open spec fn well_formed(task: TaskView) -> bool {
    &&& task.registration.number_of_events >= 1
    &&& task.stage matches StageView::Creating { drafts, done, .. } ==> done < drafts.len()
}

/// The task `task` with its pass over.
pub open spec fn at_rest(task: TaskView) -> TaskView {
    TaskView { stage: StageView::Idle, ..task }
}

/// The one action that a task waits for.
pub open spec fn awaiting(task: TaskView) -> ActionView {
    match task.stage {
        StageView::Idle => ActionView::Sleep { until: task.next_due },
        StageView::Resolving { guild, channel } => ActionView::Resolve { guild, channel },
        StageView::Fetching { .. } => ActionView::Fetch {
            query: query_text(
                task.registration.meetup_group,
                task.registration.number_of_events as nat,
            ),
        },
        StageView::Listing { calendar, .. } => ActionView::List { calendar },
        StageView::Creating { calendar, drafts, done } => ActionView::Create {
            calendar,
            draft: drafts[done as int],
        },
    }
}

/// The task after `event`, and the errors to report. An event that the task
/// does not wait for changes nothing.
///
/// A tick starts a pass and sets the time of the next tick one period after
/// the time of this one. Every failure ends the pass and leaves the task
/// waiting for the next tick.
pub open spec fn next(task: TaskView, event: EventView) -> (TaskView, Seq<SyncError>) {
    match (task.stage, event) {
        (StageView::Idle, EventView::Tick) => {
            let ticked = TaskView {
                phase: Phase::Active,
                next_due: task.next_due + PERIOD_SECONDS as nat,
                ..task
            };
            match (
                parsed_u64(task.registration.guild_id),
                parsed_u64(task.registration.voice_channel_id),
            ) {
                (Some(guild), Some(channel)) => (
                    TaskView { stage: StageView::Resolving { guild, channel }, ..ticked },
                    Seq::empty(),
                ),
                _ => (ticked, seq![SyncError::IdentifierResolutionFailure]),
            }
        },
        (StageView::Resolving { .. }, EventView::Resolved { calendar, channel }) => (
            TaskView { stage: StageView::Fetching { calendar, channel }, ..task },
            Seq::empty(),
        ),
        (StageView::Resolving { .. }, EventView::ResolutionFailed) => (
            at_rest(task),
            seq![SyncError::IdentifierResolutionFailure],
        ),
        (StageView::Fetching { calendar, channel }, EventView::Fetched(Ok(meetings))) => (
            TaskView { stage: StageView::Listing { calendar, channel, meetings }, ..task },
            Seq::empty(),
        ),
        (StageView::Fetching { .. }, EventView::Fetched(Err(error))) => (
            at_rest(task),
            seq![error],
        ),
        (StageView::Listing { calendar, channel, meetings }, EventView::Listed(existing)) => {
            let outcomes = planned(meetings, existing, channel);
            let drafts = creations(outcomes);
            if drafts.len() == 0 {
                (at_rest(task), rejections(outcomes))
            } else {
                (
                    TaskView { stage: StageView::Creating { calendar, drafts, done: 0 }, ..task },
                    rejections(outcomes),
                )
            }
        },
        (StageView::Listing { .. }, EventView::ListingFailed) => (
            at_rest(task),
            seq![SyncError::TargetUnavailable],
        ),
        (StageView::Creating { calendar, drafts, done }, EventView::Created) => {
            if done + 1 < drafts.len() {
                (
                    TaskView {
                        stage: StageView::Creating { calendar, drafts, done: done + 1 },
                        ..task
                    },
                    Seq::empty(),
                )
            } else {
                (at_rest(task), Seq::empty())
            }
        },
        (StageView::Creating { .. }, EventView::CreationFailed) => (
            at_rest(task),
            seq![SyncError::TargetUnavailable],
        ),
        _ => (task, Seq::empty()),
    }
}

/// Draws a byte with `rand::random`.
///
/// Nothing is claimed of the byte: every value may come.
#[verifier::external_body]
fn random_byte() -> (draw: u8) {
    rand::random::<u8>()
}

/// The delay before the first tick, in seconds: below 765 whatever the draw.
pub fn first_delay(initial_wait: bool, draw: u8) -> (delay: u64)
    ensures
        delay == jitter_of(initial_wait, draw),
        delay < MAX_JITTER_SECONDS,
        delay % JITTER_UNIT_SECONDS == 0,
{
    if initial_wait {
        ((draw as u64) % JITTER_STEPS) * JITTER_UNIT_SECONDS
    } else {
        0
    }
}

/// A list with one error.
fn one_error(error: SyncError) -> (errors: Vec<SyncError>)
    ensures
        errors@ == seq![error],
{
    let mut errors: Vec<SyncError> = Vec::new();
    errors.push(error);
    errors
}

impl SyncTask {
    #[verifier::type_invariant]
    spec fn keeps(self) -> bool {
        well_formed(self@)
    }

    /// A task that has not ticked yet. Its first tick is due after the delay
    /// that `draw` stands for, which is below 765 seconds.
    pub fn new(registration: Synchronizer, initial_wait: bool, draw: u8) -> (task: SyncTask)
        requires
            registration.number_of_events >= 1,
        ensures
            task@ == (TaskView {
                registration: registration@,
                phase: Phase::Pending,
                next_due: jitter_of(initial_wait, draw),
                stage: StageView::Idle,
            }),
            task@.next_due < MAX_JITTER_SECONDS,
    {
        SyncTask {
            registration,
            phase: Phase::Pending,
            next_due: first_delay(initial_wait, draw),
            stage: Stage::Idle,
        }
    }

    /// Whether the task has seen its first tick.
    pub fn phase(&self) -> (phase: Phase)
        ensures
            phase == self@.phase,
    {
        self.phase
    }

    /// When the next tick is due, in seconds after the task's start.
    pub fn next_due(&self) -> (due: u64)
        ensures
            due == self@.next_due,
    {
        self.next_due
    }

    /// The registration that the task works for.
    pub fn registration(&self) -> (registration: &Synchronizer)
        ensures
            registration@ == self@.registration,
    {
        &self.registration
    }

    /// Whether the task is between two passes.
    pub fn is_idle(&self) -> (idle: bool)
        ensures
            idle == (self@.stage is Idle),
    {
        match self.stage {
            Stage::Idle => true,
            _ => false,
        }
    }

    /// The action that the task waits for.
    pub fn action(&self) -> (action: Action)
        ensures
            well_formed(self@),
            action@ == awaiting(self@),
    {
        proof {
            use_type_invariant(self);
        }
        match &self.stage {
            Stage::Idle => Action::Sleep { until: self.next_due },
            Stage::Resolving { guild, channel } => Action::Resolve {
                guild: *guild,
                channel: *channel,
            },
            Stage::Fetching { .. } => Action::Fetch {
                query: build_query(
                    self.registration.meetup_group.as_str(),
                    self.registration.number_of_events as u64,
                ),
            },
            Stage::Listing { calendar, .. } => Action::List { calendar: *calendar },
            Stage::Creating { calendar, drafts, done } => Action::Create {
                calendar: *calendar,
                draft: copy_draft(&drafts[*done]),
            },
        }
    }

    /// Tells the task that `event` happened. Returns the task as it is after
    /// the event, and the errors to report.
    pub fn step(self, event: Event) -> (result: (SyncTask, Vec<SyncError>))
        requires
            self@.stage is Idle && event is Tick ==> self@.next_due + PERIOD_SECONDS <= u64::MAX,
        ensures
            well_formed(self@),
            result.0@ == next(self@, event@).0,
            result.1@ == next(self@, event@).1,
    {
        proof {
            use_type_invariant(&self);
        }
        let SyncTask { registration, phase, next_due, stage } = self;
        match (stage, event) {
            (Stage::Idle, Event::Tick) => {
                let due: u64 = next_due + PERIOD_SECONDS;
                let guild = parse_u64(registration.guild_id.as_str());
                let channel = parse_u64(registration.voice_channel_id.as_str());
                match (guild, channel) {
                    (Some(guild), Some(channel)) => (
                        SyncTask {
                            registration,
                            phase: Phase::Active,
                            next_due: due,
                            stage: Stage::Resolving { guild, channel },
                        },
                        Vec::new(),
                    ),
                    _ => (
                        SyncTask {
                            registration,
                            phase: Phase::Active,
                            next_due: due,
                            stage: Stage::Idle,
                        },
                        one_error(SyncError::IdentifierResolutionFailure),
                    ),
                }
            },
            (Stage::Resolving { .. }, Event::Resolved { calendar, channel }) => (
                SyncTask { registration, phase, next_due, stage: Stage::Fetching { calendar, channel } },
                Vec::new(),
            ),
            (Stage::Resolving { .. }, Event::ResolutionFailed) => (
                SyncTask { registration, phase, next_due, stage: Stage::Idle },
                one_error(SyncError::IdentifierResolutionFailure),
            ),
            (Stage::Fetching { calendar, channel }, Event::Fetched(reply)) => {
                match meetings_of(&reply) {
                    Ok(meetings) => (
                        SyncTask {
                            registration,
                            phase,
                            next_due,
                            stage: Stage::Listing { calendar, channel, meetings },
                        },
                        Vec::new(),
                    ),
                    Err(error) => (
                        SyncTask { registration, phase, next_due, stage: Stage::Idle },
                        one_error(error),
                    ),
                }
            },
            (Stage::Listing { calendar, channel, meetings }, Event::Listed(existing)) => {
                let outcomes = do_sync(&meetings, &existing, channel);
                let drafts = drafts_to_create(&outcomes);
                let errors = rejected(&outcomes);
                if drafts.len() == 0 {
                    (SyncTask { registration, phase, next_due, stage: Stage::Idle }, errors)
                } else {
                    (
                        SyncTask {
                            registration,
                            phase,
                            next_due,
                            stage: Stage::Creating { calendar, drafts, done: 0 },
                        },
                        errors,
                    )
                }
            },
            (Stage::Listing { .. }, Event::ListingFailed) => (
                SyncTask { registration, phase, next_due, stage: Stage::Idle },
                one_error(SyncError::TargetUnavailable),
            ),
            (Stage::Creating { calendar, drafts, done }, Event::Created) => {
                assert(draft_views(drafts@).len() == drafts.len());
                if done + 1 < drafts.len() {
                    (
                        SyncTask {
                            registration,
                            phase,
                            next_due,
                            stage: Stage::Creating { calendar, drafts, done: done + 1 },
                        },
                        Vec::new(),
                    )
                } else {
                    (SyncTask { registration, phase, next_due, stage: Stage::Idle }, Vec::new())
                }
            },
            (Stage::Creating { .. }, Event::CreationFailed) => (
                SyncTask { registration, phase, next_due, stage: Stage::Idle },
                one_error(SyncError::TargetUnavailable),
            ),
            (stage, _) => (SyncTask { registration, phase, next_due, stage }, Vec::new()),
        }
    }
}

/// Starts the task of one registration. Where `initial_wait` is set, the first
/// tick is delayed by a random multiple of three seconds below 765; where it is
/// not, the first tick is due at once.
pub fn start_syncing_of_one_meetup_group(s: Synchronizer, initial_wait: bool) -> (task: SyncTask)
    requires
        s.number_of_events >= 1,
    ensures
        task@.registration == s@,
        task@.phase == Phase::Pending,
        task@.stage == StageView::Idle,
        0 <= task@.next_due < MAX_JITTER_SECONDS,
        task@.next_due % (JITTER_UNIT_SECONDS as nat) == 0,
        !initial_wait ==> task@.next_due == 0,
        awaiting(task@) == (ActionView::Sleep { until: task@.next_due }),
{
    let draw: u8 = if initial_wait {
        random_byte()
    } else {
        0
    };
    SyncTask::new(s, initial_wait, draw)
}

/// Whatever is drawn, the first tick is due less than 765 seconds after the
/// task's start, at a multiple of three seconds; without initial wait it is due
/// at the start.
pub proof fn lemma_jitter_is_below_the_bound(initial_wait: bool, draw: u8)
    ensures
        0 <= jitter_of(initial_wait, draw) < MAX_JITTER_SECONDS,
        jitter_of(initial_wait, draw) % (JITTER_UNIT_SECONDS as nat) == 0,
        !initial_wait ==> jitter_of(initial_wait, draw) == 0,
{
}

/// `event` reports a failure of the action that `task` waits for.
pub open spec fn fails(task: TaskView, event: EventView) -> bool {
    ||| task.stage is Resolving && event is ResolutionFailed
    ||| task.stage is Fetching && event matches EventView::Fetched(Err(_))
    ||| task.stage is Listing && event is ListingFailed
    ||| task.stage is Creating && event is CreationFailed
}

/// A failure ends the pass and nothing else: one error is reported, and the
/// task waits for its next tick at the time that was set before.
pub proof fn lemma_failure_ends_the_pass_only(task: TaskView, event: EventView)
    requires
        fails(task, event),
    ensures
        next(task, event).0 == at_rest(task),
        next(task, event).1.len() == 1,
        awaiting(next(task, event).0) == (ActionView::Sleep { until: task.next_due }),
{
}

/// A tick that comes between two passes sets the next tick exactly one period
/// later, whatever the pass it starts will take; no other event moves the time
/// of the next tick. So the ticks of a task lie one period apart, counted from
/// the first.
pub proof fn lemma_ticks_are_one_period_apart(task: TaskView, event: EventView)
    ensures
        task.stage is Idle && event is Tick ==> next(task, event).0.next_due == task.next_due
            + PERIOD_SECONDS,
        !(task.stage is Idle && event is Tick) ==> next(task, event).0.next_due == task.next_due,
{
}

/// A pass does not begin while another is under way: a tick that comes during
/// a pass changes nothing and reports nothing.
pub proof fn lemma_passes_do_not_overlap(task: TaskView)
    requires
        !(task.stage is Idle),
    ensures
        next(task, EventView::Tick) == (task, Seq::<SyncError>::empty()),
{
}

/// A task never ends and never changes its registration: after its first tick
/// it is active, and stays so whatever happens.
pub proof fn lemma_task_runs_on(task: TaskView, event: EventView)
    ensures
        next(task, event).0.registration == task.registration,
        task.phase is Active ==> next(task, event).0.phase is Active,
        task.stage is Idle && event is Tick ==> next(task, event).0.phase is Active,
        next(task, event).0.phase is Pending ==> next(task, event).0.next_due == task.next_due,
{
}

/// Every step leaves a well-formed task well formed.
pub proof fn lemma_step_keeps_well_formed(task: TaskView, event: EventView)
    requires
        well_formed(task),
    ensures
        well_formed(next(task, event).0),
{
}

/// A pass creates the drafts of its plan one after the other, in the order of
/// the meetings: while it creates, it asks for the draft after those that are
/// done, and `Created` moves it on by one.
pub proof fn lemma_creation_follows_the_plan(task: TaskView)
    requires
        well_formed(task),
        task.stage is Creating,
    ensures
        awaiting(task) == (ActionView::Create {
            calendar: task.stage->Creating_calendar,
            draft: task.stage->Creating_drafts[task.stage->Creating_done as int],
        }),
        task.stage->Creating_done + 1 < task.stage->Creating_drafts.len() ==> next(
            task,
            EventView::Created,
        ).0.stage == (StageView::Creating {
            calendar: task.stage->Creating_calendar,
            drafts: task.stage->Creating_drafts,
            done: task.stage->Creating_done + 1,
        }),
        task.stage->Creating_done + 1 == task.stage->Creating_drafts.len() ==> next(
            task,
            EventView::Created,
        ).0.stage is Idle,
{
}

/// A pass whose fetch brought no meetings creates nothing and reports nothing.
pub proof fn lemma_nothing_fetched_nothing_created(
    task: TaskView,
    existing: Seq<MirroredEventView>,
)
    requires
        task.stage matches StageView::Listing { meetings, .. } && meetings.len() == 0,
    ensures
        next(task, EventView::Listed(existing)) == (at_rest(task), Seq::<SyncError>::empty()),
{
    let outcomes = planned(task.stage->Listing_meetings, existing, task.stage->Listing_channel);
    assert(outcomes.len() == 0);
}

/// The task after a run of events, taken one after the other.
pub open spec fn after(task: TaskView, events: Seq<EventView>) -> TaskView
    decreases events.len(),
{
    if events.len() == 0 {
        task
    } else {
        next(after(task, events.drop_last()), events.last()).0
    }
}

/// How many passes a run of events starts: its ticks that come between two
/// passes.
pub open spec fn passes_started(task: TaskView, events: Seq<EventView>) -> nat
    decreases events.len(),
{
    if events.len() == 0 {
        0
    } else {
        let before = after(task, events.drop_last());
        let started: nat = if before.stage is Idle && events.last() is Tick {
            1
        } else {
            0
        };
        passes_started(task, events.drop_last()) + started
    }
}

/// The ticks of a task are anchored to the first: whatever happens, and however
/// long the passes take, the next tick is due one period after the last for
/// each pass that was started. The registration stays the same, the task stays
/// well formed, and it is active exactly when it has seen a tick.
pub proof fn lemma_ticks_are_anchored(task: TaskView, events: Seq<EventView>)
    ensures
        after(task, events).next_due == task.next_due + PERIOD_SECONDS * passes_started(
            task,
            events,
        ),
        after(task, events).registration == task.registration,
        well_formed(task) ==> well_formed(after(task, events)),
        after(task, events).phase is Active <==> task.phase is Active || passes_started(
            task,
            events,
        ) > 0,
    decreases events.len(),
{
    if events.len() > 0 {
        lemma_ticks_are_anchored(task, events.drop_last());
    }
}

/// A pass that follows a pass over the same meetings asks for no creation, when
/// the calendar's list read for it still holds every event that the first pass
/// saw and holds the event of every draft that the first pass asked to create.
pub proof fn lemma_second_pass_asks_for_no_creation(
    task: TaskView,
    before: Seq<MirroredEventView>,
    now: Seq<MirroredEventView>,
)
    requires
        task.stage is Listing,
        forall|i: int| 0 <= i < before.len() ==> now.contains(#[trigger] before[i]),
        forall|k: int|
            0 <= k < task.stage->Listing_meetings.len() && (#[trigger] planned(
                task.stage->Listing_meetings,
                before,
                task.stage->Listing_channel,
            )[k]) is Create ==> exists|j: int|
                0 <= j < now.len() && made_from(
                    #[trigger] now[j],
                    planned(
                        task.stage->Listing_meetings,
                        before,
                        task.stage->Listing_channel,
                    )[k]->Create_0,
                ),
    ensures
        next(task, EventView::Listed(now)).0 == at_rest(task),
        awaiting(next(task, EventView::Listed(now)).0) == (ActionView::Sleep {
            until: task.next_due,
        }),
{
    let meetings = task.stage->Listing_meetings;
    let channel = task.stage->Listing_channel;
    lemma_second_pass_creates_nothing(meetings, before, now, channel);
    lemma_nothing_to_create(planned(meetings, now, channel));
}

} // verus!
