//! The records that the synchronisation works on, each with its view: the same
//! record with every string taken as its sequence of characters.

use vstd::prelude::*;
use vstd::string::*;

verus! {

/// What can go wrong in a pass.
#[derive(Clone, Copy, Debug, PartialEq, Eq, Structural)]
pub enum SyncError {
    /// The directory could not be reached, or refused the request.
    SourceUnavailable,
    /// The directory answered with something that is not the expected shape.
    SourceSchemaMismatch,
    /// The directory knows no group of the given name.
    GroupNotFound,
    /// Listing or creating events on the calendar failed.
    TargetUnavailable,
    /// A calendar or channel identifier is no identifier, or resolves to nothing.
    IdentifierResolutionFailure,
    /// A meeting's start time cannot be read as a timestamp.
    TimestampParseFailure,
}

/// The characters of the message that `error` is reported with.
pub open spec fn error_text(error: SyncError) -> Seq<char> {
    match error {
        SyncError::SourceUnavailable => "the event directory could not be reached"@,
        SyncError::SourceSchemaMismatch => "the event directory sent an answer of unknown shape"@,
        SyncError::GroupNotFound => "the event directory knows no group of this name"@,
        SyncError::TargetUnavailable => "the calendar could not be read or written"@,
        SyncError::IdentifierResolutionFailure => "the calendar or the voice channel was not found"@,
        SyncError::TimestampParseFailure => "the start time of the meeting is no timestamp"@,
    }
}

impl SyncError {
    /// The message that the error is reported with.
    pub fn message(&self) -> (text: String)
        ensures
            text@ == error_text(*self),
    {
        match self {
            SyncError::SourceUnavailable => String::from_str(
                "the event directory could not be reached",
            ),
            SyncError::SourceSchemaMismatch => String::from_str(
                "the event directory sent an answer of unknown shape",
            ),
            SyncError::GroupNotFound => String::from_str(
                "the event directory knows no group of this name",
            ),
            SyncError::TargetUnavailable => String::from_str(
                "the calendar could not be read or written",
            ),
            SyncError::IdentifierResolutionFailure => String::from_str(
                "the calendar or the voice channel was not found",
            ),
            SyncError::TimestampParseFailure => String::from_str(
                "the start time of the meeting is no timestamp",
            ),
        }
    }
}

/// Whether a mirrored event takes place in a voice channel or elsewhere.
#[derive(Clone, Copy, Debug, PartialEq, Eq, Structural)]
pub enum EventKind {
    Voice,
    External,
}

/// One registration: a group of the directory bound to a calendar and a voice
/// channel.
#[derive(Clone, Debug, PartialEq, Eq)]
pub struct Synchronizer {
    /// The calendar's identifier, in decimal.
    pub guild_id: String,
    pub server_name: Option<String>,
    pub meetup_group: String,
    /// How many upcoming events a pass asks for.
    pub number_of_events: i64,
    /// The voice channel's identifier, in decimal.
    pub voice_channel_id: String,
}

/// The view of a registration.
pub struct SynchronizerView {
    pub guild_id: Seq<char>,
    pub server_name: Option<Seq<char>>,
    pub meetup_group: Seq<char>,
    pub number_of_events: int,
    pub voice_channel_id: Seq<char>,
}

/// One upcoming event as the directory reports it.
#[derive(Clone, Debug, PartialEq, Eq)]
pub struct Meeting {
    pub title: String,
    /// The event's page; the key by which a mirrored event is recognised.
    pub event_url: String,
    pub description: String,
    pub status: String,
    /// The start, in the directory's notation: no seconds before the offset.
    pub date_time: String,
    pub duration: String,
    pub id: String,
    pub is_online: bool,
}

/// The view of a meeting.
pub struct MeetingView {
    pub title: Seq<char>,
    pub event_url: Seq<char>,
    pub description: Seq<char>,
    pub status: Seq<char>,
    pub date_time: Seq<char>,
    pub duration: Seq<char>,
    pub id: Seq<char>,
    pub is_online: bool,
}

/// A scheduled event that the calendar already holds.
#[derive(Clone, Debug, PartialEq, Eq)]
pub struct MirroredEvent {
    pub id: u64,
    pub name: String,
    pub description: Option<String>,
}

/// The view of a mirrored event.
pub struct MirroredEventView {
    pub id: u64,
    pub name: Seq<char>,
    pub description: Option<Seq<char>>,
}

/// A scheduled event that is to be created. Times are seconds since the Unix
/// epoch.
#[derive(Clone, Debug, PartialEq, Eq)]
pub struct EventDraft {
    pub name: String,
    pub description: String,
    pub start: i64,
    pub end: i64,
    pub kind: EventKind,
    pub channel_id: Option<u64>,
    pub location: Option<String>,
}

/// The view of a draft.
pub struct EventDraftView {
    pub name: Seq<char>,
    pub description: Seq<char>,
    pub start: int,
    pub end: int,
    pub kind: EventKind,
    pub channel_id: Option<u64>,
    pub location: Option<Seq<char>>,
}

/// The characters of an optional string.
pub open spec fn opt_chars(s: Option<String>) -> Option<Seq<char>> {
    match s {
        Some(text) => Some(text@),
        None => None,
    }
}

impl View for Synchronizer {
    type V = SynchronizerView;

    open spec fn view(&self) -> SynchronizerView {
        SynchronizerView {
            guild_id: self.guild_id@,
            server_name: opt_chars(self.server_name),
            meetup_group: self.meetup_group@,
            number_of_events: self.number_of_events as int,
            voice_channel_id: self.voice_channel_id@,
        }
    }
}

impl View for Meeting {
    type V = MeetingView;

    open spec fn view(&self) -> MeetingView {
        MeetingView {
            title: self.title@,
            event_url: self.event_url@,
            description: self.description@,
            status: self.status@,
            date_time: self.date_time@,
            duration: self.duration@,
            id: self.id@,
            is_online: self.is_online,
        }
    }
}

impl View for MirroredEvent {
    type V = MirroredEventView;

    open spec fn view(&self) -> MirroredEventView {
        MirroredEventView {
            id: self.id,
            name: self.name@,
            description: opt_chars(self.description),
        }
    }
}

impl View for EventDraft {
    type V = EventDraftView;

    open spec fn view(&self) -> EventDraftView {
        EventDraftView {
            name: self.name@,
            description: self.description@,
            start: self.start as int,
            end: self.end as int,
            kind: self.kind,
            channel_id: self.channel_id,
            location: opt_chars(self.location),
        }
    }
}

/// The views of a list of meetings, in order.
pub open spec fn meeting_views(meetings: Seq<Meeting>) -> Seq<MeetingView> {
    meetings.map_values(|m: Meeting| m@)
}

/// The views of a list of mirrored events, in order.
pub open spec fn event_views(events: Seq<MirroredEvent>) -> Seq<MirroredEventView> {
    events.map_values(|e: MirroredEvent| e@)
}

} // verus!
