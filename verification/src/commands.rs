//! What the commands of the chat front end decide.

use crate::model::{Synchronizer, SynchronizerView};
use crate::schedule::{Event, Phase, StageView, SyncTask, TaskView, PERIOD_SECONDS};
use crate::text::{decimal, decimal_string, lemma_decimal_round_trip, parsed_u64};
use vstd::prelude::*;
use vstd::string::*;

verus! {

/// How many upcoming events a registration made by command asks for.
pub const DEFAULT_NUMBER_OF_EVENTS: i64 = 2;

/// The registration that binds the group `meetup_name` to the calendar
/// `guild_id` and the voice channel `channel_id`. Identifiers are kept in
/// decimal.
pub open spec fn registration_of(
    guild_id: u64,
    guild_name: Seq<char>,
    meetup_name: Seq<char>,
    channel_id: u64,
) -> SynchronizerView {
    SynchronizerView {
        guild_id: decimal(guild_id as nat),
        server_name: Some(guild_name),
        meetup_group: meetup_name,
        number_of_events: DEFAULT_NUMBER_OF_EVENTS as int,
        voice_channel_id: decimal(channel_id as nat),
    }
}

/// A registration written by `register` names the identifiers it was made from:
/// a task reads them back unchanged.
pub proof fn lemma_registration_keeps_identifiers(
    guild_id: u64,
    guild_name: Seq<char>,
    meetup_name: Seq<char>,
    channel_id: u64,
)
    ensures
        parsed_u64(registration_of(guild_id, guild_name, meetup_name, channel_id).guild_id) == Some(
            guild_id,
        ),
        parsed_u64(registration_of(guild_id, guild_name, meetup_name, channel_id).voice_channel_id)
            == Some(channel_id),
{
    lemma_decimal_round_trip(guild_id);
    lemma_decimal_round_trip(channel_id);
}

/// Makes the registration for a group and starts its task. The registration is
/// what is to be stored; the task's first tick is due at once.
pub fn register(guild_id: u64, guild_name: &str, meetup_name: &str, channel_id: u64) -> (made: (
    Synchronizer,
    SyncTask,
))
    ensures
        made.0@ == registration_of(guild_id, guild_name@, meetup_name@, channel_id),
        made.1@ == (TaskView {
            registration: made.0@,
            phase: Phase::Pending,
            next_due: 0,
            stage: StageView::Idle,
        }),
{
    let stored = Synchronizer {
        guild_id: decimal_string(guild_id),
        server_name: Some(String::from_str(guild_name)),
        meetup_group: String::from_str(meetup_name),
        number_of_events: DEFAULT_NUMBER_OF_EVENTS,
        voice_channel_id: decimal_string(channel_id),
    };
    let started = Synchronizer {
        guild_id: stored.guild_id.clone(),
        server_name: Some(String::from_str(guild_name)),
        meetup_group: stored.meetup_group.clone(),
        number_of_events: DEFAULT_NUMBER_OF_EVENTS,
        voice_channel_id: stored.voice_channel_id.clone(),
    };
    let task = SyncTask::new(started, false, 0);
    (stored, task)
}

/// The name under which a pass made on demand runs. It is shown nowhere.
pub const UNNAMED_SERVER: &'static str = "ignored";

/// Starts one pass at once for the group `meetup_group_name`, the calendar
/// `guild_id` and the voice channel `voice_channel_id`. The identifiers are
/// taken as they are, without looking them up: the task that comes back waits
/// for the directory's reply.
pub fn sync(guild_id: u64, meetup_group_name: &str, voice_channel_id: u64) -> (task: SyncTask)
    ensures
        task@ == (TaskView {
            registration: registration_of(
                guild_id,
                UNNAMED_SERVER@,
                meetup_group_name@,
                voice_channel_id,
            ),
            phase: Phase::Active,
            next_due: PERIOD_SECONDS as nat,
            stage: StageView::Fetching { calendar: guild_id, channel: voice_channel_id },
        }),
{
    let (_, task) = register(guild_id, UNNAMED_SERVER, meetup_group_name, voice_channel_id);
    proof {
        lemma_registration_keeps_identifiers(
            guild_id,
            UNNAMED_SERVER@,
            meetup_group_name@,
            voice_channel_id,
        );
    }
    let (task, _) = task.step(Event::Tick);
    let (task, _) = task.step(Event::Resolved { calendar: guild_id, channel: voice_channel_id });
    task
}

} // verus!
