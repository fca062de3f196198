use meetup_sync::commands::{register, sync, DEFAULT_NUMBER_OF_EVENTS};
use meetup_sync::model::{SyncError, Synchronizer};
use meetup_sync::schedule::{Action, Event, Phase};
use meetup_sync::source::{build_query, DirectoryReply};

#[test]
fn register_writes_the_registration() {
    let (stored, _) = register(175928847299117063, "Rustaceans", "rust-community-stuttgart", 42);
    assert_eq!(
        stored,
        Synchronizer {
            guild_id: "175928847299117063".to_string(),
            server_name: Some("Rustaceans".to_string()),
            meetup_group: "rust-community-stuttgart".to_string(),
            number_of_events: 2,
            voice_channel_id: "42".to_string(),
        }
    );
    assert_eq!(DEFAULT_NUMBER_OF_EVENTS, 2);
}

#[test]
fn register_starts_the_task_at_once() {
    let (stored, task) = register(1, "g", "m", 2);
    assert_eq!(task.registration(), &stored);
    assert_eq!(task.phase(), Phase::Pending);
    assert_eq!(task.next_due(), 0);
    assert_eq!(task.action(), Action::Sleep { until: 0 });
}

#[test]
fn registered_identifiers_are_read_back() {
    let (_, task) = register(u64::MAX, "g", "m", 0);
    let (task, reports) = task.step(Event::Tick);
    assert!(reports.is_empty());
    assert_eq!(task.action(), Action::Resolve { guild: u64::MAX, channel: 0 });
}

#[test]
fn every_error_has_a_message() {
    let errors = [
        SyncError::SourceUnavailable,
        SyncError::SourceSchemaMismatch,
        SyncError::GroupNotFound,
        SyncError::TargetUnavailable,
        SyncError::IdentifierResolutionFailure,
        SyncError::TimestampParseFailure,
    ];
    let mut seen: Vec<String> = Vec::new();
    for error in errors {
        let message = error.message();
        assert!(!message.is_empty());
        assert!(!seen.contains(&message));
        seen.push(message);
    }
    assert_eq!(
        SyncError::TimestampParseFailure.message(),
        "the start time of the meeting is no timestamp"
    );
}

#[test]
fn sync_starts_a_pass_at_the_fetch() {
    let task = sync(1001, "rust-community-stuttgart", 2002);
    assert!(!task.is_idle());
    assert_eq!(task.phase(), Phase::Active);
    assert_eq!(
        task.action(),
        Action::Fetch { query: build_query("rust-community-stuttgart", 2) }
    );
    assert_eq!(
        task.registration(),
        &Synchronizer {
            guild_id: "1001".to_string(),
            server_name: Some("ignored".to_string()),
            meetup_group: "rust-community-stuttgart".to_string(),
            number_of_events: 2,
            voice_channel_id: "2002".to_string(),
        }
    );
}

#[test]
fn sync_uses_the_identifiers_as_given() {
    let task = sync(u64::MAX, "g", 5);
    let (task, _) = task.step(Event::Fetched(DirectoryReply::Failed { message: "down".to_string() }));
    assert!(task.is_idle());
    let task = sync(7, "g", 5);
    let reply = DirectoryReply::Answered(Some(meetup_sync::source::Data {
        community: Some(meetup_sync::source::Community {
            name: "n".to_string(),
            city: "c".to_string(),
            upcoming_events: meetup_sync::source::UpcomingEvents { count: 0, meetings: Vec::new() },
        }),
    }));
    let (task, reports) = task.step(Event::Fetched(reply));
    assert!(reports.is_empty());
    assert_eq!(task.action(), Action::List { calendar: 7 });
}
