use meetup_sync::model::{EventDraft, EventKind, Meeting, MirroredEvent, SyncError};
use meetup_sync::reconcile::{
    copy_draft, create_event, describe, do_sync, draft_event, drafts_to_create,
    has_hours_only_offset, is_already_mirrored, normalize_start, rejected, Outcome,
};

const URL_A: &str = "https://www.meetup.com/rust-community-stuttgart/events/1/";
const URL_B: &str = "https://www.meetup.com/rust-community-stuttgart/events/2/";

fn meeting(url: &str, date_time: &str, is_online: bool) -> Meeting {
    Meeting {
        title: "Rust Meetup".to_string(),
        event_url: url.to_string(),
        description: "Talks and pizza".to_string(),
        status: "published".to_string(),
        date_time: date_time.to_string(),
        duration: "PT2H".to_string(),
        id: "42".to_string(),
        is_online,
    }
}

fn event(id: u64, description: Option<&str>) -> MirroredEvent {
    MirroredEvent {
        id,
        name: "some event".to_string(),
        description: description.map(|d| d.to_string()),
    }
}

fn created_from(id: u64, draft: &EventDraft) -> MirroredEvent {
    MirroredEvent { id, name: draft.name.clone(), description: Some(draft.description.clone()) }
}

#[test]
fn normalization_puts_seconds_before_the_offset() {
    assert_eq!(normalize_start("2024-06-01T18:00+02:00"), "2024-06-01T18:00:00+02:00");
    assert_eq!(normalize_start("2022-11-17T18:30+01:00"), "2022-11-17T18:30:00+01:00");
    assert_eq!(normalize_start("2024-06-01T18:00+05:30"), "2024-06-01T18:00:00+05:30");
}

#[test]
fn normalization_completes_an_offset_of_hours() {
    assert_eq!(normalize_start("2024-06-01T18:00+02"), "2024-06-01T18:00:00+02:00");
    assert_eq!(normalize_start("+02"), ":00+02:00");
    assert_eq!(normalize_start("x+1"), "x:00+1");
    assert_eq!(normalize_start("x+123"), "x:00+123");
    assert_eq!(normalize_start("x+0a"), "x:00+0a");
    assert_eq!(normalize_start("x-02"), "x-02");
    assert_eq!(normalize_start("+0\u{663}"), ":00+0\u{663}");
}

#[test]
fn hours_only_offset_is_a_plus_and_two_digits_at_the_end() {
    assert!(has_hours_only_offset("2024-06-01T18:00+02"));
    assert!(has_hours_only_offset("+00"));
    assert!(!has_hours_only_offset("2024-06-01T18:00+02:00"));
    assert!(!has_hours_only_offset("2024-06-01T18:00-02"));
    assert!(!has_hours_only_offset("+2"));
    assert!(!has_hours_only_offset("02"));
    assert!(!has_hours_only_offset(""));
    assert!(!has_hours_only_offset("+02 "));
}

#[test]
fn normalization_touches_nothing_but_plus_signs() {
    assert_eq!(normalize_start("2024-06-01T18:00-05:00"), "2024-06-01T18:00-05:00");
    assert_eq!(normalize_start("2024-06-01T18:00:00Z"), "2024-06-01T18:00:00Z");
    assert_eq!(normalize_start(""), "");
    assert_eq!(normalize_start("++"), ":00+:00+");
}

#[test]
fn start_is_parsed_and_end_is_two_hours_later() {
    let draft = create_event(&meeting(URL_A, "2024-06-01T18:00+02:00", true), 7)
        .expect("a timestamp");
    // 2024-06-01T18:00:00+02:00 is 2024-06-01T16:00:00Z
    assert_eq!(draft.start, 1717257600);
    assert_eq!(draft.end, 1717257600 + 2 * 3600);
    assert_eq!(draft.end - draft.start, 7200);
}

#[test]
fn start_in_utc_and_in_winter() {
    let draft = create_event(&meeting(URL_A, "2023-01-15T19:30+01:00", false), 7)
        .expect("a timestamp");
    assert_eq!(draft.start, 1673807400);
    assert_eq!(draft.end, 1673814600);
    let utc = create_event(&meeting(URL_A, "1970-01-01T00:00+00:00", false), 7)
        .expect("a timestamp");
    assert_eq!(utc.start, 0);
    assert_eq!(utc.end, 7200);
}

#[test]
fn start_with_an_offset_of_hours_is_parsed() {
    let draft = create_event(&meeting(URL_A, "2024-06-01T18:00+02", true), 7)
        .expect("a timestamp");
    // the same instant as 2024-06-01T18:00:00+02:00
    assert_eq!(draft.start, 1717257600);
    assert_eq!(draft.end, 1717257600 + 2 * 3600);
    let long_form = create_event(&meeting(URL_A, "2024-06-01T18:00+02:00", true), 7).unwrap();
    assert_eq!(draft, long_form);
}

#[test]
fn malformed_start_is_rejected() {
    for text in ["", "tomorrow", "2024-06-01T18:00", "2024-06-01T18:00-05:00", "2024-13-01T18:00+02:00"] {
        assert_eq!(
            create_event(&meeting(URL_A, text, true), 7),
            Err(SyncError::TimestampParseFailure),
            "{:?}",
            text
        );
    }
}

#[test]
fn start_with_seconds_already_is_rejected() {
    // the seconds are put in a second time, which no timestamp has
    assert_eq!(
        create_event(&meeting(URL_A, "2024-06-01T18:00:00+02:00", true), 7),
        Err(SyncError::TimestampParseFailure)
    );
}

#[test]
fn start_without_plus_is_read_as_it_stands() {
    let draft = create_event(&meeting(URL_A, "2024-06-01T16:00:00Z", true), 7).expect("a timestamp");
    assert_eq!(draft.start, 1717257600);
    let west = create_event(&meeting(URL_A, "2024-06-01T11:00:00-05:00", true), 7)
        .expect("a timestamp");
    assert_eq!(west.start, 1717257600);
}

#[test]
fn online_meeting_becomes_voice_event() {
    let draft = create_event(&meeting(URL_A, "2024-06-01T18:00+02:00", true), 7).unwrap();
    assert_eq!(draft.kind, EventKind::Voice);
    assert_eq!(draft.channel_id, Some(7));
    assert_eq!(draft.location, None);
}

#[test]
fn meeting_in_person_becomes_external_event() {
    let draft = create_event(&meeting(URL_A, "2024-06-01T18:00+02:00", false), 7).unwrap();
    assert_eq!(draft.kind, EventKind::External);
    assert_eq!(draft.channel_id, None);
    assert_eq!(draft.location, Some(URL_A.to_string()));
}

#[test]
fn name_is_the_title() {
    let mut m = meeting(URL_A, "2024-06-01T18:00+02:00", false);
    m.title = "  Rust & Friends \u{1f980} ".to_string();
    let draft = create_event(&m, 7).unwrap();
    assert_eq!(draft.name, "  Rust & Friends \u{1f980} ");
}

#[test]
fn whole_draft_of_a_meeting() {
    let draft = create_event(&meeting(URL_B, "2024-06-01T18:00+02:00", false), 7).unwrap();
    assert_eq!(
        draft,
        EventDraft {
            name: "Rust Meetup".to_string(),
            description: format!("Talks and pizza\u{2026}\n(source: {})", URL_B),
            start: 1717257600,
            end: 1717264800,
            kind: EventKind::External,
            channel_id: None,
            location: Some(URL_B.to_string()),
        }
    );
}

#[test]
fn long_description_is_cut_to_300_characters() {
    let long = "a".repeat(1000);
    let text = describe(&long, URL_A);
    let expected = format!("{}\u{2026}\n(source: {})", "a".repeat(300), URL_A);
    assert_eq!(text, expected);
    assert_eq!(text.chars().count(), 300 + 1 + "\n(source: ".len() + URL_A.len() + 1);
}

#[test]
fn description_is_cut_by_characters_not_bytes() {
    let long = "\u{e4}".repeat(301);
    let text = describe(&long, URL_A);
    assert_eq!(text, format!("{}\u{2026}\n(source: {})", "\u{e4}".repeat(300), URL_A));
}

#[test]
fn short_description_is_kept_and_still_marked() {
    assert_eq!(describe("hi", URL_A), format!("hi\u{2026}\n(source: {})", URL_A));
    assert_eq!(describe("", URL_A), format!("\u{2026}\n(source: {})", URL_A));
    let exact = "b".repeat(300);
    assert_eq!(describe(&exact, URL_A), format!("{}\u{2026}\n(source: {})", exact, URL_A));
}

#[test]
fn description_agrees_with_precision_formatting() {
    for n in [0usize, 1, 299, 300, 301, 1000] {
        let text = "x\u{f6}".repeat(n);
        assert_eq!(describe(&text, URL_B), format!("{:.300}\u{2026}\n(source: {})", text, URL_B));
    }
}

#[test]
fn draft_event_needs_a_start() {
    let m = meeting(URL_A, "ignored", true);
    assert_eq!(draft_event(&m, 7, None, true), Err(SyncError::TimestampParseFailure));
    assert_eq!(draft_event(&m, 7, None, false), Err(SyncError::TimestampParseFailure));
}

#[test]
fn draft_event_needs_an_end() {
    let m = meeting(URL_A, "ignored", true);
    assert_eq!(draft_event(&m, 7, Some(100), false), Err(SyncError::TimestampParseFailure));
    assert_eq!(draft_event(&m, 7, Some(i64::MAX), true), Err(SyncError::TimestampParseFailure));
    assert_eq!(
        draft_event(&m, 7, Some(i64::MAX - 7199), true),
        Err(SyncError::TimestampParseFailure)
    );
}

#[test]
fn draft_event_adds_two_hours() {
    let m = meeting(URL_A, "ignored", true);
    let draft = draft_event(&m, 7, Some(100), true).unwrap();
    assert_eq!((draft.start, draft.end), (100, 7300));
    let early = draft_event(&m, 7, Some(-10_000), true).unwrap();
    assert_eq!((early.start, early.end), (-10_000, -2_800));
    let last = draft_event(&m, 7, Some(i64::MAX - 7200), true).unwrap();
    assert_eq!((last.start, last.end), (i64::MAX - 7200, i64::MAX));
}

#[test]
fn mirrored_when_some_description_holds_the_address() {
    let existing = vec![
        event(1, None),
        event(2, Some("something else")),
        event(3, Some(&format!("Talks\u{2026}\n(source: {})", URL_A))),
    ];
    assert!(is_already_mirrored(&existing, URL_A));
    assert!(!is_already_mirrored(&existing, URL_B));
    assert!(!is_already_mirrored(&Vec::new(), URL_A));
}

#[test]
fn address_anywhere_in_the_description_counts() {
    let existing = vec![event(1, Some(&format!("moved, see {} for the new place", URL_B)))];
    assert!(is_already_mirrored(&existing, URL_B));
}

#[test]
fn mirrored_meeting_is_not_created() {
    let meetings = vec![meeting(URL_A, "2024-06-01T18:00+02:00", true)];
    let existing = vec![event(1, Some(&format!("x\u{2026}\n(source: {})", URL_A)))];
    let outcomes = do_sync(&meetings, &existing, 7);
    assert_eq!(outcomes, vec![Outcome::AlreadyMirrored]);
    assert!(drafts_to_create(&outcomes).is_empty());
}

#[test]
fn mirrored_meeting_with_unreadable_start_is_left_alone() {
    let meetings = vec![meeting(URL_A, "garbage", true)];
    let existing = vec![event(1, Some(URL_A))];
    let outcomes = do_sync(&meetings, &existing, 7);
    assert_eq!(outcomes, vec![Outcome::AlreadyMirrored]);
    assert!(rejected(&outcomes).is_empty());
}

#[test]
fn one_of_two_is_new() {
    let meetings = vec![
        meeting(URL_A, "2024-06-01T18:00+02:00", true),
        meeting(URL_B, "2024-07-01T18:00+02:00", false),
    ];
    let existing = vec![event(1, Some(&format!("Old text\u{2026}\n(source: {})", URL_A)))];
    let outcomes = do_sync(&meetings, &existing, 7);
    let drafts = drafts_to_create(&outcomes);
    assert_eq!(drafts.len(), 1);
    assert_eq!(drafts[0].location, Some(URL_B.to_string()));
    assert_eq!(drafts[0], create_event(&meetings[1], 7).unwrap());
    assert_eq!(outcomes[0], Outcome::AlreadyMirrored);
    assert!(rejected(&outcomes).is_empty());
}

#[test]
fn nothing_fetched_nothing_created() {
    let existing = vec![event(1, Some("anything"))];
    let outcomes = do_sync(&Vec::new(), &existing, 7);
    assert!(outcomes.is_empty());
    assert!(drafts_to_create(&outcomes).is_empty());
    assert!(rejected(&outcomes).is_empty());
}

#[test]
fn second_pass_creates_nothing() {
    let meetings = vec![
        meeting(URL_A, "2024-06-01T18:00+02:00", true),
        meeting(URL_B, "2024-07-01T18:00+02:00", false),
    ];
    let mut existing = vec![event(1, Some("unrelated"))];
    let first = drafts_to_create(&do_sync(&meetings, &existing, 7));
    assert_eq!(first.len(), 2);
    for (i, draft) in first.iter().enumerate() {
        existing.push(created_from(100 + i as u64, draft));
    }
    let second = do_sync(&meetings, &existing, 7);
    assert_eq!(second, vec![Outcome::AlreadyMirrored, Outcome::AlreadyMirrored]);
    assert!(drafts_to_create(&second).is_empty());
}

#[test]
fn second_pass_after_a_long_description_creates_nothing() {
    let mut m = meeting(URL_A, "2024-06-01T18:00+02:00", true);
    m.description = "z".repeat(1000);
    let meetings = vec![m];
    let first = drafts_to_create(&do_sync(&meetings, &Vec::new(), 7));
    assert_eq!(first.len(), 1);
    let existing = vec![created_from(5, &first[0])];
    assert!(drafts_to_create(&do_sync(&meetings, &existing, 7)).is_empty());
}

#[test]
fn unreadable_start_does_not_stop_the_others() {
    let meetings = vec![
        meeting(URL_A, "not a time", true),
        meeting(URL_B, "2024-07-01T18:00+02:00", false),
    ];
    let outcomes = do_sync(&meetings, &Vec::new(), 7);
    assert_eq!(outcomes[0], Outcome::Rejected(SyncError::TimestampParseFailure));
    assert_eq!(outcomes[1], Outcome::Create(create_event(&meetings[1], 7).unwrap()));
    assert_eq!(rejected(&outcomes), vec![SyncError::TimestampParseFailure]);
    assert_eq!(drafts_to_create(&outcomes).len(), 1);
}

#[test]
fn outcomes_keep_the_order_of_the_meetings() {
    let urls = ["https://e.org/1", "https://e.org/2", "https://e.org/3", "https://e.org/4"];
    let meetings: Vec<Meeting> =
        urls.iter().map(|u| meeting(u, "2024-07-01T18:00+02:00", false)).collect();
    let existing = vec![event(1, Some("(source: https://e.org/2)"))];
    let outcomes = do_sync(&meetings, &existing, 7);
    assert_eq!(outcomes.len(), 4);
    let drafts = drafts_to_create(&outcomes);
    let places: Vec<Option<String>> = drafts.iter().map(|d| d.location.clone()).collect();
    assert_eq!(
        places,
        vec![
            Some("https://e.org/1".to_string()),
            Some("https://e.org/3".to_string()),
            Some("https://e.org/4".to_string())
        ]
    );
}

#[test]
fn address_that_is_a_head_of_another_counts_as_mirrored() {
    // matching is by substring: the address of the first occurs in that of the second
    let existing = vec![event(1, Some("(source: https://e.org/12)"))];
    assert!(is_already_mirrored(&existing, "https://e.org/1"));
}

#[test]
fn copy_of_a_draft_is_the_draft() {
    let draft = create_event(&meeting(URL_B, "2024-06-01T18:00+02:00", false), 7).unwrap();
    assert_eq!(copy_draft(&draft), draft);
}
