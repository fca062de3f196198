use meetup_sync::model::{Meeting, SyncError};
use meetup_sync::source::{
    build_query, classify_failure, copy_meeting, meetings_of, Community, Data, DirectoryReply,
    Node, UpcomingEvents,
};

fn meeting_at(url: &str) -> Meeting {
    Meeting {
        title: format!("Meeting at {}", url),
        event_url: url.to_string(),
        description: "d".to_string(),
        status: "published".to_string(),
        date_time: "2024-06-01T18:00+02:00".to_string(),
        duration: "PT2H".to_string(),
        id: "1".to_string(),
        is_online: false,
    }
}

fn answer(urls: &[&str]) -> DirectoryReply {
    DirectoryReply::Answered(Some(Data {
        community: Some(Community {
            name: "Rust Community Stuttgart".to_string(),
            city: "Stuttgart".to_string(),
            upcoming_events: UpcomingEvents {
                count: urls.len(),
                meetings: urls.iter().map(|u| Node { node: meeting_at(u) }).collect(),
            },
        }),
    }))
}

#[test]
fn query_names_group_and_count() {
    let meetup_group_name = "rust-community-stuttgart";
    let number_of_events_to_sync = 2;
    let expected = format!(
        r#"query  {{
    groupByUrlname(urlname: "{meetup_group_name}") {{
      name
      city
      upcomingEvents(input: {{first:{number_of_events_to_sync}, last:10}}){{
        count
        edges{{
          node{{
            title
            description
            eventUrl
            status
            dateTime
            duration
            id
            isOnline
          }}
        }}
      }}
    }}
  }}
"#
    );
    assert_eq!(build_query(meetup_group_name, number_of_events_to_sync), expected);
}

#[test]
fn query_writes_the_count_in_decimal() {
    assert!(build_query("g", 20).contains("upcomingEvents(input: {first:20, last:10})"));
    assert!(build_query("g", 1).contains("{first:1, last:10}"));
    assert!(build_query("g", 0).contains("{first:0, last:10}"));
    assert!(build_query("g", u64::MAX).contains("{first:18446744073709551615, last:10}"));
}

#[test]
fn query_takes_the_group_as_it_is() {
    assert!(build_query("", 2).contains("groupByUrlname(urlname: \"\")"));
    assert!(build_query("m\u{fc}nchen-rust", 2).contains("urlname: \"m\u{fc}nchen-rust\""));
}

#[test]
fn meetings_come_in_the_order_of_the_reply() {
    let got = meetings_of(&answer(&["https://e.org/3", "https://e.org/1", "https://e.org/2"]));
    assert_eq!(
        got,
        Ok(vec![
            meeting_at("https://e.org/3"),
            meeting_at("https://e.org/1"),
            meeting_at("https://e.org/2")
        ])
    );
}

#[test]
fn group_without_events_is_no_error() {
    assert_eq!(meetings_of(&answer(&[])), Ok(Vec::new()));
}

#[test]
fn reply_without_group_is_group_not_found() {
    let no_group = DirectoryReply::Answered(Some(Data { community: None }));
    assert_eq!(meetings_of(&no_group), Err(SyncError::GroupNotFound));
    assert_eq!(meetings_of(&DirectoryReply::Answered(None)), Err(SyncError::GroupNotFound));
}

#[test]
fn undecoded_reply_is_schema_mismatch() {
    let reply = DirectoryReply::Failed {
        message: "Failed to parse response: Error(\"missing field\"). The response body is: {}"
            .to_string(),
    };
    assert_eq!(meetings_of(&reply), Err(SyncError::SourceSchemaMismatch));
    assert_eq!(classify_failure("Failed to parse response"), SyncError::SourceSchemaMismatch);
}

#[test]
fn unread_redirect_header_is_source_unavailable() {
    let message = "Failed to parse response header: Location. ToStrError { _priv: () }";
    assert_eq!(classify_failure(message), SyncError::SourceUnavailable);
    assert_eq!(classify_failure("Failed to parse response header"), SyncError::SourceUnavailable);
    let reply = DirectoryReply::Failed { message: message.to_string() };
    assert_eq!(meetings_of(&reply), Err(SyncError::SourceUnavailable));
    assert_eq!(classify_failure("Failed to parse response heade"), SyncError::SourceSchemaMismatch);
}

#[test]
fn other_failures_are_source_unavailable() {
    for message in [
        "",
        "error sending request for url (https://api.meetup.com/gql)",
        "The response is [401]",
        "Look at json field for more details",
        "failed to parse response",
        " Failed to parse response",
    ] {
        assert_eq!(classify_failure(message), SyncError::SourceUnavailable, "{:?}", message);
        let reply = DirectoryReply::Failed { message: message.to_string() };
        assert_eq!(meetings_of(&reply), Err(SyncError::SourceUnavailable));
    }
}

#[test]
fn copy_of_a_meeting_is_the_meeting() {
    let m = meeting_at("https://e.org/9");
    assert_eq!(copy_meeting(&m), m);
}
