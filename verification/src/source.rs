//! The directory of events: the question put to it and what its answer holds.

use crate::model::{Meeting, SyncError};
use crate::text::{decimal, decimal_string, has_prefix, starts_with};
use vstd::prelude::*;
use vstd::string::*;

verus! {

/// The question, up to the group's name.
pub const QUERY_HEAD: &'static str = "query  {\n    groupByUrlname(urlname: \"";

/// The question, between the group's name and the number of events.
pub const QUERY_MIDDLE: &'static str =
    "\") {\n      name\n      city\n      upcomingEvents(input: {first:";

/// The rest of the question, which names the fields asked for.
pub const QUERY_TAIL: &'static str =
    ", last:10}){\n        count\n        edges{\n          node{\n            title\n            description\n            eventUrl\n            status\n            dateTime\n            duration\n            id\n            isOnline\n          }\n        }\n      }\n    }\n  }\n";

/// How the client's message begins when it could not decode the answer.
pub const UNDECODED_PREFIX: &'static str = "Failed to parse response";

/// How the client's message begins when it could not read the header of a
/// redirect. The message begins like that of an answer that was not decoded,
/// but no answer has come yet.
pub const UNREAD_HEADER_PREFIX: &'static str = "Failed to parse response header";

/// One entry of the list of upcoming events.
#[derive(Clone, Debug, PartialEq, Eq)]
pub struct Node {
    pub node: Meeting,
}

/// The upcoming events of a group.
#[derive(Clone, Debug, PartialEq, Eq)]
pub struct UpcomingEvents {
    pub count: usize,
    pub meetings: Vec<Node>,
}

/// A group of the directory.
#[derive(Clone, Debug, PartialEq, Eq)]
pub struct Community {
    pub name: String,
    pub city: String,
    pub upcoming_events: UpcomingEvents,
}

/// What the directory sends for one question; `community` is `None` where it
/// knows no group of the name asked for.
#[derive(Clone, Debug, PartialEq, Eq)]
pub struct Data {
    pub community: Option<Community>,
}

/// How a question to the directory ended.
#[derive(Clone, Debug, PartialEq, Eq)]
pub enum DirectoryReply {
    /// No usable answer came; `message` is what the client said about it.
    Failed { message: String },
    /// An answer came and was decoded; `None` where it held no data.
    Answered(Option<Data>),
}

/// The question that asks for the next `count` events of `group`.
pub open spec fn query_text(group: Seq<char>, count: nat) -> Seq<char> {
    QUERY_HEAD@ + group + QUERY_MIDDLE@ + decimal(count) + QUERY_TAIL@
}

/// The meetings of a list of entries, in order.
pub open spec fn node_meetings(nodes: Seq<Node>) -> Seq<Meeting> {
    nodes.map_values(|n: Node| n.node)
}

/// The error that a failed question stands for: an answer that could not be
/// decoded is a schema mismatch, everything else means that the directory was
/// not reached. A redirect whose header could not be read is of the second
/// kind.
pub open spec fn failure_of(message: Seq<char>) -> SyncError {
    if has_prefix(message, UNREAD_HEADER_PREFIX@) {
        SyncError::SourceUnavailable
    } else if has_prefix(message, UNDECODED_PREFIX@) {
        SyncError::SourceSchemaMismatch
    } else {
        SyncError::SourceUnavailable
    }
}

/// The meetings that a reply holds, in the directory's order, or the error that
/// it stands for. A group without upcoming events gives an empty list; a reply
/// without a group gives `GroupNotFound`.
pub open spec fn meetings_in(reply: DirectoryReply) -> Result<Seq<Meeting>, SyncError> {
    match reply {
        DirectoryReply::Failed { message } => Err(failure_of(message@)),
        DirectoryReply::Answered(None) => Err(SyncError::GroupNotFound),
        DirectoryReply::Answered(Some(data)) => match data.community {
            None => Err(SyncError::GroupNotFound),
            Some(community) => Ok(node_meetings(community.upcoming_events.meetings@)),
        },
    }
}

/// What `meetings_of` returns, with the list taken as a sequence.
pub open spec fn meetings_result_view(result: Result<Vec<Meeting>, SyncError>) -> Result<
    Seq<Meeting>,
    SyncError,
> {
    match result {
        Ok(meetings) => Ok(meetings@),
        Err(error) => Err(error),
    }
}

/// Builds the question that asks the directory for the next `count` events of
/// the group named `group`.
pub fn build_query(group: &str, count: u64) -> (query: String)
    ensures
        query@ == query_text(group@, count as nat),
{
    let mut query = String::from_str(QUERY_HEAD);
    query.append(group);
    query.append(QUERY_MIDDLE);
    let digits = decimal_string(count);
    query.append(digits.as_str());
    query.append(QUERY_TAIL);
    query
}

/// A copy of a meeting.
pub fn copy_meeting(meeting: &Meeting) -> (copy: Meeting)
    ensures
        copy == *meeting,
{
    Meeting {
        title: meeting.title.clone(),
        event_url: meeting.event_url.clone(),
        description: meeting.description.clone(),
        status: meeting.status.clone(),
        date_time: meeting.date_time.clone(),
        duration: meeting.duration.clone(),
        id: meeting.id.clone(),
        is_online: meeting.is_online,
    }
}

/// The error that a failed question stands for.
pub fn classify_failure(message: &str) -> (error: SyncError)
    ensures
        error == failure_of(message@),
{
    if starts_with(message, UNREAD_HEADER_PREFIX) {
        SyncError::SourceUnavailable
    } else if starts_with(message, UNDECODED_PREFIX) {
        SyncError::SourceSchemaMismatch
    } else {
        SyncError::SourceUnavailable
    }
}

/// Takes the meetings out of a reply, in the directory's order.
pub fn meetings_of(reply: &DirectoryReply) -> (result: Result<Vec<Meeting>, SyncError>)
    ensures
        meetings_result_view(result) == meetings_in(*reply),
{
    match reply {
        DirectoryReply::Failed { message } => Err(classify_failure(message.as_str())),
        DirectoryReply::Answered(None) => Err(SyncError::GroupNotFound),
        DirectoryReply::Answered(Some(data)) => match &data.community {
            None => Err(SyncError::GroupNotFound),
            Some(community) => {
                let nodes = &community.upcoming_events.meetings;
                let mut meetings: Vec<Meeting> = Vec::new();
                let mut i: usize = 0;
                while i < nodes.len()
                    invariant
                        i <= nodes.len(),
                        meetings.len() == i,
                        forall|k: int| 0 <= k < i ==> meetings[k] == nodes[k].node,
                    decreases nodes.len() - i,
                {
                    meetings.push(copy_meeting(&nodes[i].node));
                    i = i + 1;
                }
                assert(meetings@ =~= node_meetings(nodes@));
                Ok(meetings)
            },
        },
    }
}

} // verus!
