//! Which fetched meetings are new, and what their mirrored events look like.

use crate::model::{
    event_views, meeting_views, EventDraft, EventDraftView, EventKind, Meeting, MeetingView,
    MirroredEvent, MirroredEventView, SyncError,
};
use crate::text::{
    contains, first_chars, is_digit, is_substring, lemma_replace_each_absent,
    lemma_replace_each_concat, occurs_at, replace_char, replace_each, take_chars, to_chars,
};
use crate::timestamp::{has_timestamp, parse_unix_seconds, rfc3339_unix_seconds, timestamp_exists};
use vstd::prelude::*;
use vstd::string::*;

verus! {

/// How long a mirrored event lasts, in seconds. The meeting's own duration is
/// not used.
pub const EVENT_SECONDS: i64 = 7200;

/// How many characters of a meeting's description a mirrored event keeps.
pub const DESCRIPTION_CHARS: usize = 300;

/// What follows the kept characters: an ellipsis, and the beginning of the
/// line that names the meeting's page.
pub const MARKER_HEAD: &'static str = "\u{2026}\n(source: ";

/// What closes the line that names the meeting's page.
pub const MARKER_TAIL: &'static str = ")";

/// What takes the place of the offset sign `+` in a start time: the seconds
/// that the directory leaves out, and the sign.
pub const SECONDS_AND_SIGN: &'static str = ":00+";

/// The minutes of an offset that gives hours only.
pub const OFFSET_MINUTES: &'static str = ":00";

/// `s` ends with an offset of hours only: a `+` and two digits.
pub open spec fn ends_with_hours_only(s: Seq<char>) -> bool {
    &&& s.len() >= 3
    &&& s[s.len() - 3] == '+'
    &&& is_digit(s[s.len() - 2])
    &&& is_digit(s[s.len() - 1])
}

/// The start time in the notation that the timestamp parser reads. The
/// directory leaves out the seconds before the offset sign, so `:00` is put in
/// front of every `+`; and an offset of hours only gets its minutes.
pub open spec fn normalized_start(date_time: Seq<char>) -> Seq<char> {
    let with_seconds = replace_each(date_time, '+', SECONDS_AND_SIGN@);
    if ends_with_hours_only(date_time) {
        with_seconds + OFFSET_MINUTES@
    } else {
        with_seconds
    }
}

/// The description of a mirrored event: the head of the meeting's description,
/// an ellipsis, and a line that names the meeting's page. That line is the
/// marker by which later passes recognise the event.
pub open spec fn mirrored_description(description: Seq<char>, event_url: Seq<char>) -> Seq<char> {
    first_chars(description, DESCRIPTION_CHARS as nat) + MARKER_HEAD@ + event_url + MARKER_TAIL@
}

/// An event carries the marker of the meeting at `event_url`.
pub open spec fn carries(event: MirroredEventView, event_url: Seq<char>) -> bool {
    event.description matches Some(description) && is_substring(description, event_url)
}

/// Some event of `existing` carries the marker of the meeting at `event_url`.
pub open spec fn mirrored(existing: Seq<MirroredEventView>, event_url: Seq<char>) -> bool {
    exists|i: int| 0 <= i < existing.len() && #[trigger] carries(existing[i], event_url)
}

/// The event to create for `meeting`, given the instant `start` that its start
/// time denotes and whether the calendar has a timestamp for the end.
pub open spec fn draft_of(
    meeting: MeetingView,
    voice_channel_id: u64,
    start: Option<i64>,
    end_exists: bool,
) -> Result<EventDraftView, SyncError> {
    if start is Some && start->0 + EVENT_SECONDS <= i64::MAX && end_exists {
        Ok(
            EventDraftView {
                name: meeting.title,
                description: mirrored_description(meeting.description, meeting.event_url),
                start: start->0 as int,
                end: start->0 + EVENT_SECONDS,
                kind: if meeting.is_online {
                    EventKind::Voice
                } else {
                    EventKind::External
                },
                channel_id: if meeting.is_online {
                    Some(voice_channel_id)
                } else {
                    None
                },
                location: if meeting.is_online {
                    None
                } else {
                    Some(meeting.event_url)
                },
            },
        )
    } else {
        Err(SyncError::TimestampParseFailure)
    }
}

/// The view of what `draft_event` and `create_event` return.
pub open spec fn draft_result_view(result: Result<EventDraft, SyncError>) -> Result<
    EventDraftView,
    SyncError,
> {
    match result {
        Ok(draft) => Ok(draft@),
        Err(error) => Err(error),
    }
}

/// Whether `s` ends with a `+` and two digits.
pub fn has_hours_only_offset(s: &str) -> (found: bool)
    ensures
        found == ends_with_hours_only(s@),
{
    let chars = to_chars(s);
    let n: usize = chars.len();
    if n < 3 {
        return false;
    }
    let tens = chars[n - 2];
    let ones = chars[n - 1];
    chars[n - 3] == '+' && tens >= '0' && tens <= '9' && ones >= '0' && ones <= '9'
}

/// The start time of a meeting in the parser's notation.
pub fn normalize_start(date_time: &str) -> (normalized: String)
    ensures
        normalized@ == normalized_start(date_time@),
{
    let mut normalized = replace_char(date_time, '+', SECONDS_AND_SIGN);
    if has_hours_only_offset(date_time) {
        normalized.append(OFFSET_MINUTES);
    }
    normalized
}

/// The description of the mirrored event of a meeting.
pub fn describe(description: &str, event_url: &str) -> (text: String)
    ensures
        text@ == mirrored_description(description@, event_url@),
{
    let mut text = take_chars(description, DESCRIPTION_CHARS);
    text.append(MARKER_HEAD);
    text.append(event_url);
    text.append(MARKER_TAIL);
    text
}

/// The event to create for `meeting`, from the instant `start` that its start
/// time denotes (`None` where it denotes none) and from whether the calendar has
/// a timestamp for the end, two hours later.
pub fn draft_event(
    meeting: &Meeting,
    voice_channel_id: u64,
    start: Option<i64>,
    end_exists: bool,
) -> (result: Result<EventDraft, SyncError>)
    ensures
        draft_result_view(result) == draft_of(meeting@, voice_channel_id, start, end_exists),
{
    let begin: i64 = match start {
        Some(secs) => secs,
        None => {
            return Err(SyncError::TimestampParseFailure);
        },
    };
    let end: i64 = match begin.checked_add(EVENT_SECONDS) {
        Some(secs) => secs,
        None => {
            return Err(SyncError::TimestampParseFailure);
        },
    };
    if !end_exists {
        return Err(SyncError::TimestampParseFailure);
    }
    let description = describe(meeting.description.as_str(), meeting.event_url.as_str());
    let name = meeting.title.clone();
    if meeting.is_online {
        Ok(
            EventDraft {
                name,
                description,
                start: begin,
                end,
                kind: EventKind::Voice,
                channel_id: Some(voice_channel_id),
                location: None,
            },
        )
    } else {
        Ok(
            EventDraft {
                name,
                description,
                start: begin,
                end,
                kind: EventKind::External,
                channel_id: None,
                location: Some(meeting.event_url.clone()),
            },
        )
    }
}

/// The instant that a meeting's start time denotes.
pub open spec fn start_of(meeting: MeetingView) -> Option<i64> {
    rfc3339_unix_seconds(normalized_start(meeting.date_time))
}

/// Whether the calendar has a timestamp for the end of an event that starts at
/// `start`.
pub open spec fn end_exists_for(start: Option<i64>) -> bool {
    start is Some && start->0 + EVENT_SECONDS <= i64::MAX && timestamp_exists(
        (start->0 + EVENT_SECONDS) as i64,
    )
}

/// The event to create for `meeting`, or the reason why there is none.
pub open spec fn created(meeting: MeetingView, voice_channel_id: u64) -> Result<
    EventDraftView,
    SyncError,
> {
    draft_of(meeting, voice_channel_id, start_of(meeting), end_exists_for(start_of(meeting)))
}

/// Maps a meeting to the event that mirrors it. Fails with
/// `TimestampParseFailure` where the start time, once normalized, is no
/// timestamp, or where the end has none.
pub fn create_event(meeting: &Meeting, voice_channel_id: u64) -> (result: Result<
    EventDraft,
    SyncError,
>)
    ensures
        draft_result_view(result) == created(meeting@, voice_channel_id),
{
    let normalized = normalize_start(meeting.date_time.as_str());
    let start = parse_unix_seconds(normalized.as_str());
    let end_exists = match start {
        Some(secs) => match secs.checked_add(EVENT_SECONDS) {
            Some(end) => has_timestamp(end),
            None => false,
        },
        None => false,
    };
    draft_event(meeting, voice_channel_id, start, end_exists)
}

/// Whether some event of `existing` carries the marker of the meeting at
/// `event_url`: the address occurs in the event's description.
pub fn is_already_mirrored(existing: &Vec<MirroredEvent>, event_url: &str) -> (found: bool)
    ensures
        found == mirrored(event_views(existing@), event_url@),
{
    let mut i: usize = 0;
    while i < existing.len()
        invariant
            i <= existing.len(),
            forall|k: int| 0 <= k < i ==> !carries(#[trigger] event_views(existing@)[k], event_url@),
        decreases existing.len() - i,
    {
        let hit = match &existing[i].description {
            Some(description) => contains(description.as_str(), event_url),
            None => false,
        };
        assert(hit == carries(event_views(existing@)[i as int], event_url@));
        if hit {
            return true;
        }
        i = i + 1;
    }
    false
}

/// What a pass does with one fetched meeting.
#[derive(Clone, Debug, PartialEq, Eq)]
pub enum Outcome {
    /// The calendar holds its event already: nothing is done.
    AlreadyMirrored,
    /// The event is to be created.
    Create(EventDraft),
    /// No event can be made of it; the other meetings are not affected.
    Rejected(SyncError),
}

/// An outcome, with its draft taken by its view.
pub enum OutcomeView {
    AlreadyMirrored,
    Create(EventDraftView),
    Rejected(SyncError),
}

impl View for Outcome {
    type V = OutcomeView;

    open spec fn view(&self) -> OutcomeView {
        match *self {
            Outcome::AlreadyMirrored => OutcomeView::AlreadyMirrored,
            Outcome::Create(draft) => OutcomeView::Create(draft@),
            Outcome::Rejected(error) => OutcomeView::Rejected(error),
        }
    }
}

/// The views of a list of outcomes, in order.
pub open spec fn outcome_views(outcomes: Seq<Outcome>) -> Seq<OutcomeView> {
    outcomes.map_values(|o: Outcome| o@)
}

/// What a pass does with `meeting` when the calendar holds `existing`.
pub open spec fn outcome_of(
    meeting: MeetingView,
    existing: Seq<MirroredEventView>,
    voice_channel_id: u64,
) -> OutcomeView {
    if mirrored(existing, meeting.event_url) {
        OutcomeView::AlreadyMirrored
    } else {
        match created(meeting, voice_channel_id) {
            Ok(draft) => OutcomeView::Create(draft),
            Err(error) => OutcomeView::Rejected(error),
        }
    }
}

/// What a pass does with each of `meetings`, in their order.
pub open spec fn planned(
    meetings: Seq<MeetingView>,
    existing: Seq<MirroredEventView>,
    voice_channel_id: u64,
) -> Seq<OutcomeView> {
    meetings.map_values(|m: MeetingView| outcome_of(m, existing, voice_channel_id))
}

/// One pass over the fetched meetings: for each, in the order fetched, whether
/// the calendar holds its event already, and if not the event to create or the
/// reason why none can be made. A meeting whose start time cannot be read is
/// rejected alone.
pub fn do_sync(
    meetings: &Vec<Meeting>,
    existing: &Vec<MirroredEvent>,
    voice_channel_id: u64,
) -> (outcomes: Vec<Outcome>)
    ensures
        outcome_views(outcomes@) == planned(
            meeting_views(meetings@),
            event_views(existing@),
            voice_channel_id,
        ),
        forall|i: int|
            0 <= i < meetings.len() && mirrored(event_views(existing@), meetings[i].event_url@)
                ==> #[trigger] outcomes[i] is AlreadyMirrored,
{
    let mut outcomes: Vec<Outcome> = Vec::new();
    let mut i: usize = 0;
    while i < meetings.len()
        invariant
            i <= meetings.len(),
            outcomes.len() == i,
            forall|k: int|
                0 <= k < i ==> (#[trigger] outcomes[k])@ == outcome_of(
                    meetings[k]@,
                    event_views(existing@),
                    voice_channel_id,
                ),
        decreases meetings.len() - i,
    {
        let meeting = &meetings[i];
        let outcome = if is_already_mirrored(existing, meeting.event_url.as_str()) {
            Outcome::AlreadyMirrored
        } else {
            match create_event(meeting, voice_channel_id) {
                Ok(draft) => Outcome::Create(draft),
                Err(error) => Outcome::Rejected(error),
            }
        };
        outcomes.push(outcome);
        i = i + 1;
    }
    assert(outcome_views(outcomes@) =~= planned(
        meeting_views(meetings@),
        event_views(existing@),
        voice_channel_id,
    ));
    outcomes
}

/// The views of a list of drafts, in order.
pub open spec fn draft_views(drafts: Seq<EventDraft>) -> Seq<EventDraftView> {
    drafts.map_values(|d: EventDraft| d@)
}

/// The events that a pass creates: the drafts among its outcomes, in order.
pub open spec fn creations(outcomes: Seq<OutcomeView>) -> Seq<EventDraftView>
    decreases outcomes.len(),
{
    if outcomes.len() == 0 {
        Seq::empty()
    } else {
        match outcomes.last() {
            OutcomeView::Create(draft) => creations(outcomes.drop_last()).push(draft),
            _ => creations(outcomes.drop_last()),
        }
    }
}

/// The errors that a pass reports for single meetings, in order.
pub open spec fn rejections(outcomes: Seq<OutcomeView>) -> Seq<SyncError>
    decreases outcomes.len(),
{
    if outcomes.len() == 0 {
        Seq::empty()
    } else {
        match outcomes.last() {
            OutcomeView::Rejected(error) => rejections(outcomes.drop_last()).push(error),
            _ => rejections(outcomes.drop_last()),
        }
    }
}

/// A copy of a draft.
pub fn copy_draft(draft: &EventDraft) -> (copy: EventDraft)
    ensures
        copy == *draft,
{
    EventDraft {
        name: draft.name.clone(),
        description: draft.description.clone(),
        start: draft.start,
        end: draft.end,
        kind: draft.kind,
        channel_id: draft.channel_id,
        location: match &draft.location {
            Some(place) => Some(place.clone()),
            None => None,
        },
    }
}

/// The events to create, in the order of the meetings they come from.
pub fn drafts_to_create(outcomes: &Vec<Outcome>) -> (drafts: Vec<EventDraft>)
    ensures
        draft_views(drafts@) == creations(outcome_views(outcomes@)),
{
    let mut drafts: Vec<EventDraft> = Vec::new();
    let mut i: usize = 0;
    while i < outcomes.len()
        invariant
            i <= outcomes.len(),
            draft_views(drafts@) == creations(outcome_views(outcomes@).subrange(0, i as int)),
        decreases outcomes.len() - i,
    {
        proof {
            let next = outcome_views(outcomes@).subrange(0, i + 1);
            assert(next.drop_last() =~= outcome_views(outcomes@).subrange(0, i as int));
        }
        match &outcomes[i] {
            Outcome::Create(draft) => {
                let ghost before = drafts@;
                drafts.push(copy_draft(draft));
                assert(draft_views(drafts@) =~= draft_views(before).push(draft@));
            },
            _ => {},
        }
        i = i + 1;
    }
    assert(outcome_views(outcomes@).subrange(0, i as int) =~= outcome_views(outcomes@));
    drafts
}

/// The errors to report for single meetings, in the order of the meetings.
pub fn rejected(outcomes: &Vec<Outcome>) -> (errors: Vec<SyncError>)
    ensures
        errors@ == rejections(outcome_views(outcomes@)),
{
    let mut errors: Vec<SyncError> = Vec::new();
    let mut i: usize = 0;
    while i < outcomes.len()
        invariant
            i <= outcomes.len(),
            errors@ == rejections(outcome_views(outcomes@).subrange(0, i as int)),
        decreases outcomes.len() - i,
    {
        proof {
            let next = outcome_views(outcomes@).subrange(0, i + 1);
            assert(next.drop_last() =~= outcome_views(outcomes@).subrange(0, i as int));
        }
        match &outcomes[i] {
            Outcome::Rejected(error) => {
                errors.push(*error);
            },
            _ => {},
        }
        i = i + 1;
    }
    assert(outcome_views(outcomes@).subrange(0, i as int) =~= outcome_views(outcomes@));
    errors
}

/// The description of a mirrored event holds the address of the meeting's page,
/// whatever the meeting's own description says.
pub proof fn lemma_description_carries_marker(description: Seq<char>, event_url: Seq<char>)
    ensures
        is_substring(mirrored_description(description, event_url), event_url),
{
    let head = first_chars(description, DESCRIPTION_CHARS as nat) + MARKER_HEAD@;
    let whole = mirrored_description(description, event_url);
    assert(whole.subrange(head.len() as int, (head.len() + event_url.len()) as int) =~= event_url);
    assert(occurs_at(whole, event_url, head.len() as int));
}

/// No event is created for a meeting whose address occurs in the description
/// of an event that the calendar holds: the pass leaves that meeting alone.
pub proof fn lemma_mirrored_meeting_is_skipped(
    meetings: Seq<MeetingView>,
    existing: Seq<MirroredEventView>,
    voice_channel_id: u64,
    i: int,
)
    requires
        0 <= i < meetings.len(),
        mirrored(existing, meetings[i].event_url),
    ensures
        planned(meetings, existing, voice_channel_id)[i] == OutcomeView::AlreadyMirrored,
        !(planned(meetings, existing, voice_channel_id)[i] is Create),
{
}

/// The calendar made `event` from `draft`: it shows the draft's description.
pub open spec fn made_from(event: MirroredEventView, draft: EventDraftView) -> bool {
    event.description == Some(draft.description)
}

/// A second pass over the same meetings creates nothing, when the calendar's
/// list read for it still holds every event that the first pass saw and holds
/// the event of every draft that the first pass asked to create.
pub proof fn lemma_second_pass_creates_nothing(
    meetings: Seq<MeetingView>,
    before: Seq<MirroredEventView>,
    after: Seq<MirroredEventView>,
    voice_channel_id: u64,
)
    requires
        forall|i: int| 0 <= i < before.len() ==> after.contains(#[trigger] before[i]),
        forall|k: int|
            0 <= k < meetings.len() && (#[trigger] planned(
                meetings,
                before,
                voice_channel_id,
            )[k]) is Create ==> exists|j: int|
                0 <= j < after.len() && made_from(
                    #[trigger] after[j],
                    planned(meetings, before, voice_channel_id)[k]->Create_0,
                ),
    ensures
        forall|k: int|
            0 <= k < meetings.len() ==> !(#[trigger] planned(meetings, after, voice_channel_id)[k]
                is Create),
{
    assert forall|k: int| 0 <= k < meetings.len() implies !(#[trigger] planned(
        meetings,
        after,
        voice_channel_id,
    )[k] is Create) by {
        let meeting = meetings[k];
        let first = planned(meetings, before, voice_channel_id)[k];
        if mirrored(before, meeting.event_url) {
            let i = choose|i: int|
                0 <= i < before.len() && #[trigger] carries(before[i], meeting.event_url);
            assert(after.contains(before[i]));
            let j = choose|j: int| 0 <= j < after.len() && after[j] == before[i];
            assert(carries(after[j], meeting.event_url));
        } else if first is Create {
            let draft = first->Create_0;
            let j = choose|j: int| 0 <= j < after.len() && made_from(#[trigger] after[j], draft);
            lemma_description_carries_marker(meeting.description, meeting.event_url);
            assert(carries(after[j], meeting.event_url));
        }
    }
}

/// Two digits and nothing else.
pub open spec fn is_hours(offset: Seq<char>) -> bool {
    offset.len() == 2 && is_digit(offset[0]) && is_digit(offset[1])
}

/// Where the start time has one `+`, the offset sign, its normal form has `:00`
/// in front of that sign, has `:00` at its end where the offset is two digits
/// of hours, and is otherwise the same. A start time without `+` is its own
/// normal form.
pub proof fn lemma_seconds_go_before_the_offset(local: Seq<char>, offset: Seq<char>)
    requires
        !local.contains('+'),
        !offset.contains('+'),
    ensures
        is_hours(offset) ==> normalized_start(local + seq!['+'] + offset) == local + seq![
            ':',
            '0',
            '0',
            '+',
        ] + offset + seq![':', '0', '0'],
        !is_hours(offset) ==> normalized_start(local + seq!['+'] + offset) == local + seq![
            ':',
            '0',
            '0',
            '+',
        ] + offset,
        normalized_start(local) == local,
{
    reveal_strlit(":00+");
    reveal_strlit(":00");
    let with = SECONDS_AND_SIGN@;
    let sign = seq!['+'];
    let whole = local + sign + offset;
    lemma_replace_each_concat(local + sign, offset, '+', with);
    lemma_replace_each_concat(local, sign, '+', with);
    lemma_replace_each_absent(local, '+', with);
    lemma_replace_each_absent(offset, '+', with);
    assert(replace_each(sign, '+', with) =~= with) by {
        assert(sign.drop_last() =~= Seq::<char>::empty());
        assert(replace_each(sign.drop_last(), '+', with) =~= Seq::<char>::empty());
    }
    assert(ends_with_hours_only(whole) == is_hours(offset)) by {
        if is_hours(offset) {
            assert(whole[whole.len() - 3] == '+');
            assert(whole[whole.len() - 2] == offset[0]);
            assert(whole[whole.len() - 1] == offset[1]);
        } else if ends_with_hours_only(whole) {
            // the sign is that of `whole`, for neither part holds another
            let at = whole.len() - 3;
            if at < local.len() {
                assert(local.contains(local[at]));
            } else if at > local.len() {
                assert(offset.contains(offset[at - local.len() - 1]));
            } else {
                assert(whole[whole.len() - 2] == offset[0]);
                assert(whole[whole.len() - 1] == offset[1]);
            }
        }
    }
    assert(!ends_with_hours_only(local)) by {
        if ends_with_hours_only(local) {
            assert(local.contains(local[local.len() - 3]));
        }
    }
}

/// A mirrored event begins at the instant that the meeting's start time
/// denotes and ends exactly two hours later.
pub proof fn lemma_event_lasts_two_hours(meeting: MeetingView, voice_channel_id: u64)
    requires
        created(meeting, voice_channel_id) is Ok,
    ensures
        start_of(meeting) == Some(created(meeting, voice_channel_id)->Ok_0.start as i64),
        created(meeting, voice_channel_id)->Ok_0.end == created(meeting, voice_channel_id)->Ok_0.start
            + 2 * 3600,
{
}

/// An online meeting becomes a voice event in the registration's voice channel,
/// without a location; any other becomes an external event whose location is
/// the address of the meeting's page, without a channel.
pub proof fn lemma_kind_follows_the_meeting(
    meeting: MeetingView,
    voice_channel_id: u64,
    start: Option<i64>,
    end_exists: bool,
)
    requires
        draft_of(meeting, voice_channel_id, start, end_exists) is Ok,
    ensures
        ({
            let draft = draft_of(meeting, voice_channel_id, start, end_exists)->Ok_0;
            &&& meeting.is_online ==> draft.kind == EventKind::Voice && draft.channel_id == Some(
                voice_channel_id,
            ) && draft.location is None
            &&& !meeting.is_online ==> draft.kind == EventKind::External && draft.location == Some(
                meeting.event_url,
            ) && draft.channel_id is None
            &&& draft.name == meeting.title
        }),
{
}

/// Of a description of more than 300 characters a mirrored event keeps the
/// first 300; a shorter one it keeps whole. The ellipsis and the marker line
/// follow in either case.
pub proof fn lemma_description_is_cut(description: Seq<char>, event_url: Seq<char>)
    ensures
        description.len() > 300 ==> mirrored_description(description, event_url)
            == description.subrange(0, 300) + MARKER_HEAD@ + event_url + MARKER_TAIL@,
        description.len() <= 300 ==> mirrored_description(description, event_url) == description
            + MARKER_HEAD@ + event_url + MARKER_TAIL@,
        mirrored_description(description, event_url).len() <= 300 + MARKER_HEAD@.len()
            + event_url.len() + MARKER_TAIL@.len(),
{
}

/// The outcome at `k` is to create `draft`.
pub open spec fn creates_at(outcomes: Seq<OutcomeView>, k: int, draft: EventDraftView) -> bool {
    0 <= k < outcomes.len() && outcomes[k] == OutcomeView::Create(draft)
}

/// Some outcome is to create `draft`.
pub open spec fn is_created(outcomes: Seq<OutcomeView>, draft: EventDraftView) -> bool {
    exists|k: int| creates_at(outcomes, k, draft)
}

/// Every event that a pass creates is the draft of one of its outcomes, and no
/// pass creates more events than it has outcomes.
pub proof fn lemma_creations_are_drafts(outcomes: Seq<OutcomeView>)
    ensures
        creations(outcomes).len() <= outcomes.len(),
        forall|j: int|
            0 <= j < creations(outcomes).len() ==> is_created(
                outcomes,
                #[trigger] creations(outcomes)[j],
            ),
    decreases outcomes.len(),
{
    if outcomes.len() > 0 {
        let head = outcomes.drop_last();
        lemma_creations_are_drafts(head);
        assert forall|j: int| 0 <= j < creations(outcomes).len() implies is_created(
            outcomes,
            #[trigger] creations(outcomes)[j],
        ) by {
            let draft = creations(outcomes)[j];
            if j < creations(head).len() {
                assert(is_created(head, creations(head)[j]));
                let k = choose|k: int| creates_at(head, k, draft);
                assert(creates_at(outcomes, k, draft));
            } else {
                assert(creates_at(outcomes, outcomes.len() - 1, draft));
            }
        }
    }
}

/// A pass without an outcome that creates, creates nothing.
pub proof fn lemma_nothing_to_create(outcomes: Seq<OutcomeView>)
    requires
        forall|k: int| 0 <= k < outcomes.len() ==> !(#[trigger] outcomes[k] is Create),
    ensures
        creations(outcomes).len() == 0,
    decreases outcomes.len(),
{
    if outcomes.len() > 0 {
        let head = outcomes.drop_last();
        assert(!(outcomes.last() is Create));
        assert forall|k: int| 0 <= k < head.len() implies !(#[trigger] head[k] is Create) by {
            assert(head[k] == outcomes[k]);
        }
        lemma_nothing_to_create(head);
    }
}

/// The meeting at `k` is new to the calendar, and `draft` is its event.
pub open spec fn is_event_of_new_meeting(
    meetings: Seq<MeetingView>,
    existing: Seq<MirroredEventView>,
    voice_channel_id: u64,
    k: int,
    draft: EventDraftView,
) -> bool {
    &&& 0 <= k < meetings.len()
    &&& !mirrored(existing, meetings[k].event_url)
    &&& created(meetings[k], voice_channel_id) == Ok::<EventDraftView, SyncError>(draft)
}

/// `draft` is the event of one of `meetings` that is new to the calendar.
pub open spec fn comes_from_new_meeting(
    meetings: Seq<MeetingView>,
    existing: Seq<MirroredEventView>,
    voice_channel_id: u64,
    draft: EventDraftView,
) -> bool {
    exists|k: int| is_event_of_new_meeting(meetings, existing, voice_channel_id, k, draft)
}

/// A pass creates events for new meetings only, at most one for each: every
/// event it creates is the event of a fetched meeting that no event of the
/// calendar carries the marker of.
pub proof fn lemma_creations_come_from_new_meetings(
    meetings: Seq<MeetingView>,
    existing: Seq<MirroredEventView>,
    voice_channel_id: u64,
)
    ensures
        creations(planned(meetings, existing, voice_channel_id)).len() <= meetings.len(),
        forall|j: int|
            0 <= j < creations(planned(meetings, existing, voice_channel_id)).len()
                ==> comes_from_new_meeting(
                meetings,
                existing,
                voice_channel_id,
                #[trigger] creations(planned(meetings, existing, voice_channel_id))[j],
            ),
{
    let outcomes = planned(meetings, existing, voice_channel_id);
    lemma_creations_are_drafts(outcomes);
    assert forall|j: int| 0 <= j < creations(outcomes).len() implies comes_from_new_meeting(
        meetings,
        existing,
        voice_channel_id,
        #[trigger] creations(outcomes)[j],
    ) by {
        let draft = creations(outcomes)[j];
        assert(is_created(outcomes, draft));
        let k = choose|k: int| creates_at(outcomes, k, draft);
        assert(outcomes[k] == outcome_of(meetings[k], existing, voice_channel_id));
        assert(is_event_of_new_meeting(meetings, existing, voice_channel_id, k, draft));
    }
}

} // verus!
