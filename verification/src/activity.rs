//! The activity of a session, and what a poller makes of the tokens it reads.
//!
//! A poller remembers for each session the token that it saw last. A cycle takes
//! one reading per session; a reading is reported when its token differs from the
//! one remembered and stands for an activity. The functions here say what a
//! cycle reports and what the poller remembers after it, and state what follows:
//! that a token which stays is reported once.

use crate::text::str_eq;
use vstd::prelude::*;

verus! {

/// What a session is doing, as far as its signals tell.
#[derive(Debug, Clone, Copy, PartialEq, Eq, Structural)]
pub enum Activity {
    /// A prompt was submitted: the tool is at work.
    Running,
    /// The tool has stopped: its task is done.
    Finished,
    /// The tool has sent a notification: it waits for the user.
    NeedsInput,
}

impl Activity {
    /// The word that callers are told.
    pub open spec fn name(self) -> Seq<char> {
        match self {
            Activity::Running => "running"@,
            Activity::Finished => "finished"@,
            Activity::NeedsInput => "needs_input"@,
        }
    }

    /// The word that callers are told: `running`, `finished` or `needs_input`.
    pub fn as_str(self) -> (word: &'static str)
        ensures
            word@ == self.name(),
    {
        match self {
            Activity::Running => "running",
            Activity::Finished => "finished",
            Activity::NeedsInput => "needs_input",
        }
    }
}

/// The activity that a token stands for, if it stands for one.
pub open spec fn classified(token: Seq<char>) -> Option<Activity> {
    if token == "UserPromptSubmit"@ {
        Some(Activity::Running)
    } else if token == "Stop"@ {
        Some(Activity::Finished)
    } else if token == "Notification"@ {
        Some(Activity::NeedsInput)
    } else {
        None
    }
}

/// The activity that a token stands for: `UserPromptSubmit` for running, `Stop`
/// for finished, `Notification` for needing input. Any other token stands for
/// none.
pub fn classify(token: &str) -> (activity: Option<Activity>)
    ensures
        activity == classified(token@),
{
    if str_eq(token, "UserPromptSubmit") {
        Some(Activity::Running)
    } else if str_eq(token, "Stop") {
        Some(Activity::Finished)
    } else if str_eq(token, "Notification") {
        Some(Activity::NeedsInput)
    } else {
        None
    }
}

/// The three tokens stand for three activities, and the empty token for none.
pub proof fn lemma_known_tokens()
    ensures
        classified("UserPromptSubmit"@) == Some(Activity::Running),
        classified("Stop"@) == Some(Activity::Finished),
        classified("Notification"@) == Some(Activity::NeedsInput),
        classified(Seq::<char>::empty()) is None,
{
    reveal_strlit("UserPromptSubmit");
    reveal_strlit("Stop");
    reveal_strlit("Notification");
    assert("UserPromptSubmit"@.len() == 16);
    assert("Stop"@.len() == 4);
    assert("Notification"@.len() == 12);
}

/// One reading of a session's status file: the session, and the token read,
/// `None` where the file could not be read.
#[derive(Debug, Clone, PartialEq, Eq)]
pub struct Reading {
    pub session_id: String,
    pub token: Option<String>,
}

/// A reading, as text.
pub struct Observation {
    pub session_id: Seq<char>,
    pub token: Option<Seq<char>>,
}

impl View for Reading {
    type V = Observation;

    open spec fn view(&self) -> Observation {
        Observation {
            session_id: self.session_id@,
            token: match self.token {
                Some(token) => Some(token@),
                None => None,
            },
        }
    }
}

/// The readings as text, in their order.
pub open spec fn observed(readings: Seq<Reading>) -> Seq<Observation> {
    Seq::new(readings.len(), |i: int| readings[i]@)
}

/// The token last seen for a session, the empty token where none was.
pub open spec fn last_token(seen: Map<Seq<char>, Seq<char>>, session_id: Seq<char>) -> Seq<char> {
    if seen.contains_key(session_id) {
        seen[session_id]
    } else {
        Seq::empty()
    }
}

/// Whether a reading is reported: its token is not empty, differs from the one
/// last seen for the session, and stands for an activity.
pub open spec fn is_reported(seen: Map<Seq<char>, Seq<char>>, reading: Observation) -> bool {
    &&& reading.token matches Some(token)
    &&& token.len() > 0
    &&& token != last_token(seen, reading.session_id)
    &&& classified(token) is Some
}

/// The tokens last seen, after one more reading. A reading that is reported
/// becomes the token last seen; an empty token is noted for a session of which
/// nothing was seen yet; any other reading changes nothing.
pub open spec fn seen_after(seen: Map<Seq<char>, Seq<char>>, reading: Observation) -> Map<
    Seq<char>,
    Seq<char>,
> {
    if is_reported(seen, reading) {
        seen.insert(reading.session_id, reading.token->Some_0)
    } else if reading.token == Some(Seq::<char>::empty()) && !seen.contains_key(
        reading.session_id,
    ) {
        seen.insert(reading.session_id, Seq::empty())
    } else {
        seen
    }
}

/// The tokens last seen, after the readings of one cycle in their order.
pub open spec fn seen_after_all(seen: Map<Seq<char>, Seq<char>>, readings: Seq<Observation>) -> Map<
    Seq<char>,
    Seq<char>,
>
    decreases readings.len(),
{
    if readings.len() == 0 {
        seen
    } else {
        seen_after(seen_after_all(seen, readings.drop_last()), readings.last())
    }
}

/// The events of one cycle, in the order of its readings: for each reading that
/// is reported, the session and the name of its activity.
pub open spec fn events_of(seen: Map<Seq<char>, Seq<char>>, readings: Seq<Observation>) -> Seq<
    (Seq<char>, Seq<char>),
>
    decreases readings.len(),
{
    if readings.len() == 0 {
        Seq::empty()
    } else {
        let before = seen_after_all(seen, readings.drop_last());
        let reading = readings.last();
        if is_reported(before, reading) {
            events_of(seen, readings.drop_last()).push(
                (reading.session_id, classified(reading.token->Some_0)->Some_0.name()),
            )
        } else {
            events_of(seen, readings.drop_last())
        }
    }
}

/// The sessions that the readings of a cycle name.
pub open spec fn sessions_read(readings: Seq<Observation>) -> Set<Seq<char>> {
    Set::new(|id: Seq<char>| exists|i: int| 0 <= i < readings.len() && readings[i].session_id == id)
}

/// The tokens last seen at the end of a cycle: those after its readings, without
/// the sessions that the cycle did not find.
pub open spec fn seen_after_cycle(
    seen: Map<Seq<char>, Seq<char>>,
    readings: Seq<Observation>,
) -> Map<Seq<char>, Seq<char>> {
    seen_after_all(seen, readings).restrict(sessions_read(readings))
}

/// The tokens that a poller starts with: for each reading that was readable,
/// its token.
pub open spec fn seeded(readings: Seq<Observation>) -> Map<Seq<char>, Seq<char>>
    decreases readings.len(),
{
    if readings.len() == 0 {
        Map::empty()
    } else {
        let before = seeded(readings.drop_last());
        match readings.last().token {
            Some(token) => before.insert(readings.last().session_id, token),
            None => before,
        }
    }
}

/// Whether a reading leaves the poller as it is: it is not reported, and it
/// notes nothing.
pub open spec fn is_quiet(seen: Map<Seq<char>, Seq<char>>, reading: Observation) -> bool {
    &&& !is_reported(seen, reading)
    &&& !(reading.token == Some(Seq::<char>::empty()) && !seen.contains_key(reading.session_id))
}

/// Whether no session is named by two readings.
pub open spec fn names_each_once(readings: Seq<Observation>) -> bool {
    forall|i: int, j: int|
        0 <= i < j < readings.len() ==> (#[trigger] readings[i]).session_id != (
        #[trigger] readings[j]).session_id
}

/// Whether two memories hold the same of one session.
pub open spec fn same_of(
    a: Map<Seq<char>, Seq<char>>,
    b: Map<Seq<char>, Seq<char>>,
    session_id: Seq<char>,
) -> bool {
    a.contains_key(session_id) == b.contains_key(session_id) && (a.contains_key(session_id)
        ==> a[session_id] == b[session_id])
}

/// A token that stands for no activity is passed over: it is reported to
/// nobody and remembered by nobody, and the readings behind it are taken as if
/// it had not been there.
pub proof fn lemma_unknown_token_passed_over(
    seen: Map<Seq<char>, Seq<char>>,
    earlier: Seq<Observation>,
    reading: Observation,
)
    requires
        reading.token matches Some(token) && token.len() > 0 && classified(token) is None,
    ensures
        !is_reported(seen, reading),
        seen_after(seen, reading) == seen,
        seen_after_all(seen, earlier.push(reading)) == seen_after_all(seen, earlier),
        events_of(seen, earlier.push(reading)) == events_of(seen, earlier),
{
    assert(earlier.push(reading).drop_last() =~= earlier);
}

/// Readings that are all quiet change nothing and report nothing.
pub proof fn lemma_quiet_cycle(seen: Map<Seq<char>, Seq<char>>, readings: Seq<Observation>)
    requires
        forall|i: int| 0 <= i < readings.len() ==> is_quiet(seen, #[trigger] readings[i]),
    ensures
        seen_after_all(seen, readings) == seen,
        events_of(seen, readings) == Seq::<(Seq<char>, Seq<char>)>::empty(),
    decreases readings.len(),
{
    if readings.len() > 0 {
        let earlier = readings.drop_last();
        assert forall|i: int| 0 <= i < earlier.len() implies is_quiet(
            seen,
            #[trigger] earlier[i],
        ) by {
            assert(earlier[i] == readings[i]);
        }
        lemma_quiet_cycle(seen, earlier);
        assert(is_quiet(seen, readings[readings.len() - 1]));
    }
}

/// What the poller holds of a session after a cycle's readings is what it held
/// right after the last reading that names the session.
proof fn lemma_settled_by_last_reading(
    seen: Map<Seq<char>, Seq<char>>,
    readings: Seq<Observation>,
    i: int,
)
    requires
        0 <= i < readings.len(),
        forall|j: int| i < j < readings.len() ==> readings[j].session_id != readings[i].session_id,
    ensures
        same_of(
            seen_after_all(seen, readings),
            seen_after(seen_after_all(seen, readings.take(i)), readings[i]),
            readings[i].session_id,
        ),
    decreases readings.len(),
{
    let earlier = readings.drop_last();
    if i == readings.len() - 1 {
        assert(earlier =~= readings.take(i));
    } else {
        assert(earlier.take(i) =~= readings.take(i));
        assert(earlier[i] == readings[i]);
        lemma_settled_by_last_reading(seen, earlier, i);
        assert(readings.last().session_id != readings[i].session_id);
    }
}

/// A poller that has seen a reading of the store reports nothing when it sees
/// the same reading again, and holds the same after it as before: a token that
/// stays in a status file is reported at most once. This holds of readings that
/// name each session once, as the reading of a directory does.
pub proof fn lemma_same_reading_reports_nothing(
    seen: Map<Seq<char>, Seq<char>>,
    readings: Seq<Observation>,
)
    requires
        names_each_once(readings),
    ensures
        events_of(seen_after_cycle(seen, readings), readings) == Seq::<
            (Seq<char>, Seq<char>),
        >::empty(),
        seen_after_cycle(seen_after_cycle(seen, readings), readings) == seen_after_cycle(
            seen,
            readings,
        ),
{
    let settled = seen_after_cycle(seen, readings);
    assert forall|i: int| 0 <= i < readings.len() implies is_quiet(
        settled,
        #[trigger] readings[i],
    ) by {
        lemma_settled_by_last_reading(seen, readings, i);
        assert(sessions_read(readings).contains(readings[i].session_id));
    }
    lemma_quiet_cycle(settled, readings);
    assert(settled.restrict(sessions_read(readings)) =~= settled);
}

/// What a seeded poller holds of a session is the token of the last readable
/// reading that names the session.
proof fn lemma_seeded_by_last_reading(readings: Seq<Observation>, i: int)
    requires
        0 <= i < readings.len(),
        forall|j: int| i < j < readings.len() ==> readings[j].session_id != readings[i].session_id,
        readings[i].token is Some,
    ensures
        seeded(readings).contains_key(readings[i].session_id),
        seeded(readings)[readings[i].session_id] == readings[i].token->Some_0,
    decreases readings.len(),
{
    if i < readings.len() - 1 {
        let earlier = readings.drop_last();
        assert(earlier[i] == readings[i]);
        lemma_seeded_by_last_reading(earlier, i);
        assert(readings.last().session_id != readings[i].session_id);
    }
}

/// A poller that was seeded from a reading of the store reports nothing when it
/// sees the same reading in its first cycle: the state that the sessions were
/// in when the poller started is not reported. This holds of readings that name
/// each session once.
pub proof fn lemma_seed_reports_nothing(readings: Seq<Observation>)
    requires
        names_each_once(readings),
    ensures
        events_of(seeded(readings), readings) == Seq::<(Seq<char>, Seq<char>)>::empty(),
        seen_after_all(seeded(readings), readings) == seeded(readings),
{
    assert forall|i: int| 0 <= i < readings.len() implies is_quiet(
        seeded(readings),
        #[trigger] readings[i],
    ) by {
        if readings[i].token is Some {
            lemma_seeded_by_last_reading(readings, i);
        }
    }
    lemma_quiet_cycle(seeded(readings), readings);
}

/// At the end of a cycle the poller remembers no session that the cycle's
/// reading did not name.
pub proof fn lemma_unread_sessions_forgotten(
    seen: Map<Seq<char>, Seq<char>>,
    readings: Seq<Observation>,
    session_id: Seq<char>,
)
    requires
        forall|i: int| 0 <= i < readings.len() ==> readings[i].session_id != session_id,
    ensures
        !seen_after_cycle(seen, readings).contains_key(session_id),
{
}

} // verus!
