//! The activity of each session, as told by the status files of the signal store.
//!
//! The store is a directory with one subdirectory per session, each holding one
//! status file. A tool that runs inside a session writes a token into that file;
//! the poller reads the files again and again and reports each change of a
//! session's token once. Reading the directory is the caller's part: it hands
//! each reading to the poller as a list of entries.

use crate::activity::{
    classify, events_of, observed, seeded, seen_after_all, seen_after_cycle, sessions_read,
    Observation, Reading,
};
use crate::error::SessionError;
use crate::table::Table;
use crate::text::{str_eq, texts, trim, trimmed};
use vstd::prelude::*;
use vstd::string::*;

verus! {

/// The name of the event that tells that a session's activity has changed.
pub const SESSION_ACTIVITY_EVENT: &'static str = "session-activity-changed";

/// The time between two cycles of the poller, in milliseconds.
pub const POLL_INTERVAL_MS: u64 = 500;

/// The event that tells that a session's activity has changed.
#[derive(Debug, Clone, PartialEq, Eq)]
pub struct SessionActivityPayload {
    pub session_id: String,
    /// `running`, `finished` or `needs_input`.
    pub activity: String,
}

/// The root directory of the signal store.
#[derive(Debug, Clone, PartialEq, Eq)]
pub struct SessionsDir {
    pub path: String,
}

/// The directory and the status file that a session starts with.
#[derive(Debug, Clone, PartialEq, Eq)]
pub struct SessionDirPlan {
    /// The directory to create, with those above it.
    pub dir: String,
    /// The file to write without content.
    pub status_file: String,
}

/// The root of the signal store below the home directory `home`.
pub open spec fn store_root(home: Seq<char>) -> Seq<char> {
    home + "/.clutch/sessions"@
}

/// The words that a missing home directory is reported with.
pub open spec fn home_missing() -> Seq<char> {
    "HOME environment variable not set"@
}

impl SessionsDir {
    /// The directory of the session `id`.
    pub open spec fn dir_of(self, id: Seq<char>) -> Seq<char> {
        self.path@ + "/"@ + id
    }

    /// The directory of each session of `ids`, in their order.
    pub open spec fn dirs_of(self, ids: Seq<Seq<char>>) -> Seq<Seq<char>> {
        Seq::new(ids.len(), |i: int| self.dir_of(ids[i]))
    }

    /// The status file of the session `id`.
    pub open spec fn status_of(self, id: Seq<char>) -> Seq<char> {
        self.dir_of(id) + "/status"@
    }

    /// The store of the user whose home directory is `home`. Without a home
    /// directory there is no store.
    pub fn new(home: Option<String>) -> (store: Result<SessionsDir, SessionError>)
        ensures
            home matches Some(h) ==> store is Ok && store->Ok_0.path@ == store_root(h@),
            home is None ==> store is Err && store->Err_0 is FilesystemError
                && store->Err_0.detail() == home_missing(),
    {
        match home {
            Some(h) => {
                let mut path = h;
                path.append("/.clutch/sessions");
                Ok(SessionsDir { path })
            },
            None => Err(
                SessionError::FilesystemError(
                    String::from_str("HOME environment variable not set"),
                ),
            ),
        }
    }

    /// What a new session needs in the store: its directory, and in it a status
    /// file without content, which stands for "no signal yet".
    pub fn create_session_dir(&self, session_id: &str) -> (plan: SessionDirPlan)
        ensures
            plan.dir@ == self.dir_of(session_id@),
            plan.status_file@ == self.status_of(session_id@),
    {
        let dir = self.remove_session_dir(session_id);
        let mut status_file = dir.clone();
        status_file.append("/status");
        SessionDirPlan { dir, status_file }
    }

    /// The directory that is removed, with all below it, when the session ends.
    pub fn remove_session_dir(&self, session_id: &str) -> (dir: String)
        ensures
            dir@ == self.dir_of(session_id@),
    {
        let mut dir = self.path.clone();
        dir.append("/");
        dir.append(session_id);
        dir
    }

    /// The directories to remove when the store is opened. Where stale sessions
    /// are cleaned up, these are the directories of all sessions found, in the
    /// order given; where they are kept, none.
    pub fn stale_session_dirs(&self, cleanup: bool, found: &Vec<String>) -> (dirs: Vec<String>)
        ensures
            !cleanup ==> dirs@.len() == 0,
            cleanup ==> texts(dirs@) == self.dirs_of(texts(found@)),
    {
        let mut dirs: Vec<String> = Vec::new();
        if cleanup {
            let mut i: usize = 0;
            while i < found.len()
                invariant
                    i <= found@.len(),
                    dirs@.len() == i,
                    forall|j: int| 0 <= j < i ==> (#[trigger] dirs@[j])@ == self.dir_of(found@[j]@),
                decreases found@.len() - i,
            {
                dirs.push(self.remove_session_dir(found[i].as_str()));
                i += 1;
            }
            assert(texts(dirs@) =~= self.dirs_of(texts(found@)));
        }
        dirs
    }
}

/// One subdirectory of the store as it was read: the session that it is named
/// after, and the content of its status file, `None` where the file could not
/// be read.
#[derive(Debug, Clone, PartialEq, Eq)]
pub struct StatusEntry {
    pub session_id: String,
    pub content: Option<String>,
}

/// The reading that an entry stands for: its content without the white space
/// around it.
pub open spec fn observation_of(entry: StatusEntry) -> Observation {
    Observation {
        session_id: entry.session_id@,
        token: match entry.content {
            Some(raw) => Some(trimmed(raw@)),
            None => None,
        },
    }
}

/// The readings that the entries stand for, in their order.
pub open spec fn observations_of(entries: Seq<StatusEntry>) -> Seq<Observation> {
    Seq::new(entries.len(), |i: int| observation_of(entries[i]))
}

/// Takes the token out of each entry: the content of its status file without
/// the white space around it.
pub fn read_tokens(entries: &Vec<StatusEntry>) -> (readings: Vec<Reading>)
    ensures
        observed(readings@) == observations_of(entries@),
{
    let mut readings: Vec<Reading> = Vec::new();
    let mut i: usize = 0;
    while i < entries.len()
        invariant
            i <= entries@.len(),
            readings@.len() == i,
            forall|j: int| 0 <= j < i ==> (#[trigger] readings@[j])@ == observation_of(entries@[j]),
        decreases entries@.len() - i,
    {
        let entry = &entries[i];
        let token = match &entry.content {
            Some(raw) => Some(String::from_str(trim(raw.as_str()))),
            None => None,
        };
        readings.push(Reading { session_id: entry.session_id.clone(), token });
        i += 1;
    }
    assert(observed(readings@) =~= observations_of(entries@));
    readings
}

/// The session and the activity of each event, as text.
pub open spec fn event_texts(events: Seq<SessionActivityPayload>) -> Seq<(Seq<char>, Seq<char>)> {
    Seq::new(events.len(), |i: int| (events[i].session_id@, events[i].activity@))
}

/// The text of each stored token.
pub open spec fn token_texts(tokens: Map<Seq<char>, String>) -> Map<Seq<char>, Seq<char>> {
    Map::new(|id: Seq<char>| tokens.contains_key(id), |id: Seq<char>| tokens[id]@)
}

/// The poller's memory: for each session of the last cycle, the token last seen.
pub struct ActivityPoller {
    last_seen: Table<String>,
}

impl View for ActivityPoller {
    type V = Map<Seq<char>, Seq<char>>;

    closed spec fn view(&self) -> Map<Seq<char>, Seq<char>> {
        token_texts(self.last_seen@)
    }
}

impl ActivityPoller {
    /// A poller that remembers the token of each reading that was readable, a
    /// later reading of a session replacing an earlier one.
    pub fn from_readings(readings: &Vec<Reading>) -> (poller: ActivityPoller)
        ensures
            poller@ == seeded(observed(readings@)),
    {
        let mut last_seen: Table<String> = Table::new();
        let ghost seen = observed(readings@);
        assert(token_texts(last_seen@) =~= seeded(seen.take(0)));
        let mut i: usize = 0;
        while i < readings.len()
            invariant
                i <= readings@.len(),
                seen == observed(readings@),
                token_texts(last_seen@) == seeded(seen.take(i as int)),
            decreases readings@.len() - i,
        {
            let reading = &readings[i];
            let ghost before = last_seen@;
            proof {
                assert(seen.take(i + 1).drop_last() =~= seen.take(i as int));
                assert(seen.take(i + 1).last() == reading@);
            }
            match &reading.token {
                Some(token) => {
                    last_seen.insert(reading.session_id.clone(), token.clone());
                    assert(token_texts(last_seen@) =~= token_texts(before).insert(
                        reading.session_id@,
                        token@,
                    ));
                },
                None => {},
            }
            i += 1;
        }
        assert(seen.take(i as int) =~= seen);
        ActivityPoller { last_seen }
    }

    /// One cycle of the poller over the tokens that were read.
    ///
    /// The readings are taken in their order. A reading without a token, of a
    /// file that could not be read, is passed over. An empty token is noted for
    /// a session not yet seen, and reported to nobody. A token that differs from
    /// the one last seen for its session and stands for an activity is reported
    /// once, and is the token last seen from then on; a token that stands for no
    /// activity is passed over. At the end the sessions that no reading named
    /// are forgotten.
    pub fn observe(&mut self, readings: &Vec<Reading>) -> (events: Vec<SessionActivityPayload>)
        ensures
            final(self)@ == seen_after_cycle(old(self)@, observed(readings@)),
            event_texts(events@) == events_of(old(self)@, observed(readings@)),
    {
        let ghost seen = observed(readings@);
        let ghost start = self@;
        let mut events: Vec<SessionActivityPayload> = Vec::new();
        assert(event_texts(events@) =~= events_of(start, seen.take(0)));
        let mut i: usize = 0;
        while i < readings.len()
            invariant
                i <= readings@.len(),
                seen == observed(readings@),
                self@ == seen_after_all(start, seen.take(i as int)),
                event_texts(events@) == events_of(start, seen.take(i as int)),
            decreases readings@.len() - i,
        {
            let reading = &readings[i];
            let ghost before = self.last_seen@;
            proof {
                assert(seen.take(i + 1).drop_last() =~= seen.take(i as int));
                assert(seen.take(i + 1).last() == reading@);
            }
            match &reading.token {
                Some(token) => {
                    if token.as_str().is_empty() {
                        assert(token@ =~= Seq::<char>::empty());
                        if !self.last_seen.contains_key(reading.session_id.as_str()) {
                            self.last_seen.insert(reading.session_id.clone(), String::new());
                            assert(self@ =~= token_texts(before).insert(
                                reading.session_id@,
                                Seq::empty(),
                            ));
                        }
                    } else {
                        let changed = match self.last_seen.get(reading.session_id.as_str()) {
                            Some(previous) => !str_eq(previous.as_str(), token.as_str()),
                            None => true,
                        };
                        if changed {
                            match classify(token.as_str()) {
                                Some(activity) => {
                                    let ghost sent = event_texts(events@);
                                    events.push(
                                        SessionActivityPayload {
                                            session_id: reading.session_id.clone(),
                                            activity: String::from_str(activity.as_str()),
                                        },
                                    );
                                    assert(event_texts(events@) =~= sent.push(
                                        (reading.session_id@, activity.name()),
                                    ));
                                    self.last_seen.insert(
                                        reading.session_id.clone(),
                                        token.clone(),
                                    );
                                    assert(self@ =~= token_texts(before).insert(
                                        reading.session_id@,
                                        token@,
                                    ));
                                },
                                None => {},
                            }
                        }
                    }
                },
                None => {},
            }
            i += 1;
        }
        assert(seen.take(i as int) =~= seen);
        let ghost after = self@;
        let mut kept: Table<String> = Table::new();
        let mut j: usize = 0;
        while j < readings.len()
            invariant
                j <= readings@.len(),
                seen == observed(readings@),
                self@ == after,
                token_texts(kept@) == after.restrict(sessions_read(seen.take(j as int))),
            decreases readings@.len() - j,
        {
            let reading = &readings[j];
            let ghost before = kept@;
            match self.last_seen.get(reading.session_id.as_str()) {
                Some(token) => {
                    kept.insert(reading.session_id.clone(), token.clone());
                    assert(token_texts(kept@) =~= token_texts(before).insert(
                        reading.session_id@,
                        after[reading.session_id@],
                    ));
                },
                None => {
                    assert(!after.contains_key(reading.session_id@));
                },
            }
            proof {
                let longer = seen.take(j + 1);
                let shorter = seen.take(j as int);
                let now = sessions_read(longer);
                let earlier = sessions_read(shorter);
                assert(longer[j as int].session_id == reading.session_id@);
                assert forall|id: Seq<char>| now.contains(id) <==> earlier.contains(id) || id
                    == reading.session_id@ by {
                    if earlier.contains(id) {
                        let k = choose|k: int|
                            0 <= k < shorter.len() && shorter[k].session_id == id;
                        assert(longer[k].session_id == id);
                    }
                    if now.contains(id) && id != reading.session_id@ {
                        let k = choose|k: int|
                            0 <= k < longer.len() && longer[k].session_id == id;
                        assert(shorter[k].session_id == id);
                    }
                }
                assert(token_texts(kept@) =~= after.restrict(now));
            }
            j += 1;
        }
        assert(seen.take(j as int) =~= seen);
        self.last_seen = kept;
        events
    }

    /// One cycle of the poller over a reading of the store: the token of each
    /// entry is its content without the white space around it, and the tokens
    /// are taken as by `observe`.
    pub fn poll(&mut self, entries: &Vec<StatusEntry>) -> (events: Vec<SessionActivityPayload>)
        ensures
            final(self)@ == seen_after_cycle(old(self)@, observations_of(entries@)),
            event_texts(events@) == events_of(old(self)@, observations_of(entries@)),
    {
        let readings = read_tokens(entries);
        self.observe(&readings)
    }

    /// The number of sessions that the poller remembers.
    pub fn len(&self) -> (n: usize)
        ensures
            n == self@.len(),
    {
        assert(self@.dom() =~= self.last_seen@.dom());
        self.last_seen.len()
    }

    /// The token last seen for a session, if the poller remembers the session.
    pub fn last_seen(&self, session_id: &str) -> (token: Option<&String>)
        ensures
            match token {
                Some(t) => self@.contains_key(session_id@) && t@ == self@[session_id@],
                None => !self@.contains_key(session_id@),
            },
    {
        self.last_seen.get(session_id)
    }
}

/// Starts the poller from a reading of the store: it remembers the token of each
/// entry that could be read, so that the state that the sessions are in already
/// is not reported again.
pub fn start_session_activity_poller(entries: &Vec<StatusEntry>) -> (poller: ActivityPoller)
    ensures
        poller@ == seeded(observations_of(entries@)),
{
    let readings = read_tokens(entries);
    ActivityPoller::from_readings(&readings)
}

} // verus!
