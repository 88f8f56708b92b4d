//! The registry of sessions, and what each request on it comes to.
//!
//! The registry owns the engine of every session, under the session's
//! identifier. A request is decided here and carried out by the caller: the
//! decision names the directory to create or remove, the size, the command and
//! the read loop of a terminal to start, or the engine to write to. The caller
//! reports a started engine back, and the registry takes it in. An engine of
//! type `E` is whatever the caller holds a pseudo-terminal in; dropping it
//! closes the terminal.

use crate::command::{
    command_argv, command_cwd, command_env, spawn_argv, spawn_command, spawn_cwd, spawn_env,
    spawn_step, spawn_step_of,
};
use crate::error::{PtyStep, SessionError};
use crate::notifications::{SessionDirPlan, SessionsDir};
use crate::pty::{pty_size, size_of, size_refusal, valid_size, PtyReader, TerminalSize};
use crate::table::{without, Table};
use crate::text::{optional_text, pair_texts, texts};
use portable_pty::CommandBuilder;
use vstd::prelude::*;
use vstd::string::*;

verus! {

/// The sessions that run, each with its engine.
pub struct PtyState<E> {
    sessions: Table<E>,
}

impl<E> View for PtyState<E> {
    type V = Map<Seq<char>, E>;

    closed spec fn view(&self) -> Map<Seq<char>, E> {
        self.sessions@
    }
}

/// A worktree that was set up for a session.
#[derive(Debug, Clone, PartialEq, Eq)]
pub struct WorktreeInfo {
    pub worktree_path: String,
    pub git_repo_path: String,
}

/// The worktrees that were set up, each under the identifier it was asked for
/// with.
pub struct WorktreeRegistry {
    worktrees: Table<WorktreeInfo>,
}

impl View for WorktreeRegistry {
    type V = Map<Seq<char>, WorktreeInfo>;

    closed spec fn view(&self) -> Map<Seq<char>, WorktreeInfo> {
        self.worktrees@
    }
}

impl WorktreeRegistry {
    /// A registry without a worktree.
    pub fn new() -> (registry: WorktreeRegistry)
        ensures
            registry@ == Map::<Seq<char>, WorktreeInfo>::empty(),
    {
        WorktreeRegistry { worktrees: Table::new() }
    }

    /// Notes the worktree that was set up under `worktree_id`.
    pub fn insert(&mut self, worktree_id: String, info: WorktreeInfo)
        ensures
            final(self)@ == old(self)@.insert(worktree_id@, info),
    {
        self.worktrees.insert(worktree_id, info);
    }

    /// Forgets the worktree under `worktree_id`.
    pub fn remove(&mut self, worktree_id: &str)
        ensures
            final(self)@ == old(self)@.remove(worktree_id@),
    {
        self.worktrees.remove(worktree_id);
    }

    /// The worktree under `worktree_id`.
    pub fn get(&self, worktree_id: &str) -> (info: Option<&WorktreeInfo>)
        ensures
            match info {
                Some(i) => self@.contains_key(worktree_id@) && *i == self@[worktree_id@],
                None => !self@.contains_key(worktree_id@),
            },
    {
        self.worktrees.get(worktree_id)
    }
}

/// What the caller does to start a session: it creates the directory and the
/// empty status file, opens a pseudo-terminal of the size, starts the command on
/// it, and runs the read loop.
pub struct SpawnRequest {
    /// The directory and the status file of the session.
    pub session_dir: SessionDirPlan,
    /// The size of the terminal.
    pub size: TerminalSize,
    /// The command to start on the terminal.
    pub command: CommandBuilder,
    /// The step that a failure to start the command is reported with.
    pub spawn_step: PtyStep,
    /// The read loop before its first read.
    pub reader: PtyReader,
}

/// The variables that tell a session's process which session it runs in.
pub open spec fn session_env(session_id: Seq<char>) -> Seq<(Seq<char>, Seq<char>)> {
    seq![("CLUTCH_SESSION_ID"@, session_id)]
}

/// Whether `request` is the request that starts the session `session_id` with
/// the given size, directory, command and shell, in the store `store`.
pub open spec fn starts_session(
    request: SpawnRequest,
    store: SessionsDir,
    session_id: Seq<char>,
    cols: u16,
    rows: u16,
    working_dir: Option<Seq<char>>,
    command: Option<Seq<char>>,
    shell: Option<Seq<char>>,
) -> bool {
    &&& request.session_dir.dir@ == store.dir_of(session_id)
    &&& request.session_dir.status_file@ == store.status_of(session_id)
    &&& request.size == size_of(cols, rows)
    &&& command_argv(request.command) == spawn_argv(shell, working_dir, command)
    &&& command_cwd(request.command) == spawn_cwd(working_dir, command)
    &&& command_env(request.command) == spawn_env(session_env(session_id))
    &&& request.spawn_step == spawn_step_of(command)
    &&& request.reader@.session_id == session_id
    &&& request.reader@.pending == Seq::<u8>::empty()
    &&& !request.reader@.finished
}

/// What a request to create a session comes to.
pub enum CreateDecision {
    /// The session runs already: nothing is done.
    AlreadyPresent,
    /// The size is refused: nothing is done, and the caller is told.
    Refused,
    /// A terminal is started.
    Spawn,
}

/// What a request to create the session `session_id` comes to, in a registry
/// that holds `sessions`.
pub open spec fn create_decision<E>(
    sessions: Map<Seq<char>, E>,
    session_id: Seq<char>,
    cols: u16,
    rows: u16,
) -> CreateDecision {
    if sessions.contains_key(session_id) {
        CreateDecision::AlreadyPresent
    } else if !valid_size(cols, rows) {
        CreateDecision::Refused
    } else {
        CreateDecision::Spawn
    }
}

/// The registry after the caller has reported how the start of a session went:
/// an engine that was started is held under the session's identifier, a failure
/// leaves the registry as it was.
pub open spec fn after_start<E>(
    sessions: Map<Seq<char>, E>,
    session_id: Seq<char>,
    outcome: Result<E, SessionError>,
) -> Map<Seq<char>, E> {
    match outcome {
        Ok(engine) => sessions.insert(session_id, engine),
        Err(_) => sessions,
    }
}

/// The outcome that an engine which was started is reported with.
pub open spec fn started<E>(engine: E) -> Result<E, SessionError> {
    Ok(engine)
}

/// A session that was started is not started a second time: once its engine is
/// in the registry, every request to create it is decided as `AlreadyPresent`,
/// whatever size it asks for, and the registry holds the one engine under the
/// session's identifier.
pub proof fn lemma_created_once<E>(
    sessions: Map<Seq<char>, E>,
    session_id: Seq<char>,
    engine: E,
    cols: u16,
    rows: u16,
)
    ensures
        create_decision(after_start(sessions, session_id, started(engine)), session_id, cols, rows)
            is AlreadyPresent,
        after_start(sessions, session_id, started(engine)).contains_key(session_id),
        after_start(sessions, session_id, started(engine))[session_id] == engine,
{
}

/// A session whose start failed is as absent as before: the registry is as it
/// was, and a request to create the session is decided as it was before.
pub proof fn lemma_failed_start_leaves_no_entry<E>(
    sessions: Map<Seq<char>, E>,
    session_id: Seq<char>,
    outcome: Result<E, SessionError>,
    cols: u16,
    rows: u16,
)
    requires
        outcome is Err,
    ensures
        after_start(sessions, session_id, outcome) == sessions,
        create_decision(after_start(sessions, session_id, outcome), session_id, cols, rows)
            == create_decision(sessions, session_id, cols, rows),
{
}

/// A session that was restarted has one engine, the new one: ending the session
/// and taking in the engine that was started for it leaves the registry as it
/// was but for the session, which now has the new engine. The engine that the
/// session had is in the registry no longer, unless another session holds an
/// equal one.
pub proof fn lemma_restart_replaces_engine<E>(
    sessions: Map<Seq<char>, E>,
    session_id: Seq<char>,
    engine: E,
)
    ensures
        after_start(sessions.remove(session_id), session_id, started(engine)) == sessions.insert(
            session_id,
            engine,
        ),
        !sessions.remove(session_id).contains_key(session_id),
        forall|other: Seq<char>|
            other != session_id ==> (#[trigger] sessions.insert(session_id, engine).contains_key(
                other,
            ) <==> sessions.contains_key(other)),
        forall|other: Seq<char>|
            other != session_id && sessions.contains_key(other) ==> (#[trigger] sessions.insert(
                session_id,
                engine,
            )[other]) == sessions[other],
{
    assert(sessions.remove(session_id).insert(session_id, engine) =~= sessions.insert(
        session_id,
        engine,
    ));
}

/// Ending a session twice is ending it once, and ending a session that does not
/// run changes nothing.
pub proof fn lemma_destroy_is_idempotent<E>(sessions: Map<Seq<char>, E>, session_id: Seq<char>)
    ensures
        sessions.remove(session_id).remove(session_id) == sessions.remove(session_id),
        !sessions.contains_key(session_id) ==> sessions.remove(session_id) == sessions,
{
    assert(sessions.remove(session_id).remove(session_id) =~= sessions.remove(session_id));
    if !sessions.contains_key(session_id) {
        assert(sessions.remove(session_id) =~= sessions);
    }
}

/// A second shutdown finds nothing to do: in a registry without a session no
/// directory is named for removal.
pub proof fn lemma_second_cleanup_removes_nothing(store: SessionsDir)
    ensures
        store.dirs_of(Seq::<Seq<char>>::empty()) == Seq::<Seq<char>>::empty(),
{
    assert(store.dirs_of(Seq::<Seq<char>>::empty()) =~= Seq::<Seq<char>>::empty());
}

/// The order of the sessions after the caller has reported how the start of a
/// session went: a session that is new comes last, everything else is as it was.
pub open spec fn order_after_start<E>(
    order: Seq<Seq<char>>,
    session_id: Seq<char>,
    outcome: Result<E, SessionError>,
) -> Seq<Seq<char>> {
    if outcome is Ok && !order.contains(session_id) {
        order.push(session_id)
    } else {
        order
    }
}

/// The order of the sessions after a session has ended: the others keep their
/// order.
pub open spec fn order_after_end(order: Seq<Seq<char>>, session_id: Seq<char>) -> Seq<Seq<char>> {
    if order.contains(session_id) {
        without(order, session_id)
    } else {
        order
    }
}

impl<E> PtyState<E> {
    /// The identifiers of the sessions, in the order in which they were started.
    pub closed spec fn order(&self) -> Seq<Seq<char>> {
        self.sessions.keys()
    }

    /// The sessions in their order are the sessions of the registry.
    pub proof fn lemma_order(&self)
        ensures
            forall|id: Seq<char>| self.order().contains(id) <==> self@.contains_key(id),
    {
        self.sessions.lemma_keys_are_domain();
    }

    /// A registry without a session.
    pub fn new() -> (state: Self)
        ensures
            state@ == Map::<Seq<char>, E>::empty(),
            state.order() == Seq::<Seq<char>>::empty(),
    {
        PtyState { sessions: Table::new() }
    }

    /// The number of sessions.
    pub fn len(&self) -> (n: usize)
        ensures
            n == self@.len(),
            n == self.order().len(),
    {
        self.sessions.len()
    }

    /// Whether the session `session_id` runs.
    pub fn contains(&self, session_id: &str) -> (present: bool)
        ensures
            present == self@.contains_key(session_id@),
    {
        self.sessions.contains_key(session_id)
    }

    /// The engine of the session `session_id`.
    pub fn get(&self, session_id: &str) -> (engine: Option<&E>)
        ensures
            match engine {
                Some(e) => self@.contains_key(session_id@) && *e == self@[session_id@],
                None => !self@.contains_key(session_id@),
            },
    {
        self.sessions.get(session_id)
    }

    /// The identifiers of the sessions, in the order in which they were started.
    /// Each session is named once.
    pub fn session_ids(&self) -> (ids: Vec<String>)
        ensures
            texts(ids@) == self.order(),
            self.order().no_duplicates(),
            self.order().to_set() == self@.dom(),
    {
        self.sessions.key_list()
    }
}

/// The request that starts the session `session_id`. A size without columns or
/// rows is refused with `PtyOpenFailed`.
pub fn spawn_request(
    sessions_dir: &SessionsDir,
    session_id: &str,
    cols: u16,
    rows: u16,
    working_dir: Option<String>,
    command: Option<String>,
    shell: Option<String>,
) -> (request: Result<SpawnRequest, SessionError>)
    ensures
        valid_size(cols, rows) ==> request is Ok && starts_session(
            request->Ok_0,
            *sessions_dir,
            session_id@,
            cols,
            rows,
            optional_text(working_dir),
            optional_text(command),
            optional_text(shell),
        ),
        !valid_size(cols, rows) ==> request is Err && request->Err_0.reports(PtyStep::OpenPty)
            && request->Err_0.detail() == PtyStep::OpenPty.message(size_refusal()),
{
    let size = match pty_size(PtyStep::OpenPty, cols, rows) {
        Ok(size) => size,
        Err(error) => {
            return Err(error);
        },
    };
    let session_dir = sessions_dir.create_session_dir(session_id);
    let env_vars = vec![(String::from_str("CLUTCH_SESSION_ID"), String::from_str(session_id))];
    assert(pair_texts(env_vars@) =~= session_env(session_id@));
    let spawn_step = spawn_step(&command);
    let command = spawn_command(shell, working_dir, command, env_vars);
    let reader = PtyReader::new(String::from_str(session_id));
    Ok(SpawnRequest { session_dir, size, command, spawn_step, reader })
}

/// Decides a request to create a session.
///
/// A session that runs already is left alone: the answer is `Ok(None)`, and no
/// second process is started. A size without columns or rows is refused with
/// `PtyOpenFailed`. Otherwise the answer is the request that starts the session.
/// The registry does not change until the caller reports the engine with
/// `attach_session`.
pub fn create_session<E>(
    state: &PtyState<E>,
    sessions_dir: &SessionsDir,
    session_id: &str,
    cols: u16,
    rows: u16,
    working_dir: Option<String>,
    command: Option<String>,
    shell: Option<String>,
) -> (decision: Result<Option<SpawnRequest>, SessionError>)
    ensures
        match create_decision(state@, session_id@, cols, rows) {
            CreateDecision::AlreadyPresent => decision is Ok && decision->Ok_0 is None,
            CreateDecision::Refused => decision is Err && decision->Err_0.reports(PtyStep::OpenPty)
                && decision->Err_0.detail() == PtyStep::OpenPty.message(size_refusal()),
            CreateDecision::Spawn => decision is Ok && decision->Ok_0 is Some && starts_session(
                decision->Ok_0->Some_0,
                *sessions_dir,
                session_id@,
                cols,
                rows,
                optional_text(working_dir),
                optional_text(command),
                optional_text(shell),
            ),
        },
{
    if state.contains(session_id) {
        return Ok(None);
    }
    match spawn_request(sessions_dir, session_id, cols, rows, working_dir, command, shell) {
        Ok(request) => Ok(Some(request)),
        Err(error) => Err(error),
    }
}

/// Takes in what the caller reports of the start of a session. An engine that
/// was started is held under `session_id` from now on; a failure is handed on,
/// and the session stays absent.
pub fn attach_session<E>(
    state: &mut PtyState<E>,
    session_id: String,
    outcome: Result<E, SessionError>,
) -> (result: Result<(), SessionError>)
    ensures
        final(state)@ == after_start(old(state)@, session_id@, outcome),
        final(state).order() == order_after_start(old(state).order(), session_id@, outcome),
        outcome is Ok ==> result is Ok,
        outcome is Err ==> result is Err && result->Err_0 == outcome->Err_0,
{
    proof {
        state.lemma_order();
    }
    match outcome {
        Ok(engine) => {
            state.sessions.insert(session_id, engine);
            Ok(())
        },
        Err(error) => Err(error),
    }
}

/// What the caller does to end a session: it drops the engine, which closes the
/// terminal, and removes the directory with all below it.
pub struct Teardown<E> {
    /// The engine that the session had, if it ran.
    pub engine: Option<E>,
    /// The session's directory in the store.
    pub session_dir: String,
}

/// Ends a session. The session leaves the registry; one that did not run is no
/// error.
pub fn destroy_session<E>(state: &mut PtyState<E>, sessions_dir: &SessionsDir, session_id: &str) -> (teardown: Teardown<E>)
    ensures
        final(state)@ == old(state)@.remove(session_id@),
        final(state).order() == order_after_end(old(state).order(), session_id@),
        old(state)@.contains_key(session_id@) ==> teardown.engine == Some(
            old(state)@[session_id@],
        ),
        !old(state)@.contains_key(session_id@) ==> teardown.engine is None,
        teardown.session_dir@ == sessions_dir.dir_of(session_id@),
{
    proof {
        state.lemma_order();
    }
    let engine = state.sessions.remove(session_id);
    let session_dir = sessions_dir.remove_session_dir(session_id);
    Teardown { engine, session_dir }
}

/// What the caller does to restart a session: it drops the engine that the
/// session had, and starts the session anew where the request is there.
pub struct Restart<E> {
    /// The engine that the session had, if it ran.
    pub previous: Option<E>,
    /// The request that starts the session anew, or why it is not started.
    pub request: Result<SpawnRequest, SessionError>,
}

/// Restarts a session: the session leaves the registry, as by
/// `destroy_session`, and is then created, as by `create_session`. Its
/// directory is kept, and its status file is made empty again by the request.
pub fn restart_session<E>(
    state: &mut PtyState<E>,
    sessions_dir: &SessionsDir,
    session_id: &str,
    cols: u16,
    rows: u16,
    working_dir: Option<String>,
    command: Option<String>,
    shell: Option<String>,
) -> (restart: Restart<E>)
    ensures
        final(state)@ == old(state)@.remove(session_id@),
        final(state).order() == order_after_end(old(state).order(), session_id@),
        old(state)@.contains_key(session_id@) ==> restart.previous == Some(
            old(state)@[session_id@],
        ),
        !old(state)@.contains_key(session_id@) ==> restart.previous is None,
        valid_size(cols, rows) ==> restart.request is Ok && starts_session(
            restart.request->Ok_0,
            *sessions_dir,
            session_id@,
            cols,
            rows,
            optional_text(working_dir),
            optional_text(command),
            optional_text(shell),
        ),
        !valid_size(cols, rows) ==> restart.request is Err && restart.request->Err_0.reports(
            PtyStep::OpenPty,
        ) && restart.request->Err_0.detail() == PtyStep::OpenPty.message(size_refusal()),
{
    proof {
        state.lemma_order();
    }
    let previous = state.sessions.remove(session_id);
    let request = spawn_request(
        sessions_dir,
        session_id,
        cols,
        rows,
        working_dir,
        command,
        shell,
    );
    Restart { previous, request }
}

/// Decides a request to write to a session: the engine to write to and the
/// bytes to write, which are those of `data`. A session that does not run is
/// answered with `SessionNotFound`.
pub fn session_write<'a, E>(state: &'a PtyState<E>, session_id: &str, data: &'a str) -> (target: Result<
    (&'a E, &'a [u8]),
    SessionError,
>)
    ensures
        state@.contains_key(session_id@) ==> target is Ok && *target->Ok_0.0 == state@[session_id@]
            && target->Ok_0.1@ == data.spec_bytes(),
        !state@.contains_key(session_id@) ==> target is Err && target->Err_0 is SessionNotFound
            && target->Err_0.detail() == session_id@,
{
    match state.sessions.get(session_id) {
        Some(engine) => Ok((engine, data.as_bytes())),
        None => Err(SessionError::not_found(session_id)),
    }
}

/// Decides a request to resize a session: the engine to resize and its new
/// size. A session that does not run is answered with `SessionNotFound`; for
/// one that runs, a size without columns or rows is refused with
/// `ResizeFailed`, and the terminal is left as it is.
pub fn session_resize<'a, E>(state: &'a PtyState<E>, session_id: &str, cols: u16, rows: u16) -> (target: Result<
    (&'a E, TerminalSize),
    SessionError,
>)
    ensures
        state@.contains_key(session_id@) && valid_size(cols, rows) ==> target is Ok
            && *target->Ok_0.0 == state@[session_id@] && target->Ok_0.1 == size_of(cols, rows),
        state@.contains_key(session_id@) && !valid_size(cols, rows) ==> target is Err
            && target->Err_0.reports(PtyStep::Resize) && target->Err_0.detail()
            == PtyStep::Resize.message(size_refusal()),
        !state@.contains_key(session_id@) ==> target is Err && target->Err_0 is SessionNotFound
            && target->Err_0.detail() == session_id@,
{
    match state.sessions.get(session_id) {
        Some(engine) => {
            match pty_size(PtyStep::Resize, cols, rows) {
                Ok(size) => Ok((engine, size)),
                Err(error) => Err(error),
            }
        },
        None => Err(SessionError::not_found(session_id)),
    }
}

/// Ends every session, as the process shuts down. The registry is left empty,
/// every engine is dropped, and the answer names the directory of each session
/// that ran, in the order in which the sessions were started, for the caller to
/// remove.
pub fn cleanup_all<E>(state: &mut PtyState<E>, sessions_dir: &SessionsDir) -> (dirs: Vec<String>)
    ensures
        final(state)@ == Map::<Seq<char>, E>::empty(),
        final(state).order() == Seq::<Seq<char>>::empty(),
        texts(dirs@) == sessions_dir.dirs_of(old(state).order()),
        old(state).order().to_set() == old(state)@.dom(),
        old(state).order().no_duplicates(),
        dirs@.len() == old(state)@.len(),
{
    let ghost order = state.order();
    let n = state.len();
    let session_ids = state.sessions.clear();
    let mut dirs: Vec<String> = Vec::new();
    let mut i: usize = 0;
    while i < session_ids.len()
        invariant
            i <= session_ids@.len(),
            texts(session_ids@) == order,
            dirs@.len() == i,
            forall|j: int| 0 <= j < i ==> (#[trigger] dirs@[j])@ == sessions_dir.dir_of(order[j]),
        decreases session_ids@.len() - i,
    {
        assert(texts(session_ids@)[i as int] == session_ids@[i as int]@);
        dirs.push(sessions_dir.remove_session_dir(session_ids[i].as_str()));
        i += 1;
    }
    assert(texts(dirs@) =~= sessions_dir.dirs_of(order));
    dirs
}

} // verus!
