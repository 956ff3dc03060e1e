//! The persisted record of one unit of work and its lifecycle state machine.

use vstd::prelude::*;

verus! {

/// Lifecycle state of a session.
#[derive(Clone, Copy, Debug, PartialEq, Eq, Structural)]
pub enum SessionStatus {
    Queued,
    Running,
    NeedsInput,
    Done,
    Failed,
}

/// The status glyph shown in session lists.
pub open spec fn spec_icon(st: SessionStatus) -> Seq<char> {
    match st {
        SessionStatus::Queued => "○"@,
        SessionStatus::Running => "●"@,
        SessionStatus::NeedsInput => "◆"@,
        SessionStatus::Done => "✓"@,
        SessionStatus::Failed => "✗"@,
    }
}

impl SessionStatus {
    pub fn icon(&self) -> (r: &'static str)
        ensures
            r@ == spec_icon(*self),
    {
        match self {
            SessionStatus::Queued => "○",
            SessionStatus::Running => "●",
            SessionStatus::NeedsInput => "◆",
            SessionStatus::Done => "✓",
            SessionStatus::Failed => "✗",
        }
    }
}

/// The transition table of the state machine: exactly these (source, target)
/// pairs are accepted, every other pair is rejected.
pub open spec fn allowed_transition(from: SessionStatus, to: SessionStatus) -> bool {
    ||| (from == SessionStatus::Queued && to == SessionStatus::Running)
    ||| (from == SessionStatus::Running && to == SessionStatus::Done)
    ||| (from == SessionStatus::Running && to == SessionStatus::Failed)
    ||| (from == SessionStatus::Running && to == SessionStatus::NeedsInput)
    ||| (from == SessionStatus::NeedsInput && to == SessionStatus::Running)
    ||| (from == SessionStatus::Failed && to == SessionStatus::Running)
    ||| (from == SessionStatus::Done && to == SessionStatus::Queued)
}

/// The diagnostic message reported for a rejected (source, target) pair.
pub open spec fn rejection_message(from: SessionStatus, to: SessionStatus) -> Seq<char> {
    if from == SessionStatus::Queued && to == SessionStatus::Done {
        "Cannot complete without running"@
    } else if from == SessionStatus::Queued && to == SessionStatus::NeedsInput {
        "Cannot need input without running"@
    } else if from == SessionStatus::Done && to == SessionStatus::Running {
        "Must go through Queued first"@
    } else if from == SessionStatus::Done && to == SessionStatus::Failed {
        "Already completed successfully"@
    } else if from == SessionStatus::Failed && to == SessionStatus::Done {
        "Must re-run through Running first"@
    } else {
        "Invalid state transition"@
    }
}

/// One tracked unit of work: identity, target directory, lifecycle status,
/// instruction text, log file location, exit outcome and timestamps.
/// Timestamps are milliseconds since the Unix epoch.
#[derive(Clone, Debug)]
pub struct Session {
    pub id: u128,
    pub name: String,
    pub root_path: String,
    pub status: SessionStatus,
    /// OS process id of the live child; present only while a bridge exists.
    pub pty_pid: Option<u32>,
    pub instruction: Option<String>,
    pub log_path: String,
    pub exit_code: Option<i32>,
    pub created_at: i64,
    pub updated_at: i64,
}

/// The hyphenated text form of a 128-bit session identifier.
pub uninterp spec fn uuid_hyphenated(id: u128) -> Seq<char>;

/// Relies on uuid::Uuid::new_v4 for a freshly generated random identifier;
/// nothing is assumed about the value.
#[verifier::external_body]
fn fresh_session_id() -> (id: u128) {
    uuid::Uuid::new_v4().as_u128()
}

/// Relies on uuid::Uuid::to_string (via Uuid::from_u128): the hyphenated
/// lowercase form of the identifier, 36 characters long, a function of the
/// identifier alone.
#[verifier::external_body]
fn session_id_string(id: u128) -> (r: String)
    ensures
        r@ == uuid_hyphenated(id),
        r@.len() == 36,
{
    uuid::Uuid::from_u128(id).to_string()
}

/// Relies on chrono::Utc::now and DateTime::timestamp_millis: the current
/// wall-clock time in milliseconds since the Unix epoch; nothing is assumed
/// about the value.
#[verifier::external_body]
pub fn now_millis() -> (t: i64) {
    chrono::Utc::now().timestamp_millis()
}

impl Session {
    /// A fresh session: queued, no live process, no exit outcome, with its
    /// durable log file placed under `logs_root` and named after its id.
    pub fn new(name: String, root_path: String, logs_root: &str) -> (s: Session)
        ensures
            s.name@ == name@,
            s.root_path@ == root_path@,
            s.status == SessionStatus::Queued,
            s.pty_pid is None,
            s.instruction is None,
            s.exit_code is None,
            s.created_at == s.updated_at,
            s.log_path@ == logs_root@ + "/"@ + uuid_hyphenated(s.id) + ".log"@,
    {
        let id = fresh_session_id();
        let now = now_millis();
        let id_str = session_id_string(id);
        let mut log_path = logs_root.to_owned();
        log_path.append("/");
        log_path.append(id_str.as_str());
        log_path.append(".log");
        Session {
            id,
            name,
            root_path,
            status: SessionStatus::Queued,
            pty_pid: None,
            instruction: None,
            log_path,
            exit_code: None,
            created_at: now,
            updated_at: now,
        }
    }

    /// Whether the state machine accepts a move from the current status to
    /// `target`; on rejection, the error identifies the invalid transition.
    pub fn can_transition_to(&self, target: &SessionStatus) -> (r: Result<(), &'static str>)
        ensures
            r is Ok <==> allowed_transition(self.status, *target),
            r matches Err(e) ==> e@ == rejection_message(self.status, *target),
    {
        match (&self.status, target) {
            (SessionStatus::Queued, SessionStatus::Running) => Ok(()),
            (SessionStatus::Running, SessionStatus::Done) => Ok(()),
            (SessionStatus::Running, SessionStatus::Failed) => Ok(()),
            (SessionStatus::Running, SessionStatus::NeedsInput) => Ok(()),
            (SessionStatus::NeedsInput, SessionStatus::Running) => Ok(()),
            (SessionStatus::Failed, SessionStatus::Running) => Ok(()),
            (SessionStatus::Done, SessionStatus::Queued) => Ok(()),
            (SessionStatus::Queued, SessionStatus::Done) => Err("Cannot complete without running"),
            (SessionStatus::Queued, SessionStatus::NeedsInput) => Err(
                "Cannot need input without running",
            ),
            (SessionStatus::Done, SessionStatus::Running) => Err("Must go through Queued first"),
            (SessionStatus::Done, SessionStatus::Failed) => Err("Already completed successfully"),
            (SessionStatus::Failed, SessionStatus::Done) => Err(
                "Must re-run through Running first",
            ),
            _ => Err("Invalid state transition"),
        }
    }

    /// Either moves to `target` and refreshes `updated_at` to `now_ms`, or
    /// rejects the move and leaves the session untouched.
    pub fn transition_to(&mut self, target: SessionStatus, now_ms: i64) -> (r: Result<
        (),
        &'static str,
    >)
        ensures
            r is Ok <==> allowed_transition(old(self).status, target),
            r is Ok ==> *final(self) == (Session {
                status: target,
                updated_at: now_ms,
                ..*old(self)
            }),
            r is Err ==> *final(self) == *old(self),
            r matches Err(e) ==> e@ == rejection_message(old(self).status, target),
    {
        let check = self.can_transition_to(&target);
        match check {
            Ok(()) => {
                self.status = target;
                self.updated_at = now_ms;
                Ok(())
            },
            Err(e) => Err(e),
        }
    }
}


/// What a session looks like after a reload: a persisted `Running` or
/// `NeedsInput` status falls back to `Queued` with the transient process id
/// cleared, because no live bridge survives a restart; everything else is
/// kept verbatim.
pub open spec fn spec_reloaded(s: Session) -> Session {
    if s.status == SessionStatus::Running || s.status == SessionStatus::NeedsInput {
        Session { status: SessionStatus::Queued, pty_pid: None, ..s }
    } else {
        s
    }
}

/// Normalize a freshly loaded session list: every session persisted as
/// `Running` or `NeedsInput` becomes `Queued` with no process id; all other
/// sessions are untouched.
pub fn normalize_loaded(sessions: &mut Vec<Session>)
    ensures
        final(sessions)@.len() == old(sessions)@.len(),
        forall|i: int|
            0 <= i < old(sessions)@.len() ==> final(sessions)@[i] == spec_reloaded(
                old(sessions)@[i],
            ),
{
    let ghost orig = sessions@;
    let mut i: usize = 0;
    while i < sessions.len()
        invariant
            i <= sessions@.len(),
            sessions@.len() == orig.len(),
            forall|j: int| 0 <= j < i ==> sessions@[j] == spec_reloaded(orig[j]),
            forall|j: int| i <= j < orig.len() ==> sessions@[j] == orig[j],
        decreases sessions@.len() - i,
    {
        let st = sessions[i].status;
        if st == SessionStatus::Running || st == SessionStatus::NeedsInput {
            let mut s = sessions.remove(i);
            s.status = SessionStatus::Queued;
            s.pty_pid = None;
            sessions.insert(i, s);
        }
        i = i + 1;
    }
}

/// How many sessions hold each status, for the status bar's summary.
pub struct StatusCounts {
    pub queued: usize,
    pub running: usize,
    pub needs_input: usize,
    pub done: usize,
    pub failed: usize,
}

/// The number of sessions with a given status among the first `n`.
pub open spec fn count_status(sessions: Seq<Session>, st: SessionStatus) -> int
    decreases sessions.len(),
{
    if sessions.len() == 0 {
        0
    } else {
        count_status(sessions.drop_last(), st) + if sessions.last().status == st {
            1int
        } else {
            0int
        }
    }
}

/// Count the sessions in each lifecycle state.
pub fn status_counts(sessions: &Vec<Session>) -> (c: StatusCounts)
    ensures
        c.queued == count_status(sessions@, SessionStatus::Queued),
        c.running == count_status(sessions@, SessionStatus::Running),
        c.needs_input == count_status(sessions@, SessionStatus::NeedsInput),
        c.done == count_status(sessions@, SessionStatus::Done),
        c.failed == count_status(sessions@, SessionStatus::Failed),
{
    let mut c = StatusCounts { queued: 0, running: 0, needs_input: 0, done: 0, failed: 0 };
    let mut i: usize = 0;
    while i < sessions.len()
        invariant
            i <= sessions@.len(),
            c.queued == count_status(sessions@.take(i as int), SessionStatus::Queued),
            c.running == count_status(sessions@.take(i as int), SessionStatus::Running),
            c.needs_input == count_status(sessions@.take(i as int), SessionStatus::NeedsInput),
            c.done == count_status(sessions@.take(i as int), SessionStatus::Done),
            c.failed == count_status(sessions@.take(i as int), SessionStatus::Failed),
            c.queued + c.running + c.needs_input + c.done + c.failed == i,
        decreases sessions@.len() - i,
    {
        proof {
            assert(sessions@.take(i + 1).drop_last() =~= sessions@.take(i as int));
            assert(sessions@.take(i + 1).last() == sessions@[i as int]);
        }
        let st = sessions[i].status;
        match st {
            SessionStatus::Queued => {
                c.queued = c.queued + 1;
            },
            SessionStatus::Running => {
                c.running = c.running + 1;
            },
            SessionStatus::NeedsInput => {
                c.needs_input = c.needs_input + 1;
            },
            SessionStatus::Done => {
                c.done = c.done + 1;
            },
            SessionStatus::Failed => {
                c.failed = c.failed + 1;
            },
        }
        i = i + 1;
    }
    proof {
        assert(sessions@.take(sessions@.len() as int) =~= sessions@);
    }
    c
}

/// The four-line header written at the top of a session's durable log file:
/// the name, the working directory, the start time (already formatted), and
/// a separator, each on its own line.
pub fn log_header(name: &str, directory: &str, started: &str) -> (r: String)
    ensures
        r@ == "# Session: "@ + name@ + "\n# Directory: "@ + directory@ + "\n# Started: "@
            + started@ + "\n---\n"@,
{
    let mut r: String = "# Session: ".to_owned();
    r.append(name);
    r.append("\n# Directory: ");
    r.append(directory);
    r.append("\n# Started: ");
    r.append(started);
    r.append("\n---\n");
    r
}


/// Accepted transitions refresh `updated_at` to the supplied clock, so the
/// timestamp advances whenever the caller's clock does not run backwards —
/// the one assumption this needs, since the clock is an input here.
pub proof fn lemma_transition_advances(
    before: Session,
    after: Session,
    target: SessionStatus,
    now_ms: i64,
)
    requires
        allowed_transition(before.status, target),
        after == (Session { status: target, updated_at: now_ms, ..before }),
        now_ms >= before.updated_at,
    ensures
        after.status == target,
        after.updated_at >= before.updated_at,
{
}

} // verus!
