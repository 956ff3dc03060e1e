//! The session orchestrator: user-input handling and the periodic
//! reconciliation of session state against the live process bridges.
//!
//! The controller owns no process, terminal or file handle. Everything it
//! decides is returned as [`Action`] values that the surrounding program
//! carries out; everything it needs from outside (key strokes, drained
//! output, exit reports, the clock) comes in as plain values.

use vstd::prelude::*;
use vstd::string::StringSliceAdditionalSpecFns;
use std::collections::HashMap;
use std::collections::HashSet;
use crate::config::AppConfig;
use crate::log_store::{append_chunk, last_non_empty, session_lines, LogStore};
use crate::needs_input::{needs_input_line, NeedsInputDetector};
use crate::session::{allowed_transition, Session, SessionStatus};

verus! {

/// The focusable panels, in tab order.
#[derive(Clone, Copy, Debug, PartialEq, Eq, Structural)]
pub enum Panel {
    SessionList,
    DirTree,
    FilePreview,
    Log,
    Input,
}

pub open spec fn spec_next_panel(p: Panel) -> Panel {
    match p {
        Panel::SessionList => Panel::DirTree,
        Panel::DirTree => Panel::FilePreview,
        Panel::FilePreview => Panel::Log,
        Panel::Log => Panel::Input,
        Panel::Input => Panel::SessionList,
    }
}

pub open spec fn spec_prev_panel(p: Panel) -> Panel {
    match p {
        Panel::SessionList => Panel::Input,
        Panel::DirTree => Panel::SessionList,
        Panel::FilePreview => Panel::DirTree,
        Panel::Log => Panel::FilePreview,
        Panel::Input => Panel::Log,
    }
}

impl Panel {
    pub fn next(self) -> (r: Panel)
        ensures
            r == spec_next_panel(self),
    {
        match self {
            Panel::SessionList => Panel::DirTree,
            Panel::DirTree => Panel::FilePreview,
            Panel::FilePreview => Panel::Log,
            Panel::Log => Panel::Input,
            Panel::Input => Panel::SessionList,
        }
    }

    pub fn prev(self) -> (r: Panel)
        ensures
            r == spec_prev_panel(self),
    {
        match self {
            Panel::SessionList => Panel::Input,
            Panel::DirTree => Panel::SessionList,
            Panel::FilePreview => Panel::DirTree,
            Panel::Log => Panel::FilePreview,
            Panel::Input => Panel::Log,
        }
    }
}

/// Whether the log panel shows one session or all of them interleaved.
#[derive(Clone, Copy, Debug, PartialEq, Eq, Structural)]
pub enum LogMode {
    Individual,
    Unified,
}

/// Which field the session-creation dialog is asking for.
#[derive(Clone, Copy, Debug, PartialEq, Eq, Structural)]
pub enum CreateStep {
    Name,
    Path,
}

/// A decoded key press.
#[derive(Clone, Copy, Debug, PartialEq, Eq, Structural)]
pub enum KeyPress {
    Char(char),
    Up,
    Down,
    Enter,
    Escape,
    Backspace,
    Tab,
    Other,
}

/// A key press together with whether the control modifier was held.
#[derive(Clone, Copy, Debug, PartialEq, Eq, Structural)]
pub struct KeyInput {
    pub code: KeyPress,
    pub ctrl: bool,
}

/// An effect the surrounding program must carry out on the controller's
/// behalf. Everything that touches a process, a terminal or a file is here.
#[derive(Debug, PartialEq)]
pub enum Action {
    /// Stop the program.
    Quit,
    /// Write the interrupt control byte to the session's bridge.
    SendInterrupt { session_id: u128 },
    /// Write text (already newline-terminated) to the session's bridge.
    SendText { session_id: u128, text: String },
    /// Spawn a bridge rooted at the session's directory; report back through
    /// `spawn_succeeded` or `spawn_failed`, then send `instruction`.
    SpawnRequest { session_id: u128, root_path: String, instruction: String },
    /// Write the durable log header for a session that just started.
    WriteLogHeader { session_id: u128 },
    /// Append one drained chunk to the session's durable log file.
    AppendLogFile { log_path: String, data: Vec<u8> },
    /// Drop the bridge of a session whose process ended or that was deleted.
    RemoveBridge { session_id: u128 },
    /// Persist the session list.
    SaveSessions,
    /// Validate the dialog's directory and, if it exists, call
    /// `create_session` with these texts (an empty name or path gets its
    /// default there).
    CreateSessionRequest { name: String, path_text: String },
}

/// What one poll of a session's bridge yielded: the drained output chunks in
/// arrival order, and the exit outcome if the process was seen to end.
pub struct BridgeReport {
    pub session_id: u128,
    pub chunks: Vec<Vec<u8>>,
    pub exit: Option<ExitReport>,
}

/// The termination outcome of a bridge's process.
#[derive(Clone, Copy, Debug, PartialEq, Eq, Structural)]
pub struct ExitReport {
    pub success: bool,
    pub exit_code: u32,
}

/// The line buffer of `lines` after appending every chunk in order.
pub open spec fn apply_chunks(lines: Seq<Seq<u8>>, chunks: Seq<Seq<u8>>) -> Seq<Seq<u8>>
    decreases chunks.len(),
{
    if chunks.len() == 0 {
        lines
    } else {
        append_chunk(apply_chunks(lines, chunks.drop_last()), chunks.last())
    }
}

/// Whether the needs-input heuristic fires on the newest non-empty line of a
/// buffer.
pub open spec fn detects_prompt(lines: Seq<Seq<u8>>) -> bool {
    match last_non_empty(lines) {
        Some(l) => needs_input_line(l),
        None => false,
    }
}

pub open spec fn chunk_views(chunks: Seq<Vec<u8>>) -> Seq<Seq<u8>> {
    chunks.map_values(|c: Vec<u8>| c@)
}

/// Relies on String::push: appends one character.
#[verifier::external_body]
fn push_char(s: &mut String, c: char)
    ensures
        final(s)@ == old(s)@.push(c),
{
    s.push(c);
}

/// Relies on String::pop: removes the last character, if any.
#[verifier::external_body]
fn pop_char(s: &mut String)
    ensures
        old(s)@.len() > 0 ==> final(s)@ == old(s)@.drop_last(),
        old(s)@.len() == 0 ==> final(s)@ == old(s)@,
{
    let _ = s.pop();
}


/// Session `i` of `c` matches this report and was actually polled: it is
/// running or waiting for input, and it has a live bridge.
pub open spec fn report_handled(c: Controller, rep: BridgeReport, i: int) -> bool {
    &&& 0 <= i < c.sessions@.len()
    &&& c.sessions@[i].id == rep.session_id
    &&& (c.sessions@[i].status == SessionStatus::Running || c.sessions@[i].status
        == SessionStatus::NeedsInput)
    &&& c.live().contains(rep.session_id)
}

/// The session's log lines after the report's chunks are appended.
pub open spec fn lines_after(c: Controller, rep: BridgeReport) -> Seq<Seq<u8>> {
    apply_chunks(session_lines(c.log_store@, rep.session_id), chunk_views(rep.chunks@))
}

/// The report made the heuristic fire: the session was running, produced
/// output, and its newest non-empty line looks like a prompt.
pub open spec fn prompt_detected(c: Controller, rep: BridgeReport, i: int) -> bool {
    &&& report_handled(c, rep, i)
    &&& rep.chunks@.len() > 0
    &&& c.sessions@[i].status == SessionStatus::Running
    &&& detects_prompt(lines_after(c, rep))
}

/// The configured needs-input timeout in milliseconds.
pub open spec fn timeout_millis(c: Controller) -> int {
    c.config.needs_input_timeout_sec * 1000
}

/// Some handled report delivered output for this id in this tick, which
/// refreshes its last-output time.
pub open spec fn output_refreshed(c: Controller, reports: Seq<BridgeReport>, id: u128) -> bool {
    refreshed_before(c, reports, id, reports.len() as int)
}
/// Some handled report among the first `r` delivered output for this id.
pub open spec fn refreshed_before(
    c: Controller,
    reports: Seq<BridgeReport>,
    id: u128,
    r: int,
) -> bool {
    exists|k: int, i: int|
        0 <= k < r && reports[k].session_id == id && report_handled(c, reports[k], i)
            && reports[k].chunks@.len() > 0
}

/// Everything a tick never touches besides logs, timing and lifecycle.
pub open spec fn same_ui(a: Controller, b: Controller) -> bool {
    &&& a.active_session == b.active_session
    &&& a.active_panel == b.active_panel
    &&& a.input_text == b.input_text
    &&& a.config == b.config
    &&& a.log_mode == b.log_mode
    &&& a.detector == b.detector
    &&& a.creating_session == b.creating_session
    &&& a.create_step == b.create_step
    &&& a.create_name == b.create_name
    &&& a.create_path == b.create_path
    &&& a.renaming == b.renaming
    &&& a.rename_text == b.rename_text
}


/// Session `i` is running and has been silent past the configured timeout:
/// the fallback for agents that stop producing output without a prompt.
pub open spec fn silent_too_long(
    c: Controller,
    reports: Seq<BridgeReport>,
    i: int,
    now_ms: i64,
) -> bool {
    &&& 0 <= i < c.sessions@.len()
    &&& c.sessions@[i].status == SessionStatus::Running
    &&& !output_refreshed(c, reports, c.sessions@[i].id)
    &&& c.last_output().contains_key(c.sessions@[i].id)
    &&& now_ms - c.last_output()[c.sessions@[i].id] > timeout_millis(c)
}

/// The session should be flagged as waiting for input by this tick: either
/// the prompt heuristic fired on fresh output, or the output timeout ran out.
/// The two mechanisms are independent and compose by disjunction.
pub open spec fn marked_needs_input(
    c: Controller,
    reports: Seq<BridgeReport>,
    i: int,
    now_ms: i64,
) -> bool {
    ||| exists|k: int|
        0 <= k < reports.len() && reports[k].session_id == c.sessions@[i].id && prompt_detected(
            c,
            reports[k],
            i,
        )
    ||| silent_too_long(c, reports, i, now_ms)
}

/// This tick observed the session's process exit.
pub open spec fn exit_observed(
    c: Controller,
    reports: Seq<BridgeReport>,
    i: int,
) -> Option<ExitReport> {
    if exists|k: int|
        0 <= k < reports.len() && reports[k].session_id == c.sessions@[i].id && report_handled(
            c,
            reports[k],
            i,
        ) && reports[k].exit is Some {
        let k = choose|k: int|
            0 <= k < reports.len() && reports[k].session_id == c.sessions@[i].id
                && report_handled(c, reports[k], i) && reports[k].exit is Some;
        reports[k].exit
    } else {
        None
    }
}

/// The status a session ends the tick in: an observed exit wins and lands in
/// `Done` or `Failed`; otherwise a needs-input mark moves a running session
/// to `NeedsInput`; otherwise the status stays.
pub open spec fn tick_status(
    c: Controller,
    reports: Seq<BridgeReport>,
    i: int,
    now_ms: i64,
) -> SessionStatus {
    match exit_observed(c, reports, i) {
        Some(e) => if e.success {
            SessionStatus::Done
        } else {
            SessionStatus::Failed
        },
        None => if marked_needs_input(c, reports, i, now_ms) {
            SessionStatus::NeedsInput
        } else {
            c.sessions@[i].status
        },
    }
}

/// Fields that no tick ever changes.
pub open spec fn same_identity(a: Session, b: Session) -> bool {
    &&& a.id == b.id
    &&& a.name == b.name
    &&& a.root_path == b.root_path
    &&& a.log_path == b.log_path
    &&& a.created_at == b.created_at
    &&& a.instruction == b.instruction
}


/// Input can be submitted: there is text and a session to send it to.
pub open spec fn submission_ready(c: Controller) -> bool {
    c.input_text@.len() > 0 && c.sessions@.len() > 0 && c.active_session < c.sessions@.len()
}

/// The id of the session the cursor is on.
pub open spec fn active_id(c: Controller) -> u128 {
    c.sessions@[c.active_session as int].id
}


/// The mathematical content of one action: a tag for its kind and the plain
/// values it carries. 0 quit, 1 interrupt, 2 send text, 3 spawn request,
/// 4 write log header, 5 append to the durable log, 6 remove a bridge,
/// 7 persist the session list, 8 create-session request. Used to pin an
/// action list exactly.
pub open spec fn action_model(a: Action) -> (int, u128, Seq<char>, Seq<char>, Seq<u8>) {
    match a {
        Action::Quit => (0int, 0u128, Seq::<char>::empty(), Seq::<char>::empty(), Seq::<u8>::empty()),
        Action::SendInterrupt { session_id } => (
            1int,
            session_id,
            Seq::<char>::empty(),
            Seq::<char>::empty(),
            Seq::<u8>::empty(),
        ),
        Action::SendText { session_id, text } => (
            2int,
            session_id,
            text@,
            Seq::<char>::empty(),
            Seq::<u8>::empty(),
        ),
        Action::SpawnRequest { session_id, root_path, instruction } => (
            3int,
            session_id,
            root_path@,
            instruction@,
            Seq::<u8>::empty(),
        ),
        Action::WriteLogHeader { session_id } => (
            4int,
            session_id,
            Seq::<char>::empty(),
            Seq::<char>::empty(),
            Seq::<u8>::empty(),
        ),
        Action::AppendLogFile { log_path, data } => (
            5int,
            0u128,
            log_path@,
            Seq::<char>::empty(),
            data@,
        ),
        Action::RemoveBridge { session_id } => (
            6int,
            session_id,
            Seq::<char>::empty(),
            Seq::<char>::empty(),
            Seq::<u8>::empty(),
        ),
        Action::SaveSessions => (
            7int,
            0u128,
            Seq::<char>::empty(),
            Seq::<char>::empty(),
            Seq::<u8>::empty(),
        ),
        Action::CreateSessionRequest { name, path_text } => (
            8int,
            0u128,
            name@,
            path_text@,
            Seq::<u8>::empty(),
        ),
    }
}

/// An action list, reduced to its mathematical content.
pub open spec fn models_of(actions: Seq<Action>) -> Seq<(int, u128, Seq<char>, Seq<char>, Seq<u8>)> {
    actions.map_values(|a: Action| action_model(a))
}

/// The append-to-durable-log actions that one report's chunks produce, in
/// arrival order.
pub open spec fn chunk_models(log_path: Seq<char>, chunks: Seq<Vec<u8>>) -> Seq<(int, u128, Seq<char>, Seq<char>, Seq<u8>)> {
    chunks.map_values(|c: Vec<u8>| (5int, 0u128, log_path, Seq::<char>::empty(), c@))
}

/// The report that was handled for session `i`, if any.
pub open spec fn handled_report(c: Controller, reports: Seq<BridgeReport>, i: int) -> Option<BridgeReport> {
    if exists|k: int|
        0 <= k < reports.len() && reports[k].session_id == c.sessions@[i].id && report_handled(
            c,
            reports[k],
            i,
        ) {
        Some(
            reports[choose|k: int|
                0 <= k < reports.len() && reports[k].session_id == c.sessions@[i].id
                    && report_handled(c, reports[k], i)],
        )
    } else {
        None
    }
}

/// The actions one session contributes to a tick: an append per drained
/// chunk, then a bridge removal if its exit was observed.
pub open spec fn session_tick_models(c: Controller, reports: Seq<BridgeReport>, i: int) -> Seq<
    (int, u128, Seq<char>, Seq<char>, Seq<u8>),
> {
    match handled_report(c, reports, i) {
        Some(rep) => chunk_models(c.sessions@[i].log_path@, rep.chunks@) + (if rep.exit is Some {
            seq![
                (
                    6int,
                    c.sessions@[i].id,
                    Seq::<char>::empty(),
                    Seq::<char>::empty(),
                    Seq::<u8>::empty(),
                ),
            ]
        } else {
            Seq::empty()
        }),
        None => Seq::empty(),
    }
}

/// The actions the first `i` sessions contribute, in session order.
pub open spec fn tick_models_upto(c: Controller, reports: Seq<BridgeReport>, i: int) -> Seq<
    (int, u128, Seq<char>, Seq<char>, Seq<u8>),
>
    decreases i,
{
    if i <= 0 {
        Seq::empty()
    } else {
        tick_models_upto(c, reports, i - 1) + session_tick_models(c, reports, i - 1)
    }
}

/// Some session's status moves this tick.
pub open spec fn any_status_moved(c: Controller, reports: Seq<BridgeReport>, now_ms: i64) -> bool {
    exists|i: int|
        0 <= i < c.sessions@.len() && tick_status(c, reports, i, now_ms) != c.sessions@[i].status
}

/// Everything a tick emits, in order: each session's appends and bridge
/// removal, then one persist request if any status moved.
pub open spec fn tick_action_models(c: Controller, reports: Seq<BridgeReport>, now_ms: i64) -> Seq<
    (int, u128, Seq<char>, Seq<char>, Seq<u8>),
> {
    tick_models_upto(c, reports, c.sessions@.len() as int) + (if any_status_moved(
        c,
        reports,
        now_ms,
    ) {
        seq![
            (
                7int,
                0u128,
                Seq::<char>::empty(),
                Seq::<char>::empty(),
                Seq::<u8>::empty(),
            ),
        ]
    } else {
        Seq::empty()
    })
}


/// The full effect of one key press on the session list panel. Shared between the
/// panel handler's own contract and the router's.
pub open spec fn session_list_effect(pre: Controller, post: Controller, key: KeyInput, now_ms: i64, actions: Seq<Action>) -> bool {
    &&& key.code == KeyPress::Up ==> post == (Controller {
                active_session: post.active_session,
                ..pre
            }) && post.active_session == (if pre.active_session > 0 {
                pre.active_session - 1
            } else {
                0int
            }) && actions.len() == 0
    &&& key.code == KeyPress::Down ==> post == (Controller {
                active_session: post.active_session,
                ..pre
            }) && post.active_session == (if pre.active_session + 1 < pre.sessions@.len() {
                pre.active_session + 1
            } else {
                pre.active_session as int
            }) && actions.len() == 0
    &&& key.code == KeyPress::Char('n') ==> post == (Controller {
                creating_session: true,
                create_step: CreateStep::Name,
                create_name: post.create_name,
                create_path: post.create_path,
                ..pre
            }) && post.create_name@.len() == 0 && post.create_path@.len() == 0
                && actions.len() == 0
    &&& key.code == KeyPress::Char('d') && pre.active_session < pre.sessions@.len() ==> {
                let idx = pre.active_session as int;
                let id = pre.sessions@[idx].id;
                &&& post == (Controller {
                    sessions: post.sessions,
                    active_session: post.active_session,
                    live_bridges: post.live_bridges,
                    last_output_at: post.last_output_at,
                    ..pre
                })
                &&& post.sessions@ == pre.sessions@.remove(idx)
                &&& post.live() == pre.live().remove(id)
                &&& !post.last_output().contains_key(id)
                &&& post.active_session == (if idx < post.sessions@.len() || idx
                    == 0 {
                    idx
                } else {
                    idx - 1
                })
                &&& actions == seq![
                    Action::RemoveBridge { session_id: id },
                    Action::SaveSessions,
                ]
            }
    &&& key.code == KeyPress::Char('r') && pre.active_session < pre.sessions@.len() ==> post == (Controller {
                renaming: true,
                rename_text: post.rename_text,
                ..pre
            }) && post.rename_text@ == pre.sessions@[pre.active_session as int].name@ && actions.len() == 0
    &&& key.code == KeyPress::Char('m') && pre.active_session < pre.sessions@.len() ==> {
                let idx = pre.active_session as int;
                let s = pre.sessions@[idx];
                &&& (s.status == SessionStatus::Running ==> post.sessions@ == pre.sessions@.update(
                    idx,
                    Session { status: SessionStatus::NeedsInput, updated_at: now_ms, ..s },
                ) && post.last_output() == pre.last_output() && actions == seq![
                    Action::SaveSessions,
                ])
                &&& (s.status == SessionStatus::NeedsInput ==> post.sessions@ == pre.sessions@.update(
                    idx,
                    Session { status: SessionStatus::Running, updated_at: now_ms, ..s },
                ) && post.last_output() == pre.last_output().insert(s.id, now_ms)
                    && actions == seq![Action::SaveSessions])
                &&& (!(s.status == SessionStatus::Running || s.status
                    == SessionStatus::NeedsInput) ==> post == pre && actions.len()
                    == 0)
                &&& post == (Controller {
                    sessions: post.sessions,
                    last_output_at: post.last_output_at,
                    ..pre
                })
            }
    &&& !(key.code matches KeyPress::Char(_) || key.code == KeyPress::Up || key.code
                == KeyPress::Down) ==> post == pre && actions.len() == 0
}

/// The full effect of one key press on the log panel. Shared between the
/// panel handler's own contract and the router's.
pub open spec fn log_key_effect(pre: Controller, post: Controller, key: KeyInput, actions: Seq<Action>) -> bool {
    &&& key.code == KeyPress::Char('t') ==> post.log_mode == (if pre.log_mode
                == LogMode::Individual {
                LogMode::Unified
            } else {
                LogMode::Individual
            })
    &&& !(key.code == KeyPress::Char('t')) ==> post.log_mode == pre.log_mode
    &&& post == (Controller { log_mode: post.log_mode, ..pre })
    &&& actions.len() == 0
}

/// The full effect of one key press on the input bar. Shared between the
/// panel handler's own contract and the router's.
pub open spec fn input_key_effect(pre: Controller, post: Controller, key: KeyInput, now_ms: i64, actions: Seq<Action>) -> bool {
    &&& key.code matches KeyPress::Char(c) ==> post == (Controller {
                input_text: post.input_text,
                ..pre
            }) && post.input_text@ == pre.input_text@.push(c) && actions.len() == 0
    &&& key.code == KeyPress::Backspace ==> post == (Controller {
                input_text: post.input_text,
                ..pre
            }) && post.input_text@ == (if pre.input_text@.len() > 0 {
                pre.input_text@.drop_last()
            } else {
                pre.input_text@
            }) && actions.len() == 0
    &&& key.code == KeyPress::Escape ==> post == (Controller {
                active_panel: Panel::SessionList,
                ..pre
            }) && actions.len() == 0
    &&& (key.code == KeyPress::Up || key.code == KeyPress::Down || key.code == KeyPress::Tab
                || key.code == KeyPress::Other || key.code == KeyPress::Enter
                && !submission_ready(pre)) ==> post == pre && actions.len()
                == 0
    &&& key.code == KeyPress::Enter && submission_ready(pre) && !pre.live().contains(active_id(pre)) ==> post == (Controller {
                input_text: post.input_text,
                ..pre
            }) && post.input_text@.len() == 0 && actions.len() == 1 && (actions[0]
                matches Action::SpawnRequest { session_id, root_path, instruction } && session_id
                == active_id(pre) && root_path@ == pre.sessions@[pre.active_session as int].root_path@ && instruction@ == pre.input_text@)
    &&& key.code == KeyPress::Enter && submission_ready(pre) && pre.live().contains(active_id(pre)) ==> {
                let idx = pre.active_session as int;
                let s = pre.sessions@[idx];
                let waiting = s.status == SessionStatus::NeedsInput;
                &&& post == (Controller {
                    input_text: post.input_text,
                    sessions: post.sessions,
                    last_output_at: post.last_output_at,
                    ..pre
                })
                &&& post.input_text@.len() == 0
                &&& post.sessions@ == (if waiting {
                    pre.sessions@.update(
                        idx,
                        Session { status: SessionStatus::Running, updated_at: now_ms, ..s },
                    )
                } else {
                    pre.sessions@
                })
                &&& post.last_output() == (if waiting {
                    pre.last_output().insert(s.id, now_ms)
                } else {
                    pre.last_output()
                })
                &&& actions.len() == (if waiting {
                    2int
                } else {
                    1int
                })
                &&& (waiting ==> actions[0] == Action::SaveSessions)
                &&& (actions.last() matches Action::SendText { session_id, text } && session_id
                    == s.id && text@ == pre.input_text@ + "\n"@)
            }
}

/// The full effect of one key press on the session-creation dialog. Shared between the
/// panel handler's own contract and the router's.
pub open spec fn create_dialog_effect(pre: Controller, post: Controller, key: KeyInput, actions: Seq<Action>) -> bool {
    &&& key.code == KeyPress::Escape ==> post == (Controller {
                creating_session: false,
                ..pre
            }) && actions.len() == 0
    &&& key.code == KeyPress::Enter && pre.create_step == CreateStep::Name ==> post == (Controller { create_step: CreateStep::Path, ..pre }) && actions.len()
                == 0
    &&& key.code == KeyPress::Enter && pre.create_step == CreateStep::Path ==> post == (Controller { creating_session: false, ..pre }) && actions.len() == 1 && (
            actions[0] matches Action::CreateSessionRequest { name, path_text } && name@ == pre.create_name@ && path_text@ == pre.create_path@)
    &&& key.code matches KeyPress::Char(c) ==> post == (Controller {
                create_name: post.create_name,
                create_path: post.create_path,
                ..pre
            }) && (pre.create_step == CreateStep::Name ==> post.create_name@ == pre.create_name@.push(c) && post.create_path == pre.create_path) && (pre.create_step == CreateStep::Path ==> post.create_path@ == pre.create_path@.push(c) && post.create_name == pre.create_name)
                && actions.len() == 0
    &&& !(key.code == KeyPress::Escape || key.code == KeyPress::Enter || key.code
                matches KeyPress::Char(_) || key.code == KeyPress::Backspace) ==> post
                == pre && actions.len() == 0
}

/// The full effect of one key press on the rename dialog. Shared between the
/// panel handler's own contract and the router's.
pub open spec fn rename_dialog_effect(pre: Controller, post: Controller, key: KeyInput, actions: Seq<Action>) -> bool {
    &&& key.code == KeyPress::Escape ==> post == (Controller {
                renaming: false,
                ..pre
            }) && actions.len() == 0
    &&& key.code == KeyPress::Enter ==> {
                let applies = pre.active_session < pre.sessions@.len() && pre.rename_text@.len() > 0;
                &&& post == (Controller {
                    renaming: false,
                    sessions: post.sessions,
                    ..pre
                })
                &&& (applies ==> post.sessions@ == pre.sessions@.update(
                    pre.active_session as int,
                    Session {
                        name: post.sessions@[pre.active_session as int].name,
                        ..pre.sessions@[pre.active_session as int]
                    },
                ) && post.sessions@[pre.active_session as int].name@ == pre.rename_text@ && actions == seq![Action::SaveSessions])
                &&& (!applies ==> post.sessions == pre.sessions && actions.len()
                    == 0)
            }
    &&& key.code matches KeyPress::Char(c) ==> post == (Controller {
                rename_text: post.rename_text,
                ..pre
            }) && post.rename_text@ == pre.rename_text@.push(c) && actions.len()
                == 0
    &&& key.code == KeyPress::Backspace ==> post == (Controller {
                rename_text: post.rename_text,
                ..pre
            }) && post.rename_text@ == (if pre.rename_text@.len() > 0 {
                pre.rename_text@.drop_last()
            } else {
                pre.rename_text@
            }) && actions.len() == 0
    &&& !(key.code == KeyPress::Escape || key.code == KeyPress::Enter || key.code
                matches KeyPress::Char(_) || key.code == KeyPress::Backspace) ==> post
                == pre && actions.len() == 0
}

/// Whether the key press is one of the global bindings that the router
/// handles before any panel sees it: interrupt-or-quit, quit, and panel
/// cycling.
pub open spec fn is_global_key(c: Controller, key: KeyInput) -> bool {
    ||| (key.code == KeyPress::Char('c') && key.ctrl)
    ||| (key.code == KeyPress::Char('q') && c.active_panel != Panel::Input)
    ||| ((key.code == KeyPress::Char('h') || key.code == KeyPress::Char('k') || key.code
        == KeyPress::Char('l') || key.code == KeyPress::Char('j')) && key.ctrl)
    ||| key.code == KeyPress::Tab
}

/// The session orchestrator's whole state.
pub struct Controller {
    pub sessions: Vec<Session>,
    pub active_session: usize,
    pub active_panel: Panel,
    pub input_text: String,
    pub config: AppConfig,
    pub log_store: LogStore,
    pub log_mode: LogMode,
    /// Ids of sessions that currently have a live process bridge. The
    /// bridges themselves live outside; this set is kept in step through
    /// `spawn_succeeded` and the `RemoveBridge` actions.
    pub live_bridges: HashSet<u128>,
    pub detector: NeedsInputDetector,
    /// When each live session last produced output, in epoch milliseconds.
    pub last_output_at: HashMap<u128, i64>,
    pub creating_session: bool,
    pub create_step: CreateStep,
    pub create_name: String,
    pub create_path: String,
    pub renaming: bool,
    pub rename_text: String,
}

impl Controller {
    /// The ids that currently have a live bridge.
    pub open spec fn live(&self) -> Set<u128> {
        self.live_bridges@
    }

    /// When each live session last produced output.
    pub open spec fn last_output(&self) -> Map<u128, i64> {
        self.last_output_at@
    }

    /// A fresh controller around an already loaded session list: no live
    /// bridge, no dialog open, the session list focused.
    pub fn new(config: AppConfig, sessions: Vec<Session>) -> (c: Controller)
        ensures
            c.sessions == sessions,
            c.active_session == 0,
            c.active_panel == Panel::SessionList,
            c.input_text@.len() == 0,
            c.config == config,
            c.log_store@ == Map::<u128, Seq<Seq<u8>>>::empty(),
            c.log_mode == LogMode::Individual,
            c.live() == Set::<u128>::empty(),
            c.last_output() == Map::<u128, i64>::empty(),
            !c.creating_session,
            !c.renaming,
    {
        let c = Controller {
            sessions,
            active_session: 0,
            active_panel: Panel::SessionList,
            input_text: String::new(),
            config,
            log_store: LogStore::new(),
            log_mode: LogMode::Individual,
            live_bridges: HashSet::new(),
            detector: NeedsInputDetector::new(),
            last_output_at: HashMap::new(),
            creating_session: false,
            create_step: CreateStep::Name,
            create_name: String::new(),
            create_path: String::new(),
            renaming: false,
            rename_text: String::new(),
        };
        proof {
            broadcast use vstd::std_specs::hash::group_hash_axioms;

            assert(c.live() =~= Set::<u128>::empty());
            assert(c.last_output() =~= Map::<u128, i64>::empty());
        }
        c
    }

    /// Whether a live bridge exists for this session id.
    pub fn has_bridge(&self, session_id: u128) -> (r: bool)
        ensures
            r == self.live().contains(session_id),
    {
        proof {
            broadcast use vstd::std_specs::hash::group_hash_axioms;

        }
        self.live_bridges.contains(&session_id)
    }

    /// Whether any session is currently running or waiting for input; the
    /// reconciliation tick only needs to run while this holds.
    pub fn has_active_session(&self) -> (r: bool)
        ensures
            r == (exists|i: int|
                0 <= i < self.sessions@.len() && (self.sessions@[i].status == SessionStatus::Running
                    || self.sessions@[i].status == SessionStatus::NeedsInput)),
    {
        let mut i: usize = 0;
        while i < self.sessions.len()
            invariant
                i <= self.sessions@.len(),
                forall|j: int|
                    0 <= j < i ==> self.sessions@[j].status != SessionStatus::Running
                        && self.sessions@[j].status != SessionStatus::NeedsInput,
            decreases self.sessions@.len() - i,
        {
            let st = self.sessions[i].status;
            if st == SessionStatus::Running || st == SessionStatus::NeedsInput {
                return true;
            }
            i = i + 1;
        }
        false
    }

    /// The position of the first session with this id, if any.
    fn find_session(&self, session_id: u128) -> (r: Option<usize>)
        ensures
            r matches Some(i) ==> i < self.sessions@.len() && self.sessions@[i as int].id
                == session_id && (forall|j: int| 0 <= j < i ==> self.sessions@[j].id != session_id),
            r is None ==> forall|j: int|
                0 <= j < self.sessions@.len() ==> self.sessions@[j].id != session_id,
    {
        let mut i: usize = 0;
        while i < self.sessions.len()
            invariant
                i <= self.sessions@.len(),
                forall|j: int| 0 <= j < i ==> self.sessions@[j].id != session_id,
            decreases self.sessions@.len() - i,
        {
            if self.sessions[i].id == session_id {
                return Some(i);
            }
            i = i + 1;
        }
        None
    }

    /// Add a freshly created session rooted at `root_path` and focus it.
    pub fn create_session(&mut self, name: String, root_path: String) -> (actions: Vec<Action>)
        ensures
            final(self).sessions@.len() == old(self).sessions@.len() + 1,
            final(self).sessions@.drop_last() == old(self).sessions@,
            final(self).sessions@.last().name@ == name@,
            final(self).sessions@.last().root_path@ == root_path@,
            final(self).sessions@.last().status == SessionStatus::Queued,
            final(self).sessions@.last().pty_pid is None,
            final(self).sessions@.last().exit_code is None,
            final(self).active_session == final(self).sessions@.len() - 1,
            actions@ == seq![Action::SaveSessions],
    {
        let session = Session::new(name, root_path, self.config.logs_root_path.as_str());
        self.sessions.push(session);
        self.active_session = self.sessions.len() - 1;
        let mut actions: Vec<Action> = Vec::new();
        actions.push(Action::SaveSessions);
        proof {
            assert(final(self).sessions@.drop_last() =~= old(self).sessions@);
            assert(actions@ =~= seq![Action::SaveSessions]);
        }
        actions
    }

    /// Route one key press: an open dialog sees it first, then the global
    /// bindings (interrupt-or-quit, quit, panel navigation), then the
    /// focused panel.
    pub fn handle_key(&mut self, key: KeyInput, now_ms: i64) -> (actions: Vec<Action>)
        ensures
            old(self).creating_session ==> create_dialog_effect(
                *old(self),
                *final(self),
                key,
                actions@,
            ),
            !old(self).creating_session && old(self).renaming ==> rename_dialog_effect(
                *old(self),
                *final(self),
                key,
                actions@,
            ),
            !old(self).creating_session && !old(self).renaming && !is_global_key(
                *old(self),
                key,
            ) ==> {
                &&& (old(self).active_panel == Panel::SessionList ==> session_list_effect(
                    *old(self),
                    *final(self),
                    key,
                    now_ms,
                    actions@,
                ))
                &&& (old(self).active_panel == Panel::Log ==> log_key_effect(
                    *old(self),
                    *final(self),
                    key,
                    actions@,
                ))
                &&& (old(self).active_panel == Panel::Input ==> input_key_effect(
                    *old(self),
                    *final(self),
                    key,
                    now_ms,
                    actions@,
                ))
                &&& ((old(self).active_panel == Panel::DirTree || old(self).active_panel
                    == Panel::FilePreview) ==> *final(self) == *old(self) && actions@.len() == 0)
            },
            !old(self).creating_session && !old(self).renaming ==> {
                let live_target = old(self).active_session < old(self).sessions@.len() && {
                    let s = old(self).sessions@[old(self).active_session as int];
                    (s.status == SessionStatus::Running || s.status == SessionStatus::NeedsInput)
                        && old(self).live().contains(s.id)
                };
                &&& (key.code == KeyPress::Char('c') && key.ctrl && live_target ==> *final(self)
                    == *old(self) && actions@ == seq![
                    Action::SendInterrupt { session_id: active_id(*old(self)) },
                ])
                &&& (key.code == KeyPress::Char('c') && key.ctrl && !live_target ==> *final(self)
                    == *old(self) && actions@ == seq![Action::Quit])
                &&& (key.code == KeyPress::Char('q') && old(self).active_panel != Panel::Input
                    ==> *final(self) == *old(self) && actions@ == seq![
                    Action::SaveSessions,
                    Action::Quit,
                ])
                &&& ((key.code == KeyPress::Char('h') || key.code == KeyPress::Char('k'))
                    && key.ctrl ==> *final(self) == (Controller {
                    active_panel: spec_prev_panel(old(self).active_panel),
                    ..*old(self)
                }) && actions@.len() == 0)
                &&& ((key.code == KeyPress::Char('l') || key.code == KeyPress::Char('j'))
                    && key.ctrl ==> *final(self) == (Controller {
                    active_panel: spec_next_panel(old(self).active_panel),
                    ..*old(self)
                }) && actions@.len() == 0)
                &&& (key.code == KeyPress::Tab ==> *final(self) == (Controller {
                    active_panel: spec_next_panel(old(self).active_panel),
                    ..*old(self)
                }) && actions@.len() == 0)
            },
    {
        if self.creating_session {
            return self.handle_create_dialog(key);
        }
        if self.renaming {
            return self.handle_rename_dialog(key);
        }

        let mut actions: Vec<Action> = Vec::new();
        match key.code {
            KeyPress::Char(c) => {
                if c == 'c' && key.ctrl {
                    // Interrupt the active session's process if one is
                    // live, otherwise quit.
                    if self.active_session < self.sessions.len() {
                        let st = self.sessions[self.active_session].status;
                        let id = self.sessions[self.active_session].id;
                        if (st == SessionStatus::Running || st == SessionStatus::NeedsInput)
                            && self.has_bridge(id) {
                            actions.push(Action::SendInterrupt { session_id: id });
                            return actions;
                        }
                    }
                    actions.push(Action::Quit);
                    return actions;
                }
                if c == 'q' && !(self.active_panel == Panel::Input) {
                    actions.push(Action::SaveSessions);
                    actions.push(Action::Quit);
                    return actions;
                }
                if (c == 'h' || c == 'k') && key.ctrl {
                    self.active_panel = self.active_panel.prev();
                    return actions;
                }
                if (c == 'l' || c == 'j') && key.ctrl {
                    self.active_panel = self.active_panel.next();
                    return actions;
                }
            },
            KeyPress::Tab => {
                self.active_panel = self.active_panel.next();
                return actions;
            },
            _ => {},
        }

        match self.active_panel {
            Panel::SessionList => self.handle_session_list_key(key, now_ms),
            Panel::Log => self.handle_log_key(key),
            Panel::Input => self.handle_input_key(key, now_ms),
            _ => actions,
        }
    }

    /// Keys of the session list: selection, creation, deletion, renaming and
    /// the manual needs-input toggle.
    pub fn handle_session_list_key(&mut self, key: KeyInput, now_ms: i64) -> (actions: Vec<
        Action,
    >)
        ensures
            session_list_effect(*old(self), *final(self), key, now_ms, actions@)
    {
        let mut actions: Vec<Action> = Vec::new();
        match key.code {
            KeyPress::Up => {
                if self.active_session > 0 {
                    self.active_session = self.active_session - 1;
                }
            },
            KeyPress::Down => {
                if self.sessions.len() > 0 && self.active_session < self.sessions.len() - 1 {
                    self.active_session = self.active_session + 1;
                }
            },
            KeyPress::Char(c) => {
                if c == 'n' {
                    self.creating_session = true;
                    self.create_step = CreateStep::Name;
                    self.create_name = String::new();
                    self.create_path = String::new();
                } else if c == 'd' {
                    if self.sessions.len() > 0 && self.active_session < self.sessions.len() {
                        let session_id = self.sessions[self.active_session].id;
                        proof {
                            broadcast use vstd::std_specs::hash::group_hash_axioms;

                        }
                        self.live_bridges.remove(&session_id);
                        self.last_output_at.remove(&session_id);
                        self.sessions.remove(self.active_session);
                        if self.active_session >= self.sessions.len() && self.active_session > 0 {
                            self.active_session = self.active_session - 1;
                        }
                        actions.push(Action::RemoveBridge { session_id });
                        actions.push(Action::SaveSessions);
                        proof {
                            assert(self.live() =~= old(self).live().remove(session_id));
                            assert(actions@ =~= seq![
                                Action::RemoveBridge { session_id },
                                Action::SaveSessions,
                            ]);
                        }
                    }
                } else if c == 'r' {
                    if self.active_session < self.sessions.len() {
                        self.renaming = true;
                        self.rename_text = self.sessions[self.active_session].name.clone();
                    }
                } else if c == 'm' {
                    // Manual needs-input toggle for the active session.
                    if self.active_session < self.sessions.len() {
                        let st = self.sessions[self.active_session].status;
                        if st == SessionStatus::Running {
                            let idx = self.active_session;
                            let mut s = self.sessions.remove(idx);
                            let _ = s.transition_to(SessionStatus::NeedsInput, now_ms);
                            self.sessions.insert(idx, s);
                            actions.push(Action::SaveSessions);
                            proof {
                                assert(self.sessions@ =~= old(self).sessions@.update(
                                    idx as int,
                                    Session {
                                        status: SessionStatus::NeedsInput,
                                        updated_at: now_ms,
                                        ..old(self).sessions@[idx as int]
                                    },
                                ));
                                assert(actions@ =~= seq![Action::SaveSessions]);
                            }
                        } else if st == SessionStatus::NeedsInput {
                            let idx = self.active_session;
                            let id = self.sessions[idx].id;
                            let mut s = self.sessions.remove(idx);
                            let _ = s.transition_to(SessionStatus::Running, now_ms);
                            self.sessions.insert(idx, s);
                            proof {
                                broadcast use vstd::std_specs::hash::group_hash_axioms;

                            }
                            self.last_output_at.insert(id, now_ms);
                            actions.push(Action::SaveSessions);
                            proof {
                                assert(self.sessions@ =~= old(self).sessions@.update(
                                    idx as int,
                                    Session {
                                        status: SessionStatus::Running,
                                        updated_at: now_ms,
                                        ..old(self).sessions@[idx as int]
                                    },
                                ));
                                assert(actions@ =~= seq![Action::SaveSessions]);
                            }
                        }
                    }
                }
            },
            _ => {},
        }
        actions
    }

    /// Keys of the log panel: toggling between the individual and the
    /// unified view.
    pub fn handle_log_key(&mut self, key: KeyInput) -> (actions: Vec<Action>)
        ensures
            log_key_effect(*old(self), *final(self), key, actions@)
    {
        match key.code {
            KeyPress::Char(c) => {
                if c == 't' {
                    self.log_mode = if self.log_mode == LogMode::Individual {
                        LogMode::Unified
                    } else {
                        LogMode::Individual
                    };
                }
            },
            _ => {},
        }
        Vec::new()
    }

    /// Keys of the input bar: text editing, escape back to the session
    /// list, and submission on enter. Submitting spawns a bridge first when
    /// none is live, resumes a session that was waiting for input, and sends
    /// the text (newline-terminated) to the session's process.
    pub fn handle_input_key(&mut self, key: KeyInput, now_ms: i64) -> (actions: Vec<Action>)
        ensures
            input_key_effect(*old(self), *final(self), key, now_ms, actions@)
    {
        let mut actions: Vec<Action> = Vec::new();
        match key.code {
            KeyPress::Char(c) => {
                push_char(&mut self.input_text, c);
            },
            KeyPress::Backspace => {
                pop_char(&mut self.input_text);
            },
            KeyPress::Escape => {
                self.active_panel = Panel::SessionList;
            },
            KeyPress::Enter => {
                if !self.input_text.as_str().is_empty() && self.sessions.len() > 0
                    && self.active_session < self.sessions.len() {
                    let session_id = self.sessions[self.active_session].id;
                    let input = self.input_text.clone();
                    self.input_text = String::new();

                    if !self.has_bridge(session_id) {
                        // A bridge must be spawned first; the surrounding
                        // program reports back and then sends the text.
                        let root_path = self.sessions[self.active_session].root_path.clone();
                        actions.push(
                            Action::SpawnRequest { session_id, root_path, instruction: input },
                        );
                        return actions;
                    }

                    // A session that was waiting for input starts running
                    // again the moment input is sent.
                    if self.sessions[self.active_session].status == SessionStatus::NeedsInput {
                        let idx = self.active_session;
                        let mut s = self.sessions.remove(idx);
                        let _ = s.transition_to(SessionStatus::Running, now_ms);
                        self.sessions.insert(idx, s);
                        proof {
                            broadcast use vstd::std_specs::hash::group_hash_axioms;

                        }
                        self.last_output_at.insert(session_id, now_ms);
                        actions.push(Action::SaveSessions);
                        proof {
                            assert(self.sessions@ =~= old(self).sessions@.update(
                                idx as int,
                                Session {
                                    status: SessionStatus::Running,
                                    updated_at: now_ms,
                                    ..old(self).sessions@[idx as int]
                                },
                            ));
                        }
                    }

                    let mut text = input;
                    text.append("\n");
                    actions.push(Action::SendText { session_id, text });
                }
            },
            _ => {},
        }
        actions
    }

    /// The bridge requested for a session was spawned: record it, mark the
    /// session running with its instruction, and have the caller write the
    /// log header, persist, and send the instruction text.
    pub fn spawn_succeeded(
        &mut self,
        session_id: u128,
        pid: Option<u32>,
        instruction: String,
        now_ms: i64,
    ) -> (actions: Vec<Action>)
        ensures
            *final(self) == (Controller {
                sessions: final(self).sessions,
                live_bridges: final(self).live_bridges,
                last_output_at: final(self).last_output_at,
                ..*old(self)
            }),
            final(self).live() == old(self).live().insert(session_id),
            final(self).last_output() == old(self).last_output().insert(session_id, now_ms),
            final(self).sessions@.len() == old(self).sessions@.len(),
            forall|i: int|
                0 <= i < old(self).sessions@.len() && old(self).sessions@[i].id == session_id && (
                forall|j: int| 0 <= j < i ==> old(self).sessions@[j].id != session_id) ==> {
                    let s = old(self).sessions@[i];
                    let started = allowed_transition(s.status, SessionStatus::Running);
                    #[trigger] final(self).sessions@[i] == (Session {
                        status: if started {
                            SessionStatus::Running
                        } else {
                            s.status
                        },
                        updated_at: if started {
                            now_ms
                        } else {
                            s.updated_at
                        },
                        pty_pid: pid,
                        instruction: final(self).sessions@[i].instruction,
                        ..s
                    }) && (final(self).sessions@[i].instruction matches Some(t) && t@
                        == instruction@)
                },
            forall|i: int|
                0 <= i < old(self).sessions@.len() && !(old(self).sessions@[i].id == session_id
                    && (forall|j: int| 0 <= j < i ==> old(self).sessions@[j].id != session_id))
                    ==> #[trigger] final(self).sessions@[i] == old(self).sessions@[i],
            (exists|i: int|
                0 <= i < old(self).sessions@.len() && old(self).sessions@[i].id == session_id)
                ==> actions@.len() == 3 && actions@[0] == (Action::WriteLogHeader { session_id })
                && actions@[1] == Action::SaveSessions && (actions@[2]
                matches Action::SendText { session_id: sid, text } && sid == session_id && text@
                == instruction@ + "\n"@),
            (forall|i: int|
                0 <= i < old(self).sessions@.len() ==> old(self).sessions@[i].id != session_id)
                ==> actions@.len() == 0,
    {
        proof {
            broadcast use vstd::std_specs::hash::group_hash_axioms;

        }
        self.live_bridges.insert(session_id);
        self.last_output_at.insert(session_id, now_ms);
        let mut actions: Vec<Action> = Vec::new();
        match self.find_session(session_id) {
            Some(idx) => {
                let mut s = self.sessions.remove(idx);
                let _ = s.transition_to(SessionStatus::Running, now_ms);
                s.pty_pid = pid;
                s.instruction = Some(instruction.clone());
                self.sessions.insert(idx, s);
                actions.push(Action::WriteLogHeader { session_id });
                actions.push(Action::SaveSessions);
                let mut text = instruction;
                text.append("\n");
                actions.push(Action::SendText { session_id, text });
            },
            None => {},
        }
        actions
    }

    /// The bridge requested for a session could not be spawned: the error
    /// goes into the session's log buffer and the session is forced through
    /// `Running` to `Failed`, since a session that failed to start must end
    /// up failed even though `Queued` to `Failed` is not a legal move.
    pub fn spawn_failed(&mut self, session_id: u128, error_line: String, now_ms: i64) -> (actions:
        Vec<Action>)
        ensures
            *final(self) == (Controller {
                log_store: final(self).log_store,
                sessions: final(self).sessions,
                ..*old(self)
            }),
            final(self).live() == old(self).live(),
            final(self).last_output() == old(self).last_output(),
            session_lines(final(self).log_store@, session_id) == append_chunk(
                session_lines(old(self).log_store@, session_id),
                vstd::utf8::encode_utf8(error_line@),
            ),
            forall|id2: u128|
                id2 != session_id ==> session_lines(final(self).log_store@, id2) == session_lines(
                    old(self).log_store@,
                    id2,
                ),
            final(self).sessions@.len() == old(self).sessions@.len(),
            forall|i: int|
                0 <= i < old(self).sessions@.len() && old(self).sessions@[i].id == session_id && (
                forall|j: int| 0 <= j < i ==> old(self).sessions@[j].id != session_id) ==> {
                    let s = old(self).sessions@[i];
                    let s1 = if allowed_transition(s.status, SessionStatus::Running) {
                        SessionStatus::Running
                    } else {
                        s.status
                    };
                    let s2 = if allowed_transition(s1, SessionStatus::Failed) {
                        SessionStatus::Failed
                    } else {
                        s1
                    };
                    (#[trigger] final(self).sessions@[i]).status == s2 && final(self).sessions@[i].id == s.id && final(self).sessions@[i].exit_code == s.exit_code
                        && final(self).sessions@[i].pty_pid == s.pty_pid && final(self).sessions@[i].name == s.name
                },
            forall|i: int|
                0 <= i < old(self).sessions@.len() && !(old(self).sessions@[i].id == session_id
                    && (forall|j: int| 0 <= j < i ==> old(self).sessions@[j].id != session_id))
                    ==> #[trigger] final(self).sessions@[i] == old(self).sessions@[i],
            (exists|i: int|
                0 <= i < old(self).sessions@.len() && old(self).sessions@[i].id == session_id)
                ==> actions@ == seq![Action::SaveSessions],
            (forall|i: int|
                0 <= i < old(self).sessions@.len() ==> old(self).sessions@[i].id != session_id)
                ==> actions@.len() == 0,
    {
        self.log_store.append(session_id, error_line.as_str().as_bytes());
        let mut actions: Vec<Action> = Vec::new();
        match self.find_session(session_id) {
            Some(idx) => {
                let mut s = self.sessions.remove(idx);
                let _ = s.transition_to(SessionStatus::Running, now_ms);
                let _ = s.transition_to(SessionStatus::Failed, now_ms);
                self.sessions.insert(idx, s);
                actions.push(Action::SaveSessions);
            },
            None => {},
        }
        actions
    }


    /// Append every chunk of one polled report to the session's buffer and
    /// (through actions) to its durable log, refresh its last-output time,
    /// and classify the newest line when the session was running.
    fn ingest_chunks(&mut self, idx: usize, rep: &BridgeReport, now_ms: i64, actions: &mut Vec<
        Action,
    >) -> (detected: bool)
        requires
            idx < old(self).sessions@.len(),
            old(self).sessions@[idx as int].id == rep.session_id,
        ensures
            final(self).sessions == old(self).sessions,
            final(self).live_bridges == old(self).live_bridges,
            same_ui(*final(self), *old(self)),
            session_lines(final(self).log_store@, rep.session_id) == apply_chunks(
                session_lines(old(self).log_store@, rep.session_id),
                chunk_views(rep.chunks@),
            ),
            forall|id2: u128|
                id2 != rep.session_id ==> session_lines(final(self).log_store@, id2)
                    == session_lines(old(self).log_store@, id2),
            rep.chunks@.len() > 0 ==> final(self).last_output() == old(self).last_output().insert(rep.session_id, now_ms),
            rep.chunks@.len() == 0 ==> final(self).last_output() == old(self).last_output(),
            detected == (rep.chunks@.len() > 0 && old(self).sessions@[idx as int].status
                == SessionStatus::Running && detects_prompt(
                apply_chunks(
                    session_lines(old(self).log_store@, rep.session_id),
                    chunk_views(rep.chunks@),
                ),
            )),
            models_of(final(actions)@) == models_of(old(actions)@) + chunk_models(
                old(self).sessions@[idx as int].log_path@,
                rep.chunks@,
            ),
    {
        proof {
            broadcast use vstd::std_specs::hash::group_hash_axioms;

        }
        let ghost c0 = *self;
        let id = rep.session_id;
        let ghost base = session_lines(c0.log_store@, id);
        let mut cc: usize = 0;
        while cc < rep.chunks.len()
            invariant
                cc <= rep.chunks@.len(),
                idx < c0.sessions@.len(),
                c0.sessions@[idx as int].id == id,
                id == rep.session_id,
                base == session_lines(c0.log_store@, id),
                self.sessions == c0.sessions,
                self.live_bridges == c0.live_bridges,
                self.last_output_at == c0.last_output_at,
                same_ui(*self, c0),
                session_lines(self.log_store@, id) == apply_chunks(
                    base,
                    chunk_views(rep.chunks@.take(cc as int)),
                ),
                forall|id2: u128|
                    id2 != id ==> session_lines(self.log_store@, id2) == session_lines(
                        c0.log_store@,
                        id2,
                    ),
                models_of(actions@) == models_of(old(actions)@) + chunk_models(
                    c0.sessions@[idx as int].log_path@,
                    rep.chunks@.take(cc as int),
                ),
            decreases rep.chunks@.len() - cc,
        {
            proof {
                assert(chunk_views(rep.chunks@.take(cc + 1)).drop_last() =~= chunk_views(
                    rep.chunks@.take(cc as int),
                ));
                assert(chunk_views(rep.chunks@.take(cc + 1)).last() == rep.chunks@[cc as int]@);
            }
            let chunk = &rep.chunks[cc];
            self.log_store.append(id, chunk.as_slice());
            let log_path = self.sessions[idx].log_path.clone();
            let data = crate::log_store::clone_bytes(chunk);
            let ghost pre = actions@;
            actions.push(Action::AppendLogFile { log_path, data });
            proof {
                assert(action_model(actions@.last()) == (
                    5int,
                    0u128,
                    c0.sessions@[idx as int].log_path@,
                    Seq::<char>::empty(),
                    rep.chunks@[cc as int]@,
                ));
                assert(models_of(actions@) =~= models_of(pre).push(
                    action_model(actions@.last()),
                ));
                assert(chunk_models(
                    c0.sessions@[idx as int].log_path@,
                    rep.chunks@.take(cc + 1),
                ) =~= chunk_models(
                    c0.sessions@[idx as int].log_path@,
                    rep.chunks@.take(cc as int),
                ).push(
                    (
                        5int,
                        0u128,
                        c0.sessions@[idx as int].log_path@,
                        Seq::<char>::empty(),
                        rep.chunks@[cc as int]@,
                    ),
                ));
                assert(models_of(actions@) =~= models_of(old(actions)@) + chunk_models(
                    c0.sessions@[idx as int].log_path@,
                    rep.chunks@.take(cc + 1),
                ));
            }
            cc = cc + 1;
        }
        proof {
            assert(rep.chunks@.take(rep.chunks@.len() as int) =~= rep.chunks@);
        }
        if rep.chunks.len() > 0 {
            self.last_output_at.insert(id, now_ms);
            let st = self.sessions[idx].status;
            if st == SessionStatus::Running {
                let line = self.log_store.last_non_empty_bytes(id);
                match line {
                    Some(l) => {
                        let hit = self.detector.check_bytes(l.as_slice());
                        proof {
                            assert(detects_prompt(session_lines(self.log_store@, id)) == hit);
                        }
                        return hit;
                    },
                    None => {
                        return false;
                    },
                }
            }
            false
        } else {
            proof {
                assert(self.last_output() =~= c0.last_output());
            }
            false
        }
    }

    /// The position of the first report for this session id, if any.
    fn find_report(reports: &Vec<BridgeReport>, id: u128) -> (r: Option<usize>)
        ensures
            r matches Some(k) ==> k < reports@.len() && reports@[k as int].session_id == id,
            r is None ==> forall|k: int|
                0 <= k < reports@.len() ==> reports@[k].session_id != id,
    {
        let mut k: usize = 0;
        while k < reports.len()
            invariant
                k <= reports@.len(),
                forall|k2: int| 0 <= k2 < k ==> reports@[k2].session_id != id,
            decreases reports@.len() - k,
        {
            if reports[k].session_id == id {
                return Some(k);
            }
            k = k + 1;
        }
        None
    }

    /// One reconciliation pass, run on the fixed tick while any session is
    /// active. For every session with a polled bridge: its drained chunks go
    /// into the log store and (through actions) into the durable log file,
    /// fresh output refreshes the session's last-output time and is
    /// classified by the needs-input heuristic, and an observed exit tears
    /// the bridge down into `Done` or `Failed` with the exit code recorded
    /// and the last-output entry dropped. A running session that looked like
    /// a prompt, or stayed silent past the configured timeout, moves to
    /// `NeedsInput`. The actions returned are exactly one durable-log append
    /// per drained chunk, one bridge removal per observed exit, and one
    /// persist request if any status moved.
    #[verifier::rlimit(100)]
    pub fn tick(&mut self, reports: &Vec<BridgeReport>, now_ms: i64) -> (actions: Vec<Action>)
        requires
            forall|a: int, b: int|
                0 <= a < b < old(self).sessions@.len() ==> old(self).sessions@[a].id != old(self).sessions@[b].id,
            forall|a: int, b: int|
                0 <= a < b < reports@.len() ==> reports@[a].session_id != reports@[b].session_id,
        ensures
            same_ui(*final(self), *old(self)),
            final(self).sessions@.len() == old(self).sessions@.len(),
            forall|i: int|
                0 <= i < old(self).sessions@.len() ==> same_identity(
                    #[trigger] final(self).sessions@[i],
                    old(self).sessions@[i],
                ),
            forall|i: int|
                0 <= i < old(self).sessions@.len() ==> (#[trigger] final(self).sessions@[i]).status
                    == tick_status(*old(self), reports@, i, now_ms),
            forall|i: int|
                0 <= i < old(self).sessions@.len() ==> (#[trigger] final(self).sessions@[i]).updated_at
                    == (if tick_status(*old(self), reports@, i, now_ms)
                    == old(self).sessions@[i].status {
                    old(self).sessions@[i].updated_at
                } else {
                    now_ms
                }),
            forall|i: int|
                0 <= i < old(self).sessions@.len() ==> (#[trigger] final(self).sessions@[i]).exit_code
                    == (match exit_observed(*old(self), reports@, i) {
                    Some(e) => Some(e.exit_code as i32),
                    None => old(self).sessions@[i].exit_code,
                }),
            forall|i: int|
                0 <= i < old(self).sessions@.len() ==> (#[trigger] final(self).sessions@[i]).pty_pid
                    == (if exit_observed(*old(self), reports@, i) is Some {
                    None::<u32>
                } else {
                    old(self).sessions@[i].pty_pid
                }),
            forall|id: u128|
                final(self).live().contains(id) <==> (old(self).live().contains(id) && !(
                exists|i: int|
                    0 <= i < old(self).sessions@.len() && old(self).sessions@[i].id == id
                        && exit_observed(*old(self), reports@, i) is Some)),
            forall|i: int|
                #![trigger old(self).sessions@[i].id]
                0 <= i < old(self).sessions@.len() ==> {
                    let sid = old(self).sessions@[i].id;
                    &&& (exit_observed(*old(self), reports@, i) is Some ==> !final(self).last_output().contains_key(sid))
                    &&& (exit_observed(*old(self), reports@, i) is None && output_refreshed(
                        *old(self),
                        reports@,
                        sid,
                    ) ==> final(self).last_output().contains_key(sid) && final(self).last_output()[sid] == now_ms)
                    &&& (exit_observed(*old(self), reports@, i) is None && !output_refreshed(
                        *old(self),
                        reports@,
                        sid,
                    ) ==> (final(self).last_output().contains_key(sid) == old(self).last_output().contains_key(sid)) && (final(self).last_output().contains_key(
                        sid,
                    ) ==> final(self).last_output()[sid] == old(self).last_output()[sid]))
                },
            forall|id2: u128|
                #![trigger final(self).last_output().contains_key(id2)]
                (forall|i: int|
                    0 <= i < old(self).sessions@.len() ==> old(self).sessions@[i].id != id2)
                    ==> (final(self).last_output().contains_key(id2) == old(self).last_output().contains_key(id2)) && (final(self).last_output().contains_key(id2)
                    ==> final(self).last_output()[id2] == old(self).last_output()[id2]),
            forall|k: int, i: int|
                #![trigger report_handled(*old(self), reports@[k], i)]
                0 <= k < reports@.len() && report_handled(*old(self), reports@[k], i)
                    ==> session_lines(final(self).log_store@, reports@[k].session_id)
                    == lines_after(*old(self), reports@[k]),
            forall|id: u128|
                !(exists|k: int, i: int|
                    0 <= k < reports@.len() && reports@[k].session_id == id && report_handled(
                        *old(self),
                        reports@[k],
                        i,
                    )) ==> session_lines(final(self).log_store@, id) == session_lines(
                    old(self).log_store@,
                    id,
                ),
            models_of(actions@) == tick_action_models(*old(self), reports@, now_ms),
    {
        proof {
            broadcast use vstd::std_specs::hash::group_hash_axioms;

        }
        let ghost c0 = *self;
        let mut actions: Vec<Action> = Vec::new();
        let mut state_changed = false;
        let mut i: usize = 0;
        proof {
            assert(models_of(actions@) =~= tick_models_upto(c0, reports@, 0));
        }
        while i < self.sessions.len()
            invariant
                forall|a: int, b: int|
                    0 <= a < b < c0.sessions@.len() ==> c0.sessions@[a].id != c0.sessions@[b].id,
                forall|a: int, b: int|
                    0 <= a < b < reports@.len() ==> reports@[a].session_id
                        != reports@[b].session_id,
                i <= self.sessions@.len(),
                self.sessions@.len() == c0.sessions@.len(),
                self.config == c0.config,
                same_ui(*self, c0),
                forall|j: int|
                    0 <= j < i ==> same_identity(#[trigger] self.sessions@[j], c0.sessions@[j])
                        && self.sessions@[j].status == tick_status(c0, reports@, j, now_ms)
                        && self.sessions@[j].updated_at == (if tick_status(c0, reports@, j, now_ms)
                        == c0.sessions@[j].status {
                        c0.sessions@[j].updated_at
                    } else {
                        now_ms
                    }) && self.sessions@[j].exit_code == (match exit_observed(c0, reports@, j) {
                        Some(e) => Some(e.exit_code as i32),
                        None => c0.sessions@[j].exit_code,
                    }) && self.sessions@[j].pty_pid == (if exit_observed(c0, reports@, j)
                        is Some {
                        None::<u32>
                    } else {
                        c0.sessions@[j].pty_pid
                    }),
                forall|j: int|
                    i <= j < c0.sessions@.len() ==> #[trigger] self.sessions@[j]
                        == c0.sessions@[j],
                forall|id: u128|
                    self.live().contains(id) <==> (c0.live().contains(id) && !(exists|j: int|
                        0 <= j < i && c0.sessions@[j].id == id && exit_observed(c0, reports@, j)
                            is Some)),
                forall|k: int, j: int|
                    #![trigger report_handled(c0, reports@[k], j)]
                    0 <= k < reports@.len() && report_handled(c0, reports@[k], j) && j < i
                        ==> session_lines(self.log_store@, reports@[k].session_id) == lines_after(
                        c0,
                        reports@[k],
                    ),
                forall|id: u128|
                    !(exists|k: int, j: int|
                        0 <= k < reports@.len() && reports@[k].session_id == id && report_handled(
                            c0,
                            reports@[k],
                            j,
                        ) && j < i) ==> session_lines(self.log_store@, id) == session_lines(
                        c0.log_store@,
                        id,
                    ),
                forall|j: int|
                    #![trigger c0.sessions@[j].id]
                    0 <= j < i ==> {
                        let sid = c0.sessions@[j].id;
                        &&& (exit_observed(c0, reports@, j) is Some
                            ==> !self.last_output().contains_key(sid))
                        &&& (exit_observed(c0, reports@, j) is None && output_refreshed(
                            c0,
                            reports@,
                            sid,
                        ) ==> self.last_output().contains_key(sid) && self.last_output()[sid]
                            == now_ms)
                        &&& (exit_observed(c0, reports@, j) is None && !output_refreshed(
                            c0,
                            reports@,
                            sid,
                        ) ==> (self.last_output().contains_key(sid)
                            == c0.last_output().contains_key(sid)) && (
                        self.last_output().contains_key(sid) ==> self.last_output()[sid]
                            == c0.last_output()[sid]))
                    },
                forall|j: int|
                    i <= j < c0.sessions@.len() ==> (self.last_output().contains_key(
                        #[trigger] c0.sessions@[j].id,
                    ) == c0.last_output().contains_key(c0.sessions@[j].id)) && (
                    self.last_output().contains_key(c0.sessions@[j].id)
                        ==> self.last_output()[c0.sessions@[j].id] == c0.last_output()[c0.sessions@[j].id]),
                forall|id2: u128|
                    #![trigger self.last_output().contains_key(id2)]
                    (forall|j: int|
                        0 <= j < c0.sessions@.len() ==> c0.sessions@[j].id != id2) ==> (
                    self.last_output().contains_key(id2) == c0.last_output().contains_key(id2))
                        && (self.last_output().contains_key(id2) ==> self.last_output()[id2]
                        == c0.last_output()[id2]),
                models_of(actions@) == tick_models_upto(c0, reports@, i as int),
                state_changed == exists|j: int|
                    0 <= j < i && tick_status(c0, reports@, j, now_ms) != c0.sessions@[j].status,
            decreases self.sessions@.len() - i,
        {
            proof {
                broadcast use vstd::std_specs::hash::group_hash_axioms;

            }
            let ghost acts_pre = actions@;
            let id = self.sessions[i].id;
            let st = self.sessions[i].status;
            let found = Self::find_report(reports, id);
            let live = self.has_bridge(id);
            let active = st == SessionStatus::Running || st == SessionStatus::NeedsInput;

            let mut detected = false;
            let mut exited: Option<ExitReport> = None;
            match found {
                Some(k) => {
                    if active && live {
                        proof {
                            assert(report_handled(c0, reports@[k as int], i as int));
                        }
                        detected = self.ingest_chunks(i, &reports[k], now_ms, &mut actions);
                        exited = reports[k].exit;
                        proof {
                            assert(detected == prompt_detected(c0, reports@[k as int], i as int));
                            assert(handled_report(c0, reports@, i as int) == Some(
                                reports@[k as int],
                            )) by {
                                let k5 = choose|k5: int|
                                    0 <= k5 < reports@.len() && reports@[k5].session_id
                                        == c0.sessions@[i as int].id && report_handled(
                                        c0,
                                        reports@[k5],
                                        i as int,
                                    );
                                assert(k5 == k as int);
                            };
                            assert(models_of(actions@) =~= tick_models_upto(c0, reports@, i as int)
                                + chunk_models(
                                c0.sessions@[i as int].log_path@,
                                handled_report(c0, reports@, i as int).unwrap().chunks@,
                            ));
                            assert(exited == handled_report(c0, reports@, i as int).unwrap().exit);
                            assert(output_refreshed(c0, reports@, id) == (
                            reports@[k as int].chunks@.len() > 0)) by {
                                if output_refreshed(c0, reports@, id) {
                                    let (k2, j2) = choose|k2: int, j2: int|
                                        0 <= k2 < reports@.len() && reports@[k2].session_id == id
                                            && report_handled(c0, reports@[k2], j2)
                                            && reports@[k2].chunks@.len() > 0;
                                    assert(j2 == i as int);
                                    assert(k2 == k as int);
                                }
                            };
                            assert forall|k2: int, j2: int|
                                #![trigger report_handled(c0, reports@[k2], j2)]
                                0 <= k2 < reports@.len() && report_handled(c0, reports@[k2], j2)
                                    && j2 < i + 1 implies session_lines(
                                self.log_store@,
                                reports@[k2].session_id,
                            ) == lines_after(c0, reports@[k2]) by {
                                if j2 == i as int {
                                    assert(reports@[k2].session_id == id);
                                    assert(k2 == k as int);
                                } else {
                                    assert(reports@[k2].session_id == c0.sessions@[j2].id);
                                    assert(reports@[k2].session_id != id);
                                }
                            }
                            if exited is Some {
                                assert(exit_observed(c0, reports@, i as int) == reports@[k as int].exit)
                                    by {
                                    assert(report_handled(c0, reports@[k as int], i as int)
                                        && reports@[k as int].exit is Some);
                                    let k4 = choose|k3: int|
                                        0 <= k3 < reports@.len() && reports@[k3].session_id
                                            == c0.sessions@[i as int].id && report_handled(
                                            c0,
                                            reports@[k3],
                                            i as int,
                                        ) && reports@[k3].exit is Some;
                                    assert(k4 == k as int);
                                };
                            } else {
                                assert(exit_observed(c0, reports@, i as int) is None) by {
                                    if exists|k3: int|
                                        0 <= k3 < reports@.len() && reports@[k3].session_id
                                            == c0.sessions@[i as int].id && report_handled(
                                            c0,
                                            reports@[k3],
                                            i as int,
                                        ) && reports@[k3].exit is Some {
                                        let k3 = choose|k3: int|
                                            0 <= k3 < reports@.len() && reports@[k3].session_id
                                                == c0.sessions@[i as int].id && report_handled(
                                                c0,
                                                reports@[k3],
                                                i as int,
                                            ) && reports@[k3].exit is Some;
                                        assert(k3 == k as int);
                                        assert(false);
                                    }
                                };
                            }
                        }
                    } else {
                        proof {
                            assert(forall|j2: int| !report_handled(c0, reports@[k as int], j2));
                            assert(exit_observed(c0, reports@, i as int) is None);
                            assert(handled_report(c0, reports@, i as int) is None) by {
                                if exists|k5: int|
                                    0 <= k5 < reports@.len() && reports@[k5].session_id
                                        == c0.sessions@[i as int].id && report_handled(
                                        c0,
                                        reports@[k5],
                                        i as int,
                                    ) {
                                    let k5 = choose|k5: int|
                                        0 <= k5 < reports@.len() && reports@[k5].session_id
                                            == c0.sessions@[i as int].id && report_handled(
                                            c0,
                                            reports@[k5],
                                            i as int,
                                        );
                                    assert(k5 == k as int);
                                    assert(false);
                                }
                            };
                            assert(!output_refreshed(c0, reports@, id)) by {
                                if output_refreshed(c0, reports@, id) {
                                    let (k2, j2) = choose|k2: int, j2: int|
                                        0 <= k2 < reports@.len() && reports@[k2].session_id == id
                                            && report_handled(c0, reports@[k2], j2)
                                            && reports@[k2].chunks@.len() > 0;
                                    assert(j2 == i as int);
                                    assert(k2 == k as int);
                                    assert(false);
                                }
                            };
                        }
                    }
                },
                None => {
                    proof {
                        assert(exit_observed(c0, reports@, i as int) is None);
                        assert(handled_report(c0, reports@, i as int) is None);
                        assert(!output_refreshed(c0, reports@, id)) by {
                            if output_refreshed(c0, reports@, id) {
                                let (k2, j2) = choose|k2: int, j2: int|
                                    0 <= k2 < reports@.len() && reports@[k2].session_id == id
                                        && report_handled(c0, reports@[k2], j2)
                                        && reports@[k2].chunks@.len() > 0;
                            }
                        };
                    }
                },
            }

            match exited {
                Some(e) => {
                    self.live_bridges.remove(&id);
                    self.last_output_at.remove(&id);
                    let mut s = self.sessions.remove(i);
                    if s.status == SessionStatus::NeedsInput {
                        let _ = s.transition_to(SessionStatus::Running, now_ms);
                    }
                    if e.success {
                        let _ = s.transition_to(SessionStatus::Done, now_ms);
                    } else {
                        let _ = s.transition_to(SessionStatus::Failed, now_ms);
                    }
                    s.exit_code = Some(#[verifier::truncate] (e.exit_code as i32));
                    s.pty_pid = None;
                    self.sessions.insert(i, s);
                    let ghost acts_mid = actions@;
                    actions.push(Action::RemoveBridge { session_id: id });
                    state_changed = true;
                    proof {
                        assert(tick_status(c0, reports@, i as int, now_ms) == (if e.success {
                            SessionStatus::Done
                        } else {
                            SessionStatus::Failed
                        }));
                        assert(models_of(actions@) =~= models_of(acts_mid).push(
                            (
                                6int,
                                c0.sessions@[i as int].id,
                                Seq::<char>::empty(),
                                Seq::<char>::empty(),
                                Seq::<u8>::empty(),
                            ),
                        ));
                        assert(session_tick_models(c0, reports@, i as int) =~= chunk_models(
                            c0.sessions@[i as int].log_path@,
                            handled_report(c0, reports@, i as int).unwrap().chunks@,
                        ) + seq![
                            (
                                6int,
                                c0.sessions@[i as int].id,
                                Seq::<char>::empty(),
                                Seq::<char>::empty(),
                                Seq::<u8>::empty(),
                            ),
                        ]);
                        assert(models_of(actions@) =~= tick_models_upto(
                            c0,
                            reports@,
                            i + 1,
                        ));
                    }
                },
                None => {
                    // No exit: a running session may still be flagged as
                    // waiting for input, by the heuristic or by the timeout.
                    let mut flag = detected;
                    if !flag && st == SessionStatus::Running {
                        let t = self.last_output_at.get(&id);
                        match t {
                            Some(t0) => {
                                let timeout_ms: i128 = self.config.needs_input_timeout_sec as i128
                                    * 1000;
                                if (now_ms as i128) - (*t0 as i128) > timeout_ms {
                                    flag = true;
                                }
                            },
                            None => {},
                        }
                    }
                    proof {
                        if detected {
                            assert(marked_needs_input(c0, reports@, i as int, now_ms));
                        }
                        if marked_needs_input(c0, reports@, i as int, now_ms) && !detected {
                            if exists|k2: int|
                                0 <= k2 < reports@.len() && reports@[k2].session_id
                                    == c0.sessions@[i as int].id && prompt_detected(
                                    c0,
                                    reports@[k2],
                                    i as int,
                                ) {
                                let k2 = choose|k2: int|
                                    0 <= k2 < reports@.len() && reports@[k2].session_id
                                        == c0.sessions@[i as int].id && prompt_detected(
                                        c0,
                                        reports@[k2],
                                        i as int,
                                    );
                                assert(found matches Some(k) && k2 == k as int);
                                assert(false);
                            }
                            assert(silent_too_long(c0, reports@, i as int, now_ms));
                        }
                        if flag && !detected {
                            assert(st == SessionStatus::Running);
                            if !output_refreshed(c0, reports@, id) {
                                assert(silent_too_long(c0, reports@, i as int, now_ms));
                            } else {
                                let (k2, j2) = choose|k2: int, j2: int|
                                    0 <= k2 < reports@.len() && reports@[k2].session_id == id
                                        && report_handled(c0, reports@[k2], j2)
                                        && reports@[k2].chunks@.len() > 0;
                                assert(j2 == i as int);
                                assert(found matches Some(k) && k2 == k as int);
                                assert(self.last_output()[id] == now_ms);
                                assert(false);
                            }
                        }
                        if silent_too_long(c0, reports@, i as int, now_ms) && !detected {
                            assert(st == SessionStatus::Running);
                            assert(!output_refreshed(c0, reports@, id));
                            assert(self.last_output().contains_key(id));
                            assert(self.last_output()[id] == c0.last_output()[id]);
                            assert(flag);
                        }
                        assert(flag == marked_needs_input(c0, reports@, i as int, now_ms));
                    }
                    if flag && st == SessionStatus::Running {
                        let mut s = self.sessions.remove(i);
                        let _ = s.transition_to(SessionStatus::NeedsInput, now_ms);
                        self.sessions.insert(i, s);
                        state_changed = true;
                    } else {
                        proof {
                            if flag {
                                assert(c0.sessions@[i as int].status == SessionStatus::Running);
                            }
                            assert(tick_status(c0, reports@, i as int, now_ms)
                                == c0.sessions@[i as int].status);
                        }
                    }
                    proof {
                        assert(models_of(actions@) =~= tick_models_upto(c0, reports@, i + 1)) by {
                            if handled_report(c0, reports@, i as int) is Some {
                                assert(session_tick_models(c0, reports@, i as int) =~= chunk_models(
                                    c0.sessions@[i as int].log_path@,
                                    handled_report(c0, reports@, i as int).unwrap().chunks@,
                                ));
                            } else {
                                assert(session_tick_models(c0, reports@, i as int)
                                    =~= Seq::<(int, u128, Seq<char>, Seq<char>, Seq<u8>)>::empty());
                                assert(models_of(actions@) == models_of(acts_pre));
                            }
                        };
                    }
                },
            }
            i = i + 1;
        }

        let ghost acts2 = actions@;
        if state_changed {
            actions.push(Action::SaveSessions);
        }
        proof {
            assert(state_changed == any_status_moved(c0, reports@, now_ms));
            if state_changed {
                assert(models_of(actions@) =~= models_of(acts2).push(
                    (
                        7int,
                        0u128,
                        Seq::<char>::empty(),
                        Seq::<char>::empty(),
                        Seq::<u8>::empty(),
                    ),
                ));
            }
            assert(models_of(actions@) =~= tick_action_models(c0, reports@, now_ms));
        }
        actions
    }

    /// Keys of the session-creation dialog: collect a name, then a path,
    /// then ask the caller to validate the directory and create the session.
    pub fn handle_create_dialog(&mut self, key: KeyInput) -> (actions: Vec<Action>)
        ensures
            create_dialog_effect(*old(self), *final(self), key, actions@)
    {
        let mut actions: Vec<Action> = Vec::new();
        match key.code {
            KeyPress::Escape => {
                self.creating_session = false;
            },
            KeyPress::Enter => {
                if self.create_step == CreateStep::Name {
                    self.create_step = CreateStep::Path;
                } else {
                    let name = self.create_name.clone();
                    let path_text = self.create_path.clone();
                    actions.push(Action::CreateSessionRequest { name, path_text });
                    self.creating_session = false;
                }
            },
            KeyPress::Char(c) => {
                if self.create_step == CreateStep::Name {
                    push_char(&mut self.create_name, c);
                } else {
                    push_char(&mut self.create_path, c);
                }
            },
            KeyPress::Backspace => {
                if self.create_step == CreateStep::Name {
                    pop_char(&mut self.create_name);
                } else {
                    pop_char(&mut self.create_path);
                }
            },
            _ => {},
        }
        actions
    }

    /// Keys of the rename dialog: edit the name, apply it on enter (an empty
    /// name is ignored), abandon it on escape.
    pub fn handle_rename_dialog(&mut self, key: KeyInput) -> (actions: Vec<Action>)
        ensures
            rename_dialog_effect(*old(self), *final(self), key, actions@)
    {
        let mut actions: Vec<Action> = Vec::new();
        match key.code {
            KeyPress::Escape => {
                self.renaming = false;
            },
            KeyPress::Enter => {
                if self.active_session < self.sessions.len()
                    && !self.rename_text.as_str().is_empty() {
                    let idx = self.active_session;
                    let mut s = self.sessions.remove(idx);
                    s.name = self.rename_text.clone();
                    self.sessions.insert(idx, s);
                    actions.push(Action::SaveSessions);
                    proof {
                        assert(self.sessions@ =~= old(self).sessions@.update(
                            idx as int,
                            Session {
                                name: self.sessions@[idx as int].name,
                                ..old(self).sessions@[idx as int]
                            },
                        ));
                        assert(actions@ =~= seq![Action::SaveSessions]);
                    }
                }
                self.renaming = false;
            },
            KeyPress::Char(c) => {
                push_char(&mut self.rename_text, c);
            },
            KeyPress::Backspace => {
                pop_char(&mut self.rename_text);
            },
            _ => {},
        }
        actions
    }
}

} // verus!
