//! The session state machine and the decisions of its relays.
//!
//! A session lives in one of three states: created (pseudo-terminal
//! allocated, geometry applied), running (child shell spawned, relays
//! started), terminated (pseudo-terminal closed, child reaped). The
//! unverified binary runs the blocking loops — reading the real terminal,
//! reading the pseudo-terminal master, waiting on signals — and hands every
//! chunk it reads to the functions here, which decide what happens and keep
//! the model of the log; the binary mirrors each log operation onto the real
//! file under the log's lock, in the order decided here.

use vstd::prelude::*;
use vstd::string::{StringExecFns, StringSliceAdditionalSpecFns};

use crate::boundary::{chunk_has_boundary, has_boundary};
use crate::errors::WtgError;
use crate::log::{
    entries_bytes, lemma_entries_bytes_push, marker_bytes, marker_count, LogEntry, SessionLog,
};
use crate::text::{ascii_lower, eq_bytes, spec_trim, to_ascii_lower, trim_bytes};

verus! {

/// Lifecycle of a session: it ends only when the child shell exits and the
/// pseudo-terminal closes; there is no pause and no cancellation.
#[derive(Clone, Copy, Debug, PartialEq, Eq, Structural)]
pub enum SessionState {
    Created,
    Running,
    Terminated,
}

/// What the input forwarder must do with a chunk it has read from the real
/// terminal.
pub struct InputDirective {
    /// The boundary handshake ran: the sentinel marker now stands in the
    /// log, and only now may the chunk reach the pseudo-terminal, so the
    /// shell cannot produce any of the new command's output before the
    /// marker is in place.
    pub handshake: bool,
    /// The bytes to forward to the pseudo-terminal, boundary byte included.
    pub forward: Vec<u8>,
}

/// The verified model of one session.
pub struct Session {
    pub state: SessionState,
    pub log: SessionLog,
    /// Commands submitted so far, by the line-ending heuristic.
    pub completed_commands: usize,
    /// The real terminal's input has not reached end-of-input yet.
    pub input_open: bool,
}

impl Session {
    /// The log carries exactly one sentinel marker per completed command.
    pub open spec fn wf(self) -> bool {
        marker_count(self.log.entries@) == self.completed_commands
    }

    /// A fresh session: pseudo-terminal allocated, nothing logged yet.
    pub fn new() -> (r: Session)
        ensures
            r.state is Created,
            r.log.entries@ =~= Seq::<LogEntry>::empty(),
            r.completed_commands == 0,
            r.input_open,
            r.wf(),
    {
        Session { state: SessionState::Created, log: SessionLog::new(), completed_commands: 0, input_open: true }
    }

    /// The child shell is spawned on the pseudo-terminal slave and all
    /// relays are started: the session is running.
    pub fn start(&mut self)
        requires
            old(self).state is Created,
        ensures
            final(self).state is Running,
            final(self).log.entries@ == old(self).log.entries@,
            final(self).completed_commands == old(self).completed_commands,
            final(self).input_open == old(self).input_open,
            old(self).wf() ==> final(self).wf(),
    {
        self.state = SessionState::Running;
    }

    /// One chunk read from the real terminal's input. When the chunk holds a
    /// command boundary, the handshake runs first: the sentinel marker is
    /// appended to the log before the chunk — boundary byte included — may
    /// be forwarded to the pseudo-terminal. Without a boundary the chunk is
    /// forwarded untouched and the log is left alone.
    pub fn on_input_chunk(&mut self, chunk: Vec<u8>) -> (d: InputDirective)
        requires
            old(self).state is Running,
            old(self).input_open,
            old(self).wf(),
            old(self).completed_commands < usize::MAX,
        ensures
            final(self).wf(),
            final(self).state == old(self).state,
            final(self).input_open == old(self).input_open,
            d.forward@ == chunk@,
            d.handshake == has_boundary(chunk@),
            has_boundary(chunk@) ==> final(self).log.entries@ == old(self).log.entries@.push(
                LogEntry::Marker,
            ) && final(self).completed_commands == old(self).completed_commands + 1,
            !has_boundary(chunk@) ==> final(self).log.entries@ == old(self).log.entries@
                && final(self).completed_commands == old(self).completed_commands,
    {
        let handshake = chunk_has_boundary(chunk.as_slice());
        if handshake {
            self.log.insert_marker();
            self.completed_commands = self.completed_commands + 1;
        }
        InputDirective { handshake, forward: chunk }
    }

    /// End of input on the real terminal: the forwarder stops; the session
    /// itself ends only when the pseudo-terminal closes.
    pub fn on_input_closed(&mut self)
        requires
            old(self).state is Running,
        ensures
            final(self).state == old(self).state,
            final(self).log.entries@ == old(self).log.entries@,
            final(self).completed_commands == old(self).completed_commands,
            !final(self).input_open,
            old(self).wf() ==> final(self).wf(),
    {
        self.input_open = false;
    }

    /// One chunk read from the pseudo-terminal master: it is appended to the
    /// log as a single write under the lock, and the same bytes are returned
    /// for the screen. The screen and log writes are independent side
    /// effects of the same read; no ordering between the two is promised.
    pub fn on_pty_output(&mut self, bytes: Vec<u8>) -> (screen: Vec<u8>)
        requires
            old(self).state is Running,
            old(self).wf(),
        ensures
            final(self).wf(),
            final(self).state == old(self).state,
            final(self).input_open == old(self).input_open,
            final(self).completed_commands == old(self).completed_commands,
            final(self).log.entries@ == old(self).log.entries@.push(LogEntry::Output(bytes)),
            screen@ == bytes@,
    {
        let screen = copy_bytes(&bytes);
        self.log.append_output(bytes);
        screen
    }

    /// Zero-length read from the pseudo-terminal master: the child closed
    /// its terminal; the session is over and the child must be reaped.
    pub fn on_pty_closed(&mut self)
        requires
            old(self).state is Running,
        ensures
            final(self).state is Terminated,
            final(self).log.entries@ == old(self).log.entries@,
            final(self).completed_commands == old(self).completed_commands,
            final(self).input_open == old(self).input_open,
            old(self).wf() ==> final(self).wf(),
    {
        self.state = SessionState::Terminated;
    }
}

/// A copy of a byte vector.
fn copy_bytes(v: &Vec<u8>) -> (r: Vec<u8>)
    ensures
        r@ == v@,
{
    let mut out: Vec<u8> = Vec::new();
    let mut i: usize = 0;
    while i < v.len()
        invariant
            i <= v@.len(),
            out@ == v@.take(i as int),
        decreases v@.len() - i,
    {
        out.push(v[i]);
        proof {
            assert(v@.take(i + 1) =~= v@.take(i as int).push(v@[i as int]));
        }
        i += 1;
    }
    proof {
        assert(v@.take(v@.len() as int) =~= v@);
    }
    out
}

/// In every well-formed session the log holds exactly one sentinel marker
/// per completed command, in append order.
pub proof fn lemma_marker_per_command(s: Session)
    requires
        s.wf(),
    ensures
        marker_count(s.log.entries@) == s.completed_commands,
{
}

/// The ordering guarantee the boundary handshake buys: when a command's
/// marker is inserted and a chunk of that command's output is relayed
/// afterwards, the log's bytes are the earlier content, then the whole
/// marker, then the output — the marker stands strictly before every byte of
/// the output it precedes, and nothing already written moves.
pub proof fn lemma_marker_precedes_output(entries: Seq<LogEntry>, output: Vec<u8>)
    ensures
        entries_bytes(entries.push(LogEntry::Marker).push(LogEntry::Output(output)))
            == entries_bytes(entries) + marker_bytes() + output@,
{
    lemma_entries_bytes_push(entries, LogEntry::Marker);
    lemma_entries_bytes_push(entries.push(LogEntry::Marker), LogEntry::Output(output));
}

/// Where a query's context comes from: piped standard input is used
/// verbatim, bypassing marker extraction; with a real terminal attached, the
/// session log is consulted.
#[derive(Clone, Copy, Debug, PartialEq, Eq, Structural)]
pub enum ContextSource {
    Piped,
    LogFile,
}

/// Decide the context source for a query from whether standard input is a
/// terminal.
pub fn choose_context_source(stdin_is_tty: bool) -> (r: ContextSource)
    ensures
        (r is LogFile) == stdin_is_tty,
{
    if stdin_is_tty {
        ContextSource::LogFile
    } else {
        ContextSource::Piped
    }
}

/// The log path for a query or chat: an explicit argument wins over the
/// path the session published in the environment; with neither there is no
/// log to consult.
pub fn resolve_logfile(arg: Option<String>, env_log: Option<String>) -> (r: Option<String>)
    ensures
        arg matches Some(p) ==> r matches Some(s) && s@ == p@,
        arg is None ==> r == env_log,
{
    match arg {
        Option::Some(p) => Option::Some(p),
        Option::None => env_log,
    }
}

/// The words that end an interactive chat, checked on the trimmed and
/// ASCII-lowered input line: exit, e, q, quit.
pub open spec fn spec_is_exit_word(s: Seq<u8>) -> bool {
    let t = ascii_lower(spec_trim(s));
    t == ("exit").spec_bytes() || t == ("e").spec_bytes() || t == ("q").spec_bytes() || t == (
    "quit").spec_bytes()
}

/// Whether a chat input line asks to end the chat.
pub fn is_exit_command(line: &[u8]) -> (r: bool)
    ensures
        r == spec_is_exit_word(line@),
{
    let t = trim_bytes(line);
    let low = to_ascii_lower(t.as_slice());
    eq_bytes(low.as_slice(), ("exit").as_bytes()) || eq_bytes(low.as_slice(), ("e").as_bytes())
        || eq_bytes(low.as_slice(), ("q").as_bytes()) || eq_bytes(
        low.as_slice(),
        ("quit").as_bytes(),
    )
}

/// Extend the chat transcript with one exchange, in the running format the
/// next query sends as context.
pub fn append_chat_turn(context: String, prompt: &str, response: &str) -> (r: String)
    ensures
        r@ == context@ + "\nuser: "@ + prompt@ + "\nassistant: "@ + response@,
{
    context.concat("\nuser: ").concat(prompt).concat("\nassistant: ").concat(response)
}

/// An interactive chat needs a real terminal on standard input; anything
/// else is rejected before any work is done.
pub fn chat_requires_tty(stdin_is_tty: bool) -> (r: Result<(), WtgError>)
    ensures
        (r is Ok) == stdin_is_tty,
        r matches Err(e) ==> e is ChatNotTty,
{
    if stdin_is_tty {
        Result::Ok(())
    } else {
        Result::Err(WtgError::ChatNotTty)
    }
}

} // verus!
