//! The decisions of the server: what a connection's handler does with what
//! it read, how the process moves from startup to its exit, and what a
//! shutdown reports.
//!
//! The server performs the I/O; each function here takes what happened and
//! says what to do next.

use vstd::prelude::*;
use crate::budget::ByteBudget;
use crate::budget::Verdict;
use crate::console::session_summary;
use crate::console::shutdown_message;
use crate::record::encode_record;
use crate::record::record_bytes;
use crate::size::readable_text;

verus! {

/// What a handler does with the one read of its connection.
#[derive(Debug)]
pub enum HandlerPlan {
    /// Nothing came, or the read failed: flush the log and write no record.
    FlushOnly,
    /// A message came: append `record` to the log in one piece, flush, then
    /// count `length` bytes against the cap.
    Append { record: Vec<u8>, length: usize },
}

/// Decides what to do with the one read of a connection. `received` is what
/// the read gave, `None` where it failed; `millis` is the time of arrival
/// and `client` the peer's address.
pub fn log_message(millis: u128, client: &str, received: Option<&[u8]>) -> (plan: HandlerPlan)
    ensures
        match received {
            Some(payload) if payload@.len() > 0 => plan matches HandlerPlan::Append {
                record,
                length,
            } && record@ == record_bytes(millis as nat, client@, payload@) && length
                == payload@.len(),
            _ => plan is FlushOnly,
        },
{
    match received {
        Some(payload) => {
            if payload.len() > 0 {
                HandlerPlan::Append {
                    record: encode_record(millis, client, payload),
                    length: payload.len(),
                }
            } else {
                HandlerPlan::FlushOnly
            }
        },
        None => HandlerPlan::FlushOnly,
    }
}

/// Where the process stands.
#[derive(Clone, Copy, Debug, PartialEq, Eq, Structural)]
pub enum Phase {
    /// The log file is not yet opened and measured.
    Starting,
    /// Connections are accepted and records written.
    Listening,
    /// The interrupt came; the log is flushed and the summary printed.
    ShuttingDown { code: i32 },
    /// The process has ended with this exit code.
    Exited { code: i32 },
}

/// What moves the process from one phase to the next.
#[derive(Clone, Copy, Debug, PartialEq, Eq, Structural)]
pub enum Event {
    /// The log file was opened and measured.
    Measured { startup_size: usize, max_size: usize },
    /// A handler wrote a record, counted it, and got this verdict.
    Counted { verdict: Verdict },
    /// The wait for the interrupt ended: the signal came, or the wait failed.
    Interrupt { delivered: bool },
    /// The shutdown has flushed the log and printed its summary.
    Reported,
}

impl Phase {
    /// The phase that follows on an event. An event that has no place in a
    /// phase leaves it as it is; nothing leads out of `Exited`.
    pub open spec fn spec_next(self, event: Event) -> Phase {
        match (self, event) {
            (Phase::Starting, Event::Measured { startup_size, max_size }) => if startup_size
                > max_size {
                Phase::Exited { code: 1 }
            } else {
                Phase::Listening
            },
            (Phase::Listening, Event::Counted { verdict: Verdict::Exceeded }) => Phase::Exited {
                code: 1,
            },
            (Phase::Listening, Event::Interrupt { delivered }) => Phase::ShuttingDown {
                code: if delivered {
                    0
                } else {
                    1
                },
            },
            (Phase::ShuttingDown { code }, Event::Counted { verdict: Verdict::Exceeded }) => {
                Phase::Exited { code: 1 }
            },
            (Phase::ShuttingDown { code }, Event::Reported) => Phase::Exited { code },
            _ => self,
        }
    }

    /// Whether records are written in this phase.
    pub open spec fn spec_writes_records(self) -> bool {
        self is Listening || self is ShuttingDown
    }

    /// The phase after every event of a sequence, in order.
    pub open spec fn after(self, events: Seq<Event>) -> Phase
        decreases events.len(),
    {
        if events.len() == 0 {
            self
        } else {
            self.after(events.drop_last()).spec_next(events.last())
        }
    }

    /// The phase that follows on an event.
    #[verifier::when_used_as_spec(spec_next)]
    pub fn next(self, event: Event) -> (phase: Phase)
        ensures
            phase == self.spec_next(event),
    {
        match self {
            Phase::Starting => match event {
                Event::Measured { startup_size, max_size } => {
                    if startup_size > max_size {
                        Phase::Exited { code: 1 }
                    } else {
                        Phase::Listening
                    }
                },
                _ => self,
            },
            Phase::Listening => match event {
                Event::Counted { verdict: Verdict::Exceeded } => Phase::Exited { code: 1 },
                Event::Interrupt { delivered } => {
                    if delivered {
                        Phase::ShuttingDown { code: 0 }
                    } else {
                        Phase::ShuttingDown { code: 1 }
                    }
                },
                _ => self,
            },
            Phase::ShuttingDown { code } => match event {
                Event::Counted { verdict: Verdict::Exceeded } => Phase::Exited { code: 1 },
                Event::Reported => Phase::Exited { code },
                _ => self,
            },
            Phase::Exited { .. } => self,
        }
    }

    /// Whether records are written in this phase.
    #[verifier::when_used_as_spec(spec_writes_records)]
    pub fn writes_records(self) -> (b: bool)
        ensures
            b == self.spec_writes_records(),
    {
        match self {
            Phase::Listening => true,
            Phase::ShuttingDown { .. } => true,
            _ => false,
        }
    }

    /// The exit code, once the process has ended.
    pub fn exit_code(self) -> (code: Option<i32>)
        ensures
            code == (match self {
                Phase::Exited { code } => Some(code),
                _ => None,
            }),
    {
        match self {
            Phase::Exited { code } => Some(code),
            _ => None,
        }
    }
}

/// What a graceful shutdown prints, and the code it exits with.
#[derive(Debug)]
pub struct ShutdownReport {
    pub message: String,
    pub summary: String,
    pub exit_code: i32,
}

/// Plans the graceful shutdown: after the log is flushed, the message and
/// the summary are printed and the process exits, with code 0 where the
/// interrupt came and 1 where waiting for it failed for the reason given.
pub fn graceful_shutdown(failure: Option<&str>, bytes_counter: &ByteBudget) -> (report:
    ShutdownReport)
    ensures
        report.message@ == (match failure {
            None => "Ctrl+C received, shutting down server..."@,
            Some(reason) => "Failed to listen for Ctrl+C: "@ + reason@,
        }),
        report.summary@ == "Total log size: "@ + readable_text(bytes_counter@.total)
            + " | Written in this session: "@ + readable_text(
            (bytes_counter@.total - bytes_counter@.startup) as nat,
        ),
        report.exit_code == (if failure is None {
            0i32
        } else {
            1i32
        }),
{
    let exit_code: i32 = match failure {
        None => 0,
        Some(_) => 1,
    };
    ShutdownReport {
        message: shutdown_message(failure),
        summary: session_summary(bytes_counter),
        exit_code,
    }
}

/// A file that is over the cap at startup ends the process with code 1
/// before it listens, and no later event brings it back.
pub proof fn lemma_oversize_never_listens(startup_size: usize, max_size: usize, events: Seq<Event>)
    requires
        startup_size > max_size,
    ensures
        Phase::Starting.spec_next(Event::Measured { startup_size, max_size }) == (Phase::Exited {
            code: 1,
        }),
        !Phase::Starting.spec_next(Event::Measured { startup_size, max_size }).after(
            events,
        ).spec_writes_records(),
{
    lemma_exit_is_final(1, events);
}

/// Once the process has ended, it has ended: whatever events follow, the
/// phase and its exit code stay, and no record is written.
pub proof fn lemma_exit_is_final(code: i32, events: Seq<Event>)
    ensures
        (Phase::Exited { code }).after(events) == (Phase::Exited { code }),
        !(Phase::Exited { code }).after(events).spec_writes_records(),
    decreases events.len(),
{
    if events.len() > 0 {
        lemma_exit_is_final(code, events.drop_last());
    }
}

/// Once a handler finds the counter over the cap, the process ends with
/// code 1, whatever phase wrote the record, and from then on no record is
/// written.
pub proof fn lemma_overflow_ends_process(phase: Phase, events: Seq<Event>)
    requires
        phase.spec_writes_records(),
    ensures
        phase.spec_next(Event::Counted { verdict: Verdict::Exceeded }) == (Phase::Exited {
            code: 1,
        }),
        phase.spec_next(Event::Counted { verdict: Verdict::Exceeded }).after(events) == (
        Phase::Exited { code: 1 }),
        !phase.spec_next(Event::Counted { verdict: Verdict::Exceeded }).after(
            events,
        ).spec_writes_records(),
{
    lemma_exit_is_final(1, events);
}

} // verus!
