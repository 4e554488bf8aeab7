//! The decisions of a one-shot LSP session: `initialize`, then
//! `initialized` + `didOpen` + the query, then `shutdown` + `exit`.  The
//! caller moves the bytes; this module says what to send and when to stop.

use vstd::prelude::*;

use crate::text::{append_chars, chars_of, decimal, decimal_chars, string_of};
use crate::tools::lsp_stdio::{operation_label, operation_method, LspOperation};

verus! {

/// The request id of `initialize`.
pub const LSP_INIT_ID: i64 = 1;

/// The request id of the query.
pub const LSP_QUERY_ID: i64 = 2;

/// The request id of `shutdown`.
pub const LSP_SHUTDOWN_ID: i64 = 3;

/// The most messages read while waiting for one reply.
pub const LSP_MAX_MESSAGES: usize = 4096;

/// The largest document (in bytes) sent with `didOpen`.
pub const LSP_MAX_DOCUMENT_BYTES: usize = 1000000;

/// What a query sends: the method, the 0-based position and whether
/// declarations count as references.
pub struct LspQueryPlan {
    pub operation: LspOperation,
    pub method: &'static str,
    pub label: &'static str,
    pub line: u32,
    pub character: u32,
    pub include_declaration: bool,
}

/// A 1-based position as LSP's 0-based one (saturating at 0).
pub open spec fn lsp_position(n: u32) -> u32 {
    if n >= 1 {
        (n - 1) as u32
    } else {
        0
    }
}

/// The query for an operation at a 1-based position; only
/// find-references asks for the declaration too.
pub fn plan_query(op: LspOperation, line_1_based: u32, character_1_based: u32) -> (r:
    LspQueryPlan)
    ensures
        r.operation == op,
        r.method@ == operation_method(op),
        r.label@ == operation_label(op),
        r.line == lsp_position(line_1_based),
        r.character == lsp_position(character_1_based),
        r.include_declaration == (op == LspOperation::FindReferences),
{
    let line = if line_1_based >= 1 {
        line_1_based - 1
    } else {
        0
    };
    let character = if character_1_based >= 1 {
        character_1_based - 1
    } else {
        0
    };
    let include_declaration = match op {
        LspOperation::GoToDefinition => false,
        LspOperation::FindReferences => true,
    };
    LspQueryPlan {
        operation: op,
        method: op.method(),
        label: op.label(),
        line,
        character,
        include_declaration,
    }
}

/// A document larger than [`LSP_MAX_DOCUMENT_BYTES`] is not opened.
pub fn check_document_size(len_bytes: usize) -> (r: Result<(), String>)
    ensures
        r is Ok <==> len_bytes <= LSP_MAX_DOCUMENT_BYTES,
        r matches Err(e) ==> e@ == "file too large for LSP didOpen (max 1_000_000 bytes)"@,
{
    if len_bytes > LSP_MAX_DOCUMENT_BYTES {
        Err(string_of(chars_of("file too large for LSP didOpen (max 1_000_000 bytes)").as_slice()))
    } else {
        Ok(())
    }
}

/// What the session knows of one incoming message: whether it carries
/// `result`, whether it carries `error`, and its integer `id`.
#[derive(Debug, Clone, Copy)]
pub struct LspMessage {
    pub has_result: bool,
    pub has_error: bool,
    pub id: Option<i64>,
}

/// Whether a message is the reply to request `want` (notifications and
/// server requests carry neither `result` nor `error`).
pub open spec fn is_reply_to(m: LspMessage, want: i64) -> bool {
    (m.has_result || m.has_error) && m.id == Some(want)
}

/// Where the session stands.
#[derive(Debug, Clone, Copy, PartialEq, Eq, Structural)]
pub enum LspPhase {
    /// `initialize` was sent; waiting for its reply.
    Initializing,
    /// The query was sent; waiting for its reply.
    Querying,
    /// The session is over.
    Closed,
}

/// What to do after a message.
pub enum LspStep {
    /// Read the next message.
    ReadNext,
    /// `initialize` succeeded: send `initialized`, `didOpen` and the query.
    SendQuery,
    /// `initialize` was answered with an error; the session fails.
    InitFailed,
    /// The query was answered: send `shutdown` and `exit`; the reply is the
    /// outcome (an error reply when `is_error`).
    Answered { is_error: bool },
    /// No reply came within [`LSP_MAX_MESSAGES`] messages.
    TimedOut(String),
}

/// The message of a session that gave up waiting for reply `want`.
pub open spec fn timeout_message(want: i64) -> Seq<char> {
    "timed out waiting for LSP response id="@ + decimal(want as nat)
}

/// The state of one session.
pub struct LspSession {
    phase: LspPhase,
    skipped: usize,
}

impl LspSession {
    #[verifier::type_invariant]
    spec fn bounded(&self) -> bool {
        self.skipped < LSP_MAX_MESSAGES
    }

    pub closed spec fn phase_of(&self) -> LspPhase {
        self.phase
    }

    /// The messages read since the last reply.
    pub closed spec fn skipped_count(&self) -> nat {
        self.skipped as nat
    }

    /// A session whose `initialize` request was just sent.
    pub fn new() -> (r: Self)
        ensures
            r.phase_of() == LspPhase::Initializing,
            r.skipped_count() == 0,
    {
        LspSession { phase: LspPhase::Initializing, skipped: 0 }
    }

    /// The phase.
    pub fn phase(&self) -> (p: LspPhase)
        ensures
            p == self.phase_of(),
    {
        self.phase
    }

    /// The id of the reply the session waits for.
    pub fn awaited_id(&self) -> (id: i64)
        ensures
            id == (if self.phase_of() == LspPhase::Initializing {
                LSP_INIT_ID
            } else {
                LSP_QUERY_ID
            }),
    {
        if self.phase == LspPhase::Initializing {
            LSP_INIT_ID
        } else {
            LSP_QUERY_ID
        }
    }

    /// Takes one message.  A message that is not the awaited reply is
    /// skipped; the [`LSP_MAX_MESSAGES`]-th skipped one ends the session.
    /// The reply to `initialize` leads to the query (or fails the session
    /// when it is an error); the reply to the query ends the session.
    pub fn on_message(&mut self, m: LspMessage) -> (r: LspStep)
        requires
            old(self).phase_of() != LspPhase::Closed,
        ensures
            final(self).skipped_count() < LSP_MAX_MESSAGES,
            ({
                let want = if old(self).phase_of() == LspPhase::Initializing {
                    LSP_INIT_ID
                } else {
                    LSP_QUERY_ID
                };
                if is_reply_to(m, want) {
                    &&& final(self).skipped_count() == 0
                    &&& if old(self).phase_of() == LspPhase::Initializing {
                        if m.has_error {
                            r is InitFailed && final(self).phase_of() == LspPhase::Closed
                        } else {
                            r is SendQuery && final(self).phase_of() == LspPhase::Querying
                        }
                    } else {
                        r == LspStep::Answered { is_error: m.has_error } && final(self).phase_of()
                            == LspPhase::Closed
                    }
                } else if old(self).skipped_count() + 1 == LSP_MAX_MESSAGES {
                    &&& r matches LspStep::TimedOut(e) && e@ == timeout_message(want)
                    &&& final(self).phase_of() == LspPhase::Closed
                    &&& final(self).skipped_count() == 0
                } else {
                    &&& r is ReadNext
                    &&& final(self).phase_of() == old(self).phase_of()
                    &&& final(self).skipped_count() == old(self).skipped_count() + 1
                }
            }),
    {
        proof {
            use_type_invariant(&*self);
        }
        let want = self.awaited_id();
        let is_reply = (m.has_result || m.has_error) && match m.id {
            Some(id) => id == want,
            None => false,
        };
        if is_reply {
            if self.phase == LspPhase::Initializing {
                if m.has_error {
                    self.phase = LspPhase::Closed;
                    self.skipped = 0;
                    LspStep::InitFailed
                } else {
                    self.phase = LspPhase::Querying;
                    self.skipped = 0;
                    LspStep::SendQuery
                }
            } else {
                self.phase = LspPhase::Closed;
                self.skipped = 0;
                LspStep::Answered { is_error: m.has_error }
            }
        } else if self.skipped + 1 == LSP_MAX_MESSAGES {
            self.phase = LspPhase::Closed;
            self.skipped = 0;
            let mut e = chars_of("timed out waiting for LSP response id=");
            let digits = decimal_chars(want as u64);
            append_chars(&mut e, digits.as_slice());
            LspStep::TimedOut(string_of(e.as_slice()))
        } else {
            self.skipped = self.skipped + 1;
            LspStep::ReadNext
        }
    }
}

} // verus!
