//! Decision logic of the TLS transport.
//!
//! The transport couples a TLS session object — a push/pull state machine
//! that reports whether it is handshaking, wants to read ciphertext, or
//! wants to write ciphertext — to a raw socket. The socket I/O itself cannot
//! stand here; the caller owns it, queries the session's flags, and asks
//! these functions what to do next, so that the sequencing rules are the
//! verified part.

use vstd::prelude::*;

verus! {

/// Where the prior-I/O pump stands: before the handshake check, before the
/// queued-write check, or done.
#[derive(Debug, Clone, Copy, PartialEq, Eq, Structural)]
pub enum PriorIoPhase {
    CheckHandshake,
    CheckQueuedWrite,
    Done,
}

/// What the caller does at the current step: drive one round of ciphertext
/// I/O against the socket, or skip it.
#[derive(Debug, Clone, Copy, PartialEq, Eq, Structural)]
pub enum PumpAction {
    DriveIo,
    Skip,
}

/// The prior-I/O rule: one round of ciphertext I/O while the session is
/// mid-handshake, then one round while ciphertext still waits to be written,
/// querying the session afresh between the two. This guarantees no plaintext
/// write is queued behind an unflushed handshake or an earlier write.
pub open spec fn spec_prior_io_action(
    phase: PriorIoPhase,
    is_handshaking: bool,
    wants_write: bool,
) -> (PriorIoPhase, PumpAction) {
    match phase {
        PriorIoPhase::CheckHandshake => (
            PriorIoPhase::CheckQueuedWrite,
            if is_handshaking {
                PumpAction::DriveIo
            } else {
                PumpAction::Skip
            },
        ),
        PriorIoPhase::CheckQueuedWrite => (
            PriorIoPhase::Done,
            if wants_write {
                PumpAction::DriveIo
            } else {
                PumpAction::Skip
            },
        ),
        PriorIoPhase::Done => (PriorIoPhase::Done, PumpAction::Skip),
    }
}

/// One decision of the prior-I/O pump, as [`spec_prior_io_action`] says;
/// `is_handshaking` and `wants_write` are the session's flags as queried at
/// this step.
pub fn prior_io_action(phase: PriorIoPhase, is_handshaking: bool, wants_write: bool) -> (r: (
    PriorIoPhase,
    PumpAction,
))
    ensures
        r == spec_prior_io_action(phase, is_handshaking, wants_write),
{
    match phase {
        PriorIoPhase::CheckHandshake => (
            PriorIoPhase::CheckQueuedWrite,
            if is_handshaking {
                PumpAction::DriveIo
            } else {
                PumpAction::Skip
            },
        ),
        PriorIoPhase::CheckQueuedWrite => (
            PriorIoPhase::Done,
            if wants_write {
                PumpAction::DriveIo
            } else {
                PumpAction::Skip
            },
        ),
        PriorIoPhase::Done => (PriorIoPhase::Done, PumpAction::Skip),
    }
}

/// The read-preparation rule: after the prior I/O is complete, ciphertext
/// rounds continue exactly while the session still wants to read and the
/// last round moved bytes — a round that moved none means the peer closed or
/// has nothing more, and blocking further would hang a half-closed
/// connection. `last_transferred` is `None` before the first round.
pub fn read_pump_continues(wants_read: bool, last_transferred: Option<usize>) -> (r: bool)
    ensures
        r == (wants_read && (match last_transferred {
            Some(n) => n != 0,
            None => true,
        })),
{
    wants_read && (match last_transferred {
        Some(n) => n != 0,
        None => true,
    })
}

/// The request line of the wire grammar: the absolute URL text followed by
/// CRLF, written once per connection.
pub fn format_request(url: &str) -> (r: String)
    ensures
        r@ == url@ + seq!['\r', '\n'],
{
    let mut r = url.to_owned();
    r.push('\r');
    r.push('\n');
    proof {
        assert(r@ =~= url@ + seq!['\r', '\n']);
    }
    r
}

} // verus!
