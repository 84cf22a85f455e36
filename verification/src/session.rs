//! The decision core of a connection's reader task.
//!
//! The loop that awaits frames lives outside the library; each frame it
//! receives is handed to [`reader_step`], which decides everything else:
//! text frames are diagnostic and ignored, binary frames decode into an
//! action that lands in the intake, a decode failure is local to that
//! one message, and a close frame ends the session.

use vstd::prelude::*;

use crate::codec::action_bytes_ok;
use crate::codec::decode_action;
use crate::codec::decode_action_spec;
use crate::intake::ActionIntake;

verus! {

/// One inbound frame, as plain values.
pub enum InboundFrame {
    /// A text frame: a diagnostic channel, ignored by the simulation.
    Text(String),
    /// A binary frame: an encoded action.
    Binary(Vec<u8>),
    /// The peer closed the connection.
    Close,
    /// Anything else the transport surfaces (pings and the like).
    Other,
}

/// What one frame did.
#[derive(Clone, Copy, Debug, PartialEq, Eq, Structural)]
pub enum ReaderOutcome {
    /// A decoded action now sits in this player's intake slot.
    Submitted,
    /// The payload did not decode; nothing reached the intake and the
    /// session continues.
    Rejected,
    /// A diagnostic or unrecognized frame; nothing happened.
    Ignored,
    /// The session is over; the reader stops.
    Closed,
}

/// Handles one inbound frame for one connection. Only a well-formed
/// binary frame touches the intake, and then only this player's slot; a
/// decode error changes nothing and does not end the session — only a
/// close frame does.
pub fn reader_step(intake: &mut ActionIntake, player_id: u128, frame: InboundFrame) -> (r:
    ReaderOutcome)
    requires
        old(intake).wf(),
    ensures
        final(intake).wf(),
        match frame {
            InboundFrame::Binary(b) => {
                if action_bytes_ok(b@) {
                    r == ReaderOutcome::Submitted && final(intake)@ == old(intake)@.insert(
                        player_id,
                        decode_action_spec(b@),
                    )
                } else {
                    r == ReaderOutcome::Rejected && final(intake)@ == old(intake)@
                }
            },
            InboundFrame::Text(_) => r == ReaderOutcome::Ignored && final(intake)@ == old(
                intake,
            )@,
            InboundFrame::Close => r == ReaderOutcome::Closed && final(intake)@ == old(intake)@,
            InboundFrame::Other => r == ReaderOutcome::Ignored && final(intake)@ == old(intake)@,
        },
{
    match frame {
        InboundFrame::Binary(buffer) => {
            match decode_action(buffer.as_slice()) {
                Ok(action) => {
                    intake.submit(player_id, action);
                    ReaderOutcome::Submitted
                },
                Err(_) => ReaderOutcome::Rejected,
            }
        },
        InboundFrame::Text(_) => ReaderOutcome::Ignored,
        InboundFrame::Close => ReaderOutcome::Closed,
        InboundFrame::Other => ReaderOutcome::Ignored,
    }
}

} // verus!
