//! Decisions of the send side: which options combine, and what a send
//! completion means.

use crate::completion::{CompletionRecord, USER_DATA_STOP};
use crate::error::RingError;
use vstd::prelude::*;

verus! {

/// User data of a send request.
pub const USER_DATA_SEND: u64 = 1;

/// What a completion on the send ring means.
#[derive(Clone, Copy, Debug, PartialEq, Eq, Structural)]
pub enum SendOutcome {
    /// A datagram was sent.
    Sent,
    /// A send failed with `error`; the loop goes on.
    Failed { error: i32 },
    /// The notice that a zero-copy send no longer uses its buffer.
    Notification,
    /// The stop watch completed, with its result.
    Stop { result: i32 },
}

/// Whether a completion's flags mark a notification (bit 3).
pub open spec fn is_notification(flags: u32) -> bool {
    flags & 8 != 0
}

/// Relies on `io_uring::cqueue::notif`: whether the notification flag
/// (bit 3) is set.
#[verifier::external_body]
fn notif(flags: u32) -> (r: bool)
    ensures
        r == is_notification(flags),
{
    io_uring::cqueue::notif(flags)
}

/// Registered buffers are sent from only on the zero-copy path:
/// `InvalidConfiguration` for fixed buffers without zero copy.
pub fn check_send_options(zero_copy: bool, fixed_buffers: bool) -> (r: Result<(), RingError>)
    ensures
        r is Ok <==> (zero_copy || !fixed_buffers),
        r is Err ==> r == Err::<(), RingError>(RingError::InvalidConfiguration),
{
    if fixed_buffers && !zero_copy {
        Err(RingError::InvalidConfiguration)
    } else {
        Ok(())
    }
}

/// What a send-ring completion means; `ProtocolViolation` for user data
/// that no request carries.
pub fn classify_send(c: &CompletionRecord) -> (r: Result<SendOutcome, RingError>)
    ensures
        c.user_data == USER_DATA_STOP ==> r == Ok::<SendOutcome, RingError>(
            SendOutcome::Stop { result: c.result },
        ),
        c.user_data == USER_DATA_SEND ==> r == Ok::<SendOutcome, RingError>(
            if is_notification(c.flags) {
                SendOutcome::Notification
            } else if c.result < 0 {
                SendOutcome::Failed { error: c.result }
            } else {
                SendOutcome::Sent
            },
        ),
        c.user_data != USER_DATA_STOP && c.user_data != USER_DATA_SEND ==> r == Err::<
            SendOutcome,
            RingError,
        >(RingError::ProtocolViolation),
{
    if c.user_data == USER_DATA_STOP {
        Ok(SendOutcome::Stop { result: c.result })
    } else if c.user_data == USER_DATA_SEND {
        if notif(c.flags) {
            Ok(SendOutcome::Notification)
        } else if c.result < 0 {
            Ok(SendOutcome::Failed { error: c.result })
        } else {
            Ok(SendOutcome::Sent)
        }
    } else {
        Err(RingError::ProtocolViolation)
    }
}

} // verus!
