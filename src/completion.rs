//! Completion records and their decoding into events.

use vstd::prelude::*;

verus! {

/// User data of the control request that watches for the stop signal.
pub const USER_DATA_STOP: u64 = 0;

/// User data of the first receive request; with one buffer per request,
/// buffer `id` is submitted with `USER_DATA_RECV_FIRST + id`.
pub const USER_DATA_RECV_FIRST: u64 = 1;

/// The flag bit that says a completion carries a selected buffer id.
pub const CQE_F_BUFFER: u32 = 1;

/// The position of the selected buffer id in a completion's flags.
pub const CQE_BUFFER_SHIFT: u32 = 16;

/// The fields of a completion entry that the receive logic reads.
#[derive(Clone, Copy, Debug, PartialEq, Eq, Structural)]
pub struct CompletionRecord {
    pub user_data: u64,
    pub result: i32,
    pub flags: u32,
}

/// How receive requests name their buffer.
#[derive(Clone, Copy, Debug, PartialEq, Eq, Structural)]
pub enum RecvMode {
    /// Each request carries one buffer, named by its user data.
    SlotPerRequest,
    /// Requests draw from a registered buffer group; the executor picks a
    /// buffer and names it in the completion's flags.
    PoolSelected,
}

/// A completion, decoded.
#[derive(Clone, Copy, Debug, PartialEq, Eq, Structural)]
pub enum Event {
    /// The stop watch completed, with its result.
    Stop { result: i32 },
    /// `len` bytes arrived in buffer `id`.
    DataReady { id: u64, len: u32 },
    /// A receive failed with `error`; `buffer` is its buffer when one is known.
    Failed { buffer: Option<u64>, error: i32 },
}

/// The buffer id a completion's flags select, if any.
pub open spec fn selected_buffer(flags: u32) -> Option<u16> {
    if flags & CQE_F_BUFFER != 0 {
        Some((flags >> CQE_BUFFER_SHIFT) as u16)
    } else {
        None
    }
}

/// Relies on `io_uring::cqueue::buffer_select`: when the buffer flag (bit 0)
/// is set, the id held in the bits from 16 up; otherwise `None`.
#[verifier::external_body]
fn buffer_select(flags: u32) -> (r: Option<u16>)
    ensures
        r == selected_buffer(flags),
{
    io_uring::cqueue::buffer_select(flags)
}

/// The event a completion stands for under `mode`, or `None` when its user
/// data or flags fit no request that `mode` submits.
pub open spec fn decode_spec(mode: RecvMode, c: CompletionRecord) -> Option<Event> {
    if c.user_data == USER_DATA_STOP {
        Some(Event::Stop { result: c.result })
    } else {
        match mode {
            RecvMode::SlotPerRequest => {
                let id = (c.user_data - USER_DATA_RECV_FIRST) as u64;
                if c.result < 0 {
                    Some(Event::Failed { buffer: Some(id), error: c.result })
                } else {
                    Some(Event::DataReady { id, len: c.result as u32 })
                }
            },
            RecvMode::PoolSelected => {
                if c.user_data != USER_DATA_RECV_FIRST {
                    None
                } else {
                    match selected_buffer(c.flags) {
                        Some(b) => if c.result < 0 {
                            Some(Event::Failed { buffer: Some(b as u64), error: c.result })
                        } else {
                            Some(Event::DataReady { id: b as u64, len: c.result as u32 })
                        },
                        None => if c.result < 0 {
                            Some(Event::Failed { buffer: None, error: c.result })
                        } else {
                            None
                        },
                    }
                }
            },
        }
    }
}

/// Decode a completion into the event it stands for; `None` for user data
/// that no request carries, or a successful pool receive that names no
/// buffer.
pub fn decode(mode: RecvMode, c: &CompletionRecord) -> (r: Option<Event>)
    ensures
        r == decode_spec(mode, *c),
{
    if c.user_data == USER_DATA_STOP {
        return Some(Event::Stop { result: c.result });
    }
    match mode {
        RecvMode::SlotPerRequest => {
            let id = c.user_data - USER_DATA_RECV_FIRST;
            if c.result < 0 {
                Some(Event::Failed { buffer: Some(id), error: c.result })
            } else {
                Some(Event::DataReady { id, len: c.result as u32 })
            }
        },
        RecvMode::PoolSelected => {
            if c.user_data != USER_DATA_RECV_FIRST {
                return None;
            }
            match buffer_select(c.flags) {
                Some(b) => if c.result < 0 {
                    Some(Event::Failed { buffer: Some(b as u64), error: c.result })
                } else {
                    Some(Event::DataReady { id: b as u64, len: c.result as u32 })
                },
                None => if c.result < 0 {
                    Some(Event::Failed { buffer: None, error: c.result })
                } else {
                    None
                },
            }
        },
    }
}

} // verus!
