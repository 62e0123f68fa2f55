//! Decisions of a TCP server driven by completions: the listening socket
//! sits at file index 0, each request's user data is the file index of its
//! socket, and unregistering a client carries the largest user data.

use vstd::prelude::*;

verus! {

/// User data of the request that unregisters a client socket.
pub const USER_DATA_UNREGISTER: u64 = 0xffff_ffff_ffff_ffff;

/// What the server does for one completion.
#[derive(Clone, Copy, Debug, PartialEq, Eq, Structural)]
pub enum TcpStep {
    /// A client was unregistered: nothing to do.
    Ignore,
    /// A client was accepted at `file_index`: start receiving on it.
    Accepted { file_index: u32 },
    /// Accepting failed with `error`; the server cannot go on.
    AcceptFailed { error: i32 },
    /// `len` bytes arrived from the client at `file_index`.
    Data { file_index: u32, len: u32 },
    /// The client at `file_index` closed (`error` is `None`) or its receive
    /// failed: unregister it.
    Close { file_index: u32, error: Option<i32> },
}

/// The step for a completion with `user_data` and `result`.
pub open spec fn tcp_step_spec(user_data: u64, result: i32) -> TcpStep {
    let file_index = (user_data % 0x1_0000_0000) as u32;
    if user_data == USER_DATA_UNREGISTER {
        TcpStep::Ignore
    } else if file_index == 0 {
        if result < 0 {
            TcpStep::AcceptFailed { error: result }
        } else {
            TcpStep::Accepted { file_index: result as u32 }
        }
    } else if result > 0 {
        TcpStep::Data { file_index, len: result as u32 }
    } else if result == 0 {
        TcpStep::Close { file_index, error: None }
    } else {
        TcpStep::Close { file_index, error: Some(result) }
    }
}

/// Decide what to do with a completion carrying `user_data` and `result`.
pub fn tcp_step(user_data: u64, result: i32) -> (r: TcpStep)
    ensures
        r == tcp_step_spec(user_data, result),
{
    if user_data == USER_DATA_UNREGISTER {
        return TcpStep::Ignore;
    }
    let file_index = (user_data % 0x1_0000_0000) as u32;
    if file_index == 0 {
        if result < 0 {
            TcpStep::AcceptFailed { error: result }
        } else {
            TcpStep::Accepted { file_index: result as u32 }
        }
    } else if result > 0 {
        TcpStep::Data { file_index, len: result as u32 }
    } else if result == 0 {
        TcpStep::Close { file_index, error: None }
    } else {
        TcpStep::Close { file_index, error: Some(result) }
    }
}

} // verus!
