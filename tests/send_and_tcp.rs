use uring_rings::completion::CompletionRecord;
use uring_rings::error::RingError;
use uring_rings::send::{check_send_options, classify_send, SendOutcome};
use uring_rings::tcp::{tcp_step, TcpStep};

fn completion(user_data: u64, result: i32, flags: u32) -> CompletionRecord {
    CompletionRecord { user_data, result, flags }
}

#[test]
fn fixed_buffers_need_zero_copy() {
    assert_eq!(check_send_options(false, true), Err(RingError::InvalidConfiguration));
    assert_eq!(check_send_options(true, true), Ok(()));
    assert_eq!(check_send_options(false, false), Ok(()));
}

#[test]
fn send_completions_are_classified() {
    assert_eq!(classify_send(&completion(1, 16, 0)), Ok(SendOutcome::Sent));
    assert_eq!(classify_send(&completion(1, -111, 0)), Ok(SendOutcome::Failed { error: -111 }));
    assert_eq!(classify_send(&completion(1, 0, 8)), Ok(SendOutcome::Notification));
    assert_eq!(classify_send(&completion(1, 16, 2)), Ok(SendOutcome::Sent));
    assert_eq!(classify_send(&completion(0, -11, 0)), Ok(SendOutcome::Stop { result: -11 }));
    assert_eq!(classify_send(&completion(7, 0, 0)), Err(RingError::ProtocolViolation));
}

#[test]
fn tcp_completions_are_decided() {
    assert_eq!(tcp_step(u64::MAX, 0), TcpStep::Ignore);
    assert_eq!(tcp_step(0, 5), TcpStep::Accepted { file_index: 5 });
    assert_eq!(tcp_step(0, -24), TcpStep::AcceptFailed { error: -24 });
    assert_eq!(tcp_step(5, 100), TcpStep::Data { file_index: 5, len: 100 });
    assert_eq!(tcp_step(5, 0), TcpStep::Close { file_index: 5, error: None });
    assert_eq!(tcp_step(5, -104), TcpStep::Close { file_index: 5, error: Some(-104) });
    assert_eq!(tcp_step(1u64 << 32, 3), TcpStep::Accepted { file_index: 3 });
}
