use uring_rings::completion::{CompletionRecord, RecvMode};
use uring_rings::controller::{Action, Phase, ReceiveController, RecvRequest, ReleaseOutcome};
use uring_rings::error::RingError;
use uring_rings::pool::SlotState;

fn completion(user_data: u64, result: i32, flags: u32) -> CompletionRecord {
    CompletionRecord { user_data, result, flags }
}

#[test]
fn controller_needs_buffers() {
    assert_eq!(
        ReceiveController::new(RecvMode::SlotPerRequest, 0).err(),
        Some(RingError::InvalidConfiguration)
    );
}

#[test]
fn eight_receives_cycle_back_to_free() {
    let mut c = ReceiveController::new(RecvMode::SlotPerRequest, 8).unwrap();
    let reqs = c.plan_submissions(8);
    assert_eq!(reqs.len(), 8);
    assert_eq!(reqs[0], RecvRequest { user_data: 8, slot: Some(7) });
    assert_eq!(reqs[7], RecvRequest { user_data: 1, slot: Some(0) });
    assert_eq!(c.pool().free_count(), 0);
    assert!(c.plan_submissions(8).is_empty());

    for id in 0..8u64 {
        let r = c.on_completion(&completion(id + 1, 16, 0));
        assert_eq!(r, Ok(Action::Deliver { id, len: 16 }));
        assert_eq!(c.pool().state(id as usize), SlotState::Completed { len: 16 });
        assert_eq!(c.consumed(id), Ok(()));
    }
    assert!(c.pool().all_free());
    assert_eq!(c.pool().free_count(), 8);
    assert_eq!(c.datagrams(), 8);
    assert_eq!(c.plan_submissions(100).len(), 8);
}

#[test]
fn submissions_limited_by_room() {
    let mut c = ReceiveController::new(RecvMode::SlotPerRequest, 8).unwrap();
    assert_eq!(c.plan_submissions(3).len(), 3);
    assert_eq!(c.pool().free_count(), 5);
    assert_eq!(c.plan_submissions(0).len(), 0);
}

#[test]
fn failed_receive_recycles_its_slot() {
    let mut c = ReceiveController::new(RecvMode::SlotPerRequest, 4).unwrap();
    let reqs = c.plan_submissions(4);
    let user_data = reqs[0].user_data;
    let slot = reqs[0].slot.unwrap();
    assert_eq!(c.on_completion(&completion(user_data, -104, 0)), Ok(Action::Report { error: -104 }));
    assert_eq!(c.pool().state(slot), SlotState::Free);
    assert_eq!(c.phase(), Phase::Running);
    assert_eq!(c.datagrams(), 0);
    assert_eq!(c.plan_submissions(4), vec![RecvRequest { user_data, slot: Some(slot) }]);
}

#[test]
fn stop_cancels_drains_then_releases_once() {
    let mut c = ReceiveController::new(RecvMode::SlotPerRequest, 8).unwrap();
    let reqs = c.plan_submissions(3);
    assert_eq!(reqs.len(), 3);
    assert_eq!(c.stop(), Action::CancelAll);
    assert_eq!(c.phase(), Phase::Cancelling);
    assert!(c.plan_submissions(8).is_empty());
    assert_eq!(c.try_release(), ReleaseOutcome::InFlight);

    for (n, req) in reqs.iter().enumerate() {
        assert_eq!(c.on_completion(&completion(req.user_data, -125, 0)), Ok(Action::Report { error: -125 }));
        if n < 2 {
            assert_eq!(c.try_release(), ReleaseOutcome::InFlight);
        }
    }
    assert!(c.is_drained());
    assert_eq!(c.try_release(), ReleaseOutcome::Released);
    assert_eq!(c.phase(), Phase::Released);
    assert_eq!(c.try_release(), ReleaseOutcome::AlreadyReleased);
    assert!(c.pool().all_free());
}

#[test]
fn stop_completion_starts_cancelling() {
    let mut c = ReceiveController::new(RecvMode::SlotPerRequest, 2).unwrap();
    assert_eq!(c.on_completion(&completion(0, -11, 0)), Ok(Action::CancelAll));
    assert_eq!(c.phase(), Phase::Cancelling);
    assert_eq!(c.on_completion(&completion(0, 0, 0)), Ok(Action::Continue));
    assert_eq!(c.stop(), Action::Continue);
    assert_eq!(c.try_release(), ReleaseOutcome::Released);
}

#[test]
fn completion_for_a_slot_not_in_flight_is_a_violation() {
    let mut c = ReceiveController::new(RecvMode::SlotPerRequest, 2).unwrap();
    assert_eq!(c.on_completion(&completion(1, 16, 0)), Err(RingError::ProtocolViolation));
    assert_eq!(c.on_completion(&completion(9, 16, 0)), Err(RingError::ProtocolViolation));
    assert_eq!(c.consumed(0), Err(RingError::ProtocolViolation));
    assert_eq!(c.datagrams(), 0);
}

#[test]
fn pool_selected_receives_use_buffer_ids_from_flags() {
    let mut c = ReceiveController::new(RecvMode::PoolSelected, 8).unwrap();
    let reqs = c.plan_submissions(16);
    assert_eq!(reqs.len(), 8);
    assert!(reqs.iter().all(|r| *r == RecvRequest { user_data: 1, slot: None }));
    assert!(c.plan_submissions(16).is_empty());

    let flags = (5u32 << 16) | 1;
    assert_eq!(c.on_completion(&completion(1, 16, flags)), Ok(Action::Deliver { id: 5, len: 16 }));
    assert_eq!(c.consumed(5), Ok(()));
    assert_eq!(c.datagrams(), 1);
    assert_eq!(c.plan_submissions(16).len(), 1);
}

#[test]
fn pool_selected_failures_and_violations() {
    let mut c = ReceiveController::new(RecvMode::PoolSelected, 4).unwrap();
    // Nothing in flight yet.
    assert_eq!(c.on_completion(&completion(1, 16, (1 << 16) | 1)), Err(RingError::ProtocolViolation));
    assert_eq!(c.plan_submissions(4).len(), 4);
    // A success without a buffer id, unexpected user data, a buffer id out of range.
    assert_eq!(c.on_completion(&completion(1, 16, 0)), Err(RingError::ProtocolViolation));
    assert_eq!(c.on_completion(&completion(2, 16, (1 << 16) | 1)), Err(RingError::ProtocolViolation));
    assert_eq!(c.on_completion(&completion(1, 16, (9 << 16) | 1)), Err(RingError::ProtocolViolation));
    // A failure need not name a buffer.
    assert_eq!(c.on_completion(&completion(1, -105, 0)), Ok(Action::Report { error: -105 }));
    assert_eq!(c.plan_submissions(4).len(), 1);
    assert_eq!(c.datagrams(), 0);
}
