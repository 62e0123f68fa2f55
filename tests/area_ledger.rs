use uring_rings::area::AreaLedger;
use uring_rings::error::RingError;
use uring_rings::zcrx::{io_uring_zcrx_cqe, io_uring_zcrx_rqe, RefillQueueInner};

fn cqe(off: u64) -> io_uring_zcrx_cqe {
    io_uring_zcrx_cqe { off, __pad: 0 }
}

#[test]
fn ledger_rejects_degenerate_areas() {
    assert_eq!(AreaLedger::new(0, 0).err(), Some(RingError::InvalidConfiguration));
    assert_eq!(AreaLedger::new(0x1_0000, 4096).err(), Some(RingError::InvalidConfiguration));
    assert_eq!(
        AreaLedger::new(0, 0x1_0000_0000_0001).err(),
        Some(RingError::InvalidConfiguration)
    );
    assert!(AreaLedger::new(0, 8192).is_ok());
}

#[test]
fn zero_copy_offset_refilled_exactly_once() {
    let mut ledger = AreaLedger::new(0, 8192).unwrap();
    let mut q = RefillQueueInner::new(8, 0).unwrap().borrow();

    assert_eq!(ledger.on_completion(&cqe(4096), 200), Ok(4096));
    assert_eq!(ledger.outstanding(), 1);
    // The same memory cannot be reported again before it is refilled.
    assert_eq!(ledger.on_completion(&cqe(4096), 200), Err(RingError::ProtocolViolation));
    assert_eq!(ledger.on_completion(&cqe(4100), 8), Err(RingError::ProtocolViolation));

    assert_eq!(ledger.recycle(&mut q, 4096), Ok(()));
    assert_eq!(q.len(), 1);
    assert_eq!(ledger.outstanding(), 0);
    // A second refill of the same offset is refused and pushes nothing.
    assert_eq!(ledger.recycle(&mut q, 4096), Err(RingError::ProtocolViolation));
    assert_eq!(q.len(), 1);

    let mut inner = q.release();
    assert_eq!(inner.pop(), Some(io_uring_zcrx_rqe { off: 4096, len: 200, __pad: 0 }));
    assert_eq!(inner.pop(), None);

    // Once refilled, the memory may appear in a later completion.
    assert_eq!(ledger.on_completion(&cqe(4096), 100), Ok(4096));
}

#[test]
fn refill_of_memory_never_handed_out_is_refused() {
    let mut ledger = AreaLedger::new(0, 8192).unwrap();
    let mut q = RefillQueueInner::new(4, 0).unwrap().borrow();
    assert_eq!(ledger.recycle(&mut q, 0), Err(RingError::ProtocolViolation));
    assert_eq!(q.len(), 0);
}

#[test]
fn completion_outside_the_area_is_a_violation() {
    let mut ledger = AreaLedger::new(0, 8192).unwrap();
    assert_eq!(ledger.on_completion(&cqe(8000), 300), Err(RingError::ProtocolViolation));
    assert_eq!(ledger.on_completion(&cqe(9000), 1), Err(RingError::ProtocolViolation));
    assert_eq!(ledger.on_completion(&cqe(0), 0), Err(RingError::ProtocolViolation));
    // Right offset, wrong area.
    assert_eq!(ledger.on_completion(&cqe((1u64 << 48) | 16), 8), Err(RingError::ProtocolViolation));
    assert_eq!(ledger.on_completion(&cqe(8192 - 8), 8), Ok(8184));
    assert_eq!(ledger.outstanding(), 1);
}

#[test]
fn refill_entry_carries_the_area_token() {
    let mut ledger = AreaLedger::new(2, 8192).unwrap();
    let mut q = RefillQueueInner::new(4, 0).unwrap().borrow();
    assert_eq!(ledger.on_completion(&cqe((2u64 << 48) | 512), 64), Ok(512));
    assert_eq!(ledger.recycle(&mut q, 512), Ok(()));
    let mut inner = q.release();
    assert_eq!(inner.pop(), Some(io_uring_zcrx_rqe { off: (2u64 << 48) | 512, len: 64, __pad: 0 }));
}

#[test]
fn refill_waits_while_the_refill_ring_is_full() {
    let mut ledger = AreaLedger::new(0, 8192).unwrap();
    let mut q = RefillQueueInner::new(1, 0).unwrap().borrow();
    assert_eq!(ledger.on_completion(&cqe(0), 10), Ok(0));
    assert_eq!(ledger.on_completion(&cqe(100), 10), Ok(100));
    assert_eq!(ledger.recycle(&mut q, 0), Ok(()));
    assert_eq!(ledger.recycle(&mut q, 100), Err(RingError::RingFull));
    assert_eq!(ledger.outstanding(), 1);
    q.sync();
    assert!(q.consume().is_some());
    q.sync();
    assert_eq!(ledger.recycle(&mut q, 100), Ok(()));
    assert_eq!(ledger.outstanding(), 0);
}
