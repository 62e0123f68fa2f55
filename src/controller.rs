//! The completion-driven receive controller: from its state and an event
//! (room to submit, a completion, the stop signal, a release attempt) to its
//! next state and the action the caller performs.

use crate::completion::{decode, decode_spec, CompletionRecord, Event, RecvMode, USER_DATA_RECV_FIRST};
use crate::error::RingError;
use crate::pool::{pool_step, BufferPool, SlotEvent, SlotState};
use vstd::prelude::*;

verus! {

/// Where the controller is between start-up and teardown.
#[derive(Clone, Copy, Debug, PartialEq, Eq, Structural)]
pub enum Phase {
    /// Submitting receives and handling their completions.
    Running,
    /// Stop observed: no new submissions; in-flight receives are cancelled
    /// and drained.
    Cancelling,
    /// Ring and buffers released.
    Released,
}

/// A receive request to submit.
#[derive(Clone, Copy, Debug, PartialEq, Eq, Structural)]
pub struct RecvRequest {
    /// The user data to submit it with.
    pub user_data: u64,
    /// Its buffer, or `None` to let the executor pick one from the group.
    pub slot: Option<usize>,
}

/// What the caller does after a completion or a stop.
#[derive(Clone, Copy, Debug, PartialEq, Eq, Structural)]
pub enum Action {
    /// Nothing to do.
    Continue,
    /// Hand `len` bytes of buffer `id` to the consumer.
    Deliver { id: u64, len: u32 },
    /// Report a failed receive; the loop goes on.
    Report { error: i32 },
    /// Cancel every in-flight request of the ring.
    CancelAll,
}

/// The result of an attempt to release the ring.
#[derive(Clone, Copy, Debug, PartialEq, Eq, Structural)]
pub enum ReleaseOutcome {
    /// Released now: free the ring and its buffers.
    Released,
    /// Receives are still in flight: drain completions first.
    InFlight,
    /// Released before: nothing to free.
    AlreadyReleased,
}

/// A release attempt: its outcome and the phase after it.
pub open spec fn release_step(phase: Phase, drained: bool) -> (ReleaseOutcome, Phase) {
    if phase == Phase::Released {
        (ReleaseOutcome::AlreadyReleased, Phase::Released)
    } else if !drained {
        (ReleaseOutcome::InFlight, phase)
    } else {
        (ReleaseOutcome::Released, Phase::Released)
    }
}

/// `n` counted up by one, stopping at the largest value.
pub open spec fn count_up(n: u64) -> u64 {
    if n < u64::MAX {
        (n + 1) as u64
    } else {
        n
    }
}

/// `states` with every id in `ids` donated.
pub open spec fn donate_all(states: Seq<SlotState>, ids: Seq<usize>) -> Seq<SlotState> {
    Seq::new(
        states.len(),
        |i: int|
            if ids.contains(i as usize) {
                SlotState::Donated
            } else {
                states[i]
            },
    )
}

/// The receive-side state of one ring: its buffers, the receives it may
/// still have in flight, and the datagrams received so far.
pub struct ReceiveController {
    mode: RecvMode,
    pool: BufferPool,
    credits: usize,
    limit: usize,
    datagrams: u64,
    phase: Phase,
}

impl ReceiveController {
    pub closed spec fn mode_spec(&self) -> RecvMode {
        self.mode
    }

    pub closed spec fn pool_spec(&self) -> BufferPool {
        self.pool
    }

    /// Receives that may still be submitted from the buffer group.
    pub closed spec fn credits_spec(&self) -> nat {
        self.credits as nat
    }

    /// The number of buffers, and of receives in flight at most.
    pub closed spec fn limit_spec(&self) -> nat {
        self.limit as nat
    }

    pub closed spec fn datagrams_spec(&self) -> u64 {
        self.datagrams
    }

    pub closed spec fn phase_spec(&self) -> Phase {
        self.phase
    }

    pub open spec fn states(&self) -> Seq<SlotState> {
        self.pool_spec().states()
    }

    pub open spec fn wf(&self) -> bool {
        &&& self.pool_spec().wf()
        &&& self.credits_spec() <= self.limit_spec()
        &&& self.limit_spec() == self.states().len()
    }

    /// No receive is in flight.
    pub open spec fn drained(&self) -> bool {
        match self.mode_spec() {
            RecvMode::SlotPerRequest => forall|i: int|
                0 <= i < self.states().len() ==> #[trigger] self.states()[i] != SlotState::Donated,
            RecvMode::PoolSelected => self.credits_spec() == self.limit_spec(),
        }
    }

    /// Whether a receive into buffer `id` may complete now.
    pub open spec fn awaits(&self, id: u64) -> bool {
        match self.mode_spec() {
            RecvMode::SlotPerRequest => id < self.states().len() && self.states()[id as int]
                == SlotState::Donated,
            RecvMode::PoolSelected => id < self.limit_spec() && self.credits_spec()
                < self.limit_spec(),
        }
    }

    /// Whether a receive may fail now, naming buffer `id` if any.
    pub open spec fn awaits_failure(&self, id: Option<u64>) -> bool {
        match self.mode_spec() {
            RecvMode::SlotPerRequest => id matches Some(b) && self.awaits(b),
            RecvMode::PoolSelected => self.credits_spec() < self.limit_spec(),
        }
    }

    /// The action a completion calls for, or the violation it shows.
    pub open spec fn completion_action(&self, c: CompletionRecord) -> Result<Action, RingError> {
        match decode_spec(self.mode_spec(), c) {
            None => Err(RingError::ProtocolViolation),
            Some(Event::Stop { .. }) => if self.phase_spec() == Phase::Running {
                Ok(Action::CancelAll)
            } else {
                Ok(Action::Continue)
            },
            Some(Event::DataReady { id, len }) => if self.awaits(id) {
                Ok(Action::Deliver { id, len })
            } else {
                Err(RingError::ProtocolViolation)
            },
            Some(Event::Failed { buffer, error }) => if self.awaits_failure(buffer) {
                Ok(Action::Report { error })
            } else {
                Err(RingError::ProtocolViolation)
            },
        }
    }

    /// A controller for `buffers` buffers, all free, running;
    /// `InvalidConfiguration` when there are none.
    pub fn new(mode: RecvMode, buffers: usize) -> (r: Result<ReceiveController, RingError>)
        ensures
            r is Err <==> buffers == 0,
            r is Err ==> r == Err::<ReceiveController, RingError>(RingError::InvalidConfiguration),
            r matches Ok(c) ==> {
                &&& c.wf()
                &&& c.mode_spec() == mode
                &&& c.phase_spec() == Phase::Running
                &&& c.datagrams_spec() == 0
                &&& c.limit_spec() == buffers
                &&& c.credits_spec() == buffers
                &&& c.states() == Seq::new(buffers as nat, |i: int| SlotState::Free)
                &&& c.pool_spec().free_ids() == Seq::new(buffers as nat, |i: int| i as usize)
            },
    {
        if buffers == 0 {
            return Err(RingError::InvalidConfiguration);
        }
        let pool = BufferPool::new(buffers);
        Ok(ReceiveController { mode, pool, credits: buffers, limit: buffers, datagrams: 0, phase: Phase::Running })
    }

    pub fn mode(&self) -> (r: RecvMode)
        ensures
            r == self.mode_spec(),
    {
        self.mode
    }

    pub fn phase(&self) -> (r: Phase)
        ensures
            r == self.phase_spec(),
    {
        self.phase
    }

    /// Datagrams received so far.
    pub fn datagrams(&self) -> (r: u64)
        ensures
            r == self.datagrams_spec(),
    {
        self.datagrams
    }

    /// The buffers and their states.
    pub fn pool(&self) -> (r: &BufferPool)
        ensures
            *r == self.pool_spec(),
    {
        &self.pool
    }

    /// Whether no receive is in flight.
    pub fn is_drained(&self) -> (r: bool)
        ensures
            r == self.drained(),
    {
        match self.mode {
            RecvMode::SlotPerRequest => self.pool.none_donated(),
            RecvMode::PoolSelected => self.credits == self.limit,
        }
    }

    /// The receives to submit when the submission queue has `room` free
    /// entries: as many as room, free buffers (one buffer per request) or
    /// credits (buffer group) allow, and none once stopping. One buffer per
    /// request hands out the free stack from its top, each buffer donated.
    pub fn plan_submissions(&mut self, room: usize) -> (r: Vec<RecvRequest>)
        requires
            old(self).wf(),
        ensures
            final(self).wf(),
            final(self).mode_spec() == old(self).mode_spec(),
            final(self).phase_spec() == old(self).phase_spec(),
            final(self).datagrams_spec() == old(self).datagrams_spec(),
            final(self).limit_spec() == old(self).limit_spec(),
            old(self).phase_spec() != Phase::Running ==> r@.len() == 0 && *final(self) == *old(
                self,
            ),
            old(self).phase_spec() == Phase::Running && old(self).mode_spec()
                == RecvMode::SlotPerRequest ==> ({
                let f = old(self).pool_spec().free_ids();
                let n = f.len();
                let k = r@.len();
                &&& k == (if room < n { room as nat } else { n })
                &&& forall|j: int|
                    0 <= j < k ==> #[trigger] r@[j] == (RecvRequest {
                        user_data: (f[n - 1 - j] + 1) as u64,
                        slot: Some(f[n - 1 - j]),
                    })
                &&& final(self).pool_spec().free_ids() == f.subrange(0, n - k)
                &&& final(self).states() == donate_all(old(self).states(), f.subrange(n - k, n as int))
                &&& final(self).credits_spec() == old(self).credits_spec()
            }),
            old(self).phase_spec() == Phase::Running && old(self).mode_spec()
                == RecvMode::PoolSelected ==> ({
                let k = r@.len();
                &&& k == (if room < old(self).credits_spec() { room as nat } else { old(self).credits_spec() })
                &&& forall|j: int|
                    0 <= j < k ==> #[trigger] r@[j] == (RecvRequest {
                        user_data: USER_DATA_RECV_FIRST,
                        slot: None,
                    })
                &&& final(self).credits_spec() == old(self).credits_spec() - k
                &&& final(self).pool_spec() == old(self).pool_spec()
            }),
    {
        let mut out: Vec<RecvRequest> = Vec::new();
        if self.phase != Phase::Running {
            return out;
        }
        match self.mode {
            RecvMode::SlotPerRequest => {
                let ghost f = self.pool.free_ids();
                let ghost s0 = self.states();
                let ghost n = f.len();
                while out.len() < room && self.pool.free_count() > 0
                    invariant
                        self.wf(),
                        self.mode == old(self).mode,
                        self.phase == old(self).phase,
                        self.datagrams == old(self).datagrams,
                        self.limit == old(self).limit,
                        self.credits == old(self).credits,
                        f == old(self).pool_spec().free_ids(),
                        s0 == old(self).states(),
                        n == f.len(),
                        out@.len() <= room,
                        out@.len() <= n,
                        self.pool.free_ids() == f.subrange(0, n - out@.len()),
                        self.states() == donate_all(s0, f.subrange(n - out@.len(), n as int)),
                        forall|j: int|
                            0 <= j < out@.len() ==> #[trigger] out@[j] == (RecvRequest {
                                user_data: (f[n - 1 - j] + 1) as u64,
                                slot: Some(f[n - 1 - j]),
                            }),
                    decreases room - out@.len(),
                {
                    let ghost k = out@.len();
                    if let Some(id) = self.pool.acquire_free() {
                        proof {
                            assert(id == f[n - k - 1]);
                            assert(id < s0.len());
                        }
                        out.push(RecvRequest { user_data: id as u64 + 1, slot: Some(id) });
                        proof {
                            let s_old = f.subrange(n - k, n as int);
                            let s_new = f.subrange(n - k - 1, n as int);
                            assert(self.pool.free_ids() =~= f.subrange(0, n - out@.len()));
                            assert forall|i: int| 0 <= i < s0.len() implies #[trigger] self.states()[i]
                                == donate_all(s0, s_new)[i] by {
                                assert(s_new[0] == id);
                                if i == id as int {
                                    assert(s_new.contains(id));
                                } else {
                                    if s_new.contains(i as usize) {
                                        let j = choose|j: int| 0 <= j < s_new.len() && s_new[j] == i as usize;
                                        assert(j != 0);
                                        assert(s_old[j - 1] == i as usize);
                                    }
                                    if s_old.contains(i as usize) {
                                        let j = choose|j: int| 0 <= j < s_old.len() && s_old[j] == i as usize;
                                        assert(s_new[j + 1] == i as usize);
                                    }
                                }
                            }
                            assert(self.states() =~= donate_all(s0, s_new));
                        }
                    }
                }
            },
            RecvMode::PoolSelected => {
                while out.len() < room && self.credits > 0
                    invariant
                        self.wf(),
                        self.mode == old(self).mode,
                        self.phase == old(self).phase,
                        self.datagrams == old(self).datagrams,
                        self.limit == old(self).limit,
                        self.pool == old(self).pool,
                        out@.len() <= room,
                        self.credits + out@.len() == old(self).credits,
                        forall|j: int|
                            0 <= j < out@.len() ==> #[trigger] out@[j] == (RecvRequest {
                                user_data: USER_DATA_RECV_FIRST,
                                slot: None,
                            }),
                    decreases room - out@.len(),
                {
                    self.credits = self.credits - 1;
                    out.push(RecvRequest { user_data: USER_DATA_RECV_FIRST, slot: None });
                }
            },
        }
        out
    }

    fn count_datagram(&mut self)
        ensures
            final(self).datagrams == count_up(old(self).datagrams),
            final(self).mode == old(self).mode,
            final(self).pool == old(self).pool,
            final(self).credits == old(self).credits,
            final(self).limit == old(self).limit,
            final(self).phase == old(self).phase,
    {
        if self.datagrams < u64::MAX {
            self.datagrams = self.datagrams + 1;
        }
    }

    /// Handle one completion: decode it, move its buffer along the
    /// lifecycle, count a received datagram, and say what the caller does.
    /// A stop moves a running controller to cancelling. A completion that
    /// fits no in-flight receive is a `ProtocolViolation` and changes nothing.
    pub fn on_completion(&mut self, c: &CompletionRecord) -> (r: Result<Action, RingError>)
        requires
            old(self).wf(),
        ensures
            final(self).wf(),
            r == old(self).completion_action(*c),
            final(self).mode_spec() == old(self).mode_spec(),
            final(self).limit_spec() == old(self).limit_spec(),
            final(self).phase_spec() == (if r == Ok::<Action, RingError>(Action::CancelAll) {
                Phase::Cancelling
            } else {
                old(self).phase_spec()
            }),
            final(self).datagrams_spec() == (if r matches Ok(Action::Deliver { .. }) {
                count_up(old(self).datagrams_spec())
            } else {
                old(self).datagrams_spec()
            }),
            !(r matches Ok(Action::Deliver { .. })) && !(r matches Ok(Action::Report { .. }))
                ==> final(self).pool_spec() == old(self).pool_spec() && final(self).credits_spec()
                == old(self).credits_spec(),
            old(self).mode_spec() == RecvMode::SlotPerRequest ==> {
                &&& final(self).credits_spec() == old(self).credits_spec()
                &&& r matches Ok(Action::Deliver { id, len }) ==> Some(final(self).states())
                    == pool_step(old(self).states(), id as int, SlotEvent::Complete(len))
                    && final(self).pool_spec().free_ids() == old(self).pool_spec().free_ids()
                &&& r matches Ok(Action::Report { .. }) ==> Some(final(self).states()) == pool_step(
                    old(self).states(),
                    c.user_data - USER_DATA_RECV_FIRST,
                    SlotEvent::Recycle,
                ) && final(self).pool_spec().free_ids() == old(self).pool_spec().free_ids().push(
                    (c.user_data - USER_DATA_RECV_FIRST) as usize,
                )
            },
            old(self).mode_spec() == RecvMode::PoolSelected ==> {
                &&& final(self).pool_spec() == old(self).pool_spec()
                &&& (r matches Ok(Action::Deliver { .. }) || r matches Ok(Action::Report { .. }))
                    ==> final(self).credits_spec() == old(self).credits_spec() + 1
            },
    {
        let ev = match decode(self.mode, c) {
            None => return Err(RingError::ProtocolViolation),
            Some(ev) => ev,
        };
        match ev {
            Event::Stop { .. } => {
                if self.phase == Phase::Running {
                    self.phase = Phase::Cancelling;
                    Ok(Action::CancelAll)
                } else {
                    Ok(Action::Continue)
                }
            },
            Event::DataReady { id, len } => match self.mode {
                RecvMode::SlotPerRequest => {
                    if id >= self.pool.capacity() as u64 {
                        return Err(RingError::ProtocolViolation);
                    }
                    match self.pool.mark_completed(id as usize, len) {
                        Err(e) => Err(e),
                        Ok(()) => {
                            self.count_datagram();
                            Ok(Action::Deliver { id, len })
                        },
                    }
                },
                RecvMode::PoolSelected => {
                    if id >= self.limit as u64 || self.credits >= self.limit {
                        return Err(RingError::ProtocolViolation);
                    }
                    self.credits = self.credits + 1;
                    self.count_datagram();
                    Ok(Action::Deliver { id, len })
                },
            },
            Event::Failed { buffer, error } => match self.mode {
                RecvMode::SlotPerRequest => match buffer {
                    None => Err(RingError::ProtocolViolation),
                    Some(b) => {
                        if b >= self.pool.capacity() as u64 {
                            return Err(RingError::ProtocolViolation);
                        }
                        match self.pool.recycle(b as usize) {
                            Err(e) => Err(e),
                            Ok(()) => Ok(Action::Report { error }),
                        }
                    },
                },
                RecvMode::PoolSelected => {
                    if self.credits >= self.limit {
                        return Err(RingError::ProtocolViolation);
                    }
                    self.credits = self.credits + 1;
                    Ok(Action::Report { error })
                },
            },
        }
    }

    /// The stop signal was observed outside the ring: a running controller
    /// starts cancelling and asks for its in-flight receives to be cancelled.
    pub fn stop(&mut self) -> (r: Action)
        requires
            old(self).wf(),
        ensures
            final(self).wf(),
            old(self).phase_spec() == Phase::Running ==> r == Action::CancelAll
                && final(self).phase_spec() == Phase::Cancelling,
            old(self).phase_spec() != Phase::Running ==> r == Action::Continue
                && final(self).phase_spec() == old(self).phase_spec(),
            final(self).mode_spec() == old(self).mode_spec(),
            final(self).pool_spec() == old(self).pool_spec(),
            final(self).credits_spec() == old(self).credits_spec(),
            final(self).limit_spec() == old(self).limit_spec(),
            final(self).datagrams_spec() == old(self).datagrams_spec(),
    {
        if self.phase == Phase::Running {
            self.phase = Phase::Cancelling;
            Action::CancelAll
        } else {
            Action::Continue
        }
    }

    /// The consumer is done with the data delivered in buffer `id`. With
    /// one buffer per request the buffer becomes free again
    /// (`ProtocolViolation` unless it holds completed data); a buffer of the
    /// group goes back to the group through the buffer ring, and nothing
    /// changes here.
    pub fn consumed(&mut self, id: u64) -> (r: Result<(), RingError>)
        requires
            old(self).wf(),
        ensures
            final(self).wf(),
            final(self).mode_spec() == old(self).mode_spec(),
            final(self).phase_spec() == old(self).phase_spec(),
            final(self).credits_spec() == old(self).credits_spec(),
            final(self).limit_spec() == old(self).limit_spec(),
            final(self).datagrams_spec() == old(self).datagrams_spec(),
            old(self).mode_spec() == RecvMode::PoolSelected ==> r is Ok && *final(self) == *old(
                self,
            ),
            old(self).mode_spec() == RecvMode::SlotPerRequest ==> {
                &&& r is Ok <==> pool_step(old(self).states(), id as int, SlotEvent::Release) is Some
                &&& r is Ok ==> Some(final(self).states()) == pool_step(
                    old(self).states(),
                    id as int,
                    SlotEvent::Release,
                ) && final(self).pool_spec().free_ids() == old(self).pool_spec().free_ids().push(
                    id as usize,
                )
                &&& r is Err ==> r == Err::<(), RingError>(RingError::ProtocolViolation)
                    && *final(self) == *old(self)
            },
    {
        match self.mode {
            RecvMode::PoolSelected => Ok(()),
            RecvMode::SlotPerRequest => {
                if id >= self.pool.capacity() as u64 {
                    return Err(RingError::ProtocolViolation);
                }
                match self.pool.release(id as usize) {
                    Ok(_) => Ok(()),
                    Err(e) => Err(e),
                }
            },
        }
    }

    /// Try to release the ring and its buffers: refused while receives are
    /// in flight, done once, and a no-op after that.
    pub fn try_release(&mut self) -> (r: ReleaseOutcome)
        requires
            old(self).wf(),
        ensures
            final(self).wf(),
            (r, final(self).phase_spec()) == release_step(old(self).phase_spec(), old(self).drained()),
            final(self).mode_spec() == old(self).mode_spec(),
            final(self).pool_spec() == old(self).pool_spec(),
            final(self).credits_spec() == old(self).credits_spec(),
            final(self).limit_spec() == old(self).limit_spec(),
            final(self).datagrams_spec() == old(self).datagrams_spec(),
    {
        if self.phase == Phase::Released {
            return ReleaseOutcome::AlreadyReleased;
        }
        if !self.is_drained() {
            return ReleaseOutcome::InFlight;
        }
        self.phase = Phase::Released;
        ReleaseOutcome::Released
    }
}

/// Teardown happens once: after a release attempt that released, every
/// later attempt reports that it was released before and frees nothing.
pub proof fn lemma_release_once(phase: Phase, drained: bool, drained_later: bool)
    requires
        release_step(phase, drained).0 == ReleaseOutcome::Released,
    ensures
        release_step(release_step(phase, drained).1, drained_later) == (
            ReleaseOutcome::AlreadyReleased,
            Phase::Released,
        ),
{
}

/// Teardown waits for the drain: while a receive is in flight a release
/// attempt frees nothing and leaves the phase as it was.
pub proof fn lemma_release_waits_for_drain(phase: Phase)
    requires
        phase != Phase::Released,
    ensures
        release_step(phase, false) == (ReleaseOutcome::InFlight, phase),
        release_step(phase, true) == (ReleaseOutcome::Released, Phase::Released),
{
}

/// A failed receive is reported and the loop goes on: with one buffer per
/// request, a negative result for a donated buffer calls for a report, and
/// the buffer becomes free again.
pub proof fn lemma_failed_slot_receive_recycled(c: ReceiveController, rec: CompletionRecord)
    requires
        c.mode_spec() == RecvMode::SlotPerRequest,
        rec.user_data != 0,
        rec.result < 0,
        rec.user_data - USER_DATA_RECV_FIRST < c.states().len(),
        c.states()[rec.user_data - USER_DATA_RECV_FIRST] == SlotState::Donated,
    ensures
        c.completion_action(rec) == Ok::<Action, RingError>(Action::Report { error: rec.result }),
        pool_step(c.states(), rec.user_data - USER_DATA_RECV_FIRST, SlotEvent::Recycle) == Some(
            c.states().update(rec.user_data - USER_DATA_RECV_FIRST, SlotState::Free),
        ),
{
}

/// A failed receive from the buffer group is reported and its credit
/// comes back, whether or not the completion names a buffer.
pub proof fn lemma_failed_group_receive_reported(c: ReceiveController, rec: CompletionRecord)
    requires
        c.mode_spec() == RecvMode::PoolSelected,
        rec.user_data == USER_DATA_RECV_FIRST,
        rec.result < 0,
        c.credits_spec() < c.limit_spec(),
    ensures
        c.completion_action(rec) == Ok::<Action, RingError>(Action::Report { error: rec.result }),
{
}

} // verus!
