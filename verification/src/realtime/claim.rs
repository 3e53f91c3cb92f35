//! The order of the steps that claim an incoming screen-share offer: create
//! the I/O driver, apply the Offer and the ICE queued with it, start the
//! session I/O, send the Answer, and only then commit the binding. Each
//! outside step reports an event; the next state and action follow from it.

use crate::realtime::wire::NetworkErrorCode;
use vstd::prelude::*;

verus! {

/// Where a claim stands.
#[derive(Debug, Clone, Copy, PartialEq, Eq)]
pub enum ClaimStage {
    /// The binding was taken into `Claiming`; the I/O driver is being made.
    AwaitDriver,
    /// The driver exists and the binding is still the exact claiming one;
    /// the Offer is being applied.
    AwaitOffer,
    /// The responder session is registered; the queued ICE is being applied.
    AwaitIce,
    /// The session I/O task is being started.
    AwaitSpawn,
    /// The Answer is being sent to the peer.
    AwaitAnswerSent,
    /// The Answer went out; the binding is being committed.
    AwaitCommit,
    /// Committed: the claim succeeded.
    Done,
    /// The claim failed with this error.
    Failed(NetworkErrorCode),
}

/// A claim in progress: its stage, the responder generation once the Offer
/// registered one, and whether the Answer was sent.
#[derive(Debug, Clone, Copy, PartialEq, Eq)]
pub struct ClaimProgress {
    pub stage: ClaimStage,
    pub responder_generation: Option<u64>,
    pub answer_sent: bool,
}

/// What an outside step reported.
#[derive(Debug, Clone, Copy, PartialEq, Eq)]
pub enum ClaimEvent {
    /// The driver was made; `binding_exact` tells whether the binding is
    /// still the exact claiming one afterwards.
    DriverCreated { binding_exact: bool },
    DriverFailed,
    /// The Offer was applied and registered the responder `generation`.
    OfferApplied { generation: u64 },
    /// Applying the Offer failed; `current_generation` is the realtime ID's
    /// generation at that moment, if any.
    OfferFailed { current_generation: Option<u64> },
    IceApplied,
    IceFailed,
    /// The I/O task started; `has_answer` tells whether the Offer produced
    /// an Answer to send.
    IoSpawned { has_answer: bool },
    /// The task supervisor is stopping and refused the task.
    IoRefused,
    AnswerSent,
    /// Sending the Answer failed with this error.
    AnswerFailed(NetworkErrorCode),
    Committed,
    CommitRefused,
}

/// What to do next.
#[derive(Debug, Clone, Copy, PartialEq, Eq)]
pub enum ClaimAction {
    ApplyOffer,
    ApplyQueuedIce,
    SpawnIo,
    SendAnswer,
    Commit,
    /// Emit the Answer and the negotiating state: the claim is committed.
    Publish,
    /// Close the fresh driver; nothing else was registered.
    CloseDriver,
    /// Take the claim's binding out of the registry; no responder exists.
    ReleaseClaim,
    /// Undo the claim: cancel the I/O task when it was started, send a close
    /// signal first when the commit was refused, drop the binding still held
    /// by this claim and the responder of `responder_generation` if it still
    /// owns the session.
    Rollback { responder_generation: Option<u64>, cancel_io: bool, send_close: bool },
    /// The event does not belong to this stage: nothing changes.
    Ignore,
}

pub open spec fn claim_start() -> ClaimProgress {
    ClaimProgress { stage: ClaimStage::AwaitDriver, responder_generation: None, answer_sent: false }
}

pub open spec fn claim_terminal(s: ClaimStage) -> bool {
    s is Done || s is Failed
}

/// What every reachable claim state satisfies: a responder exists exactly
/// from the applied Offer on, and the Answer counts as sent exactly in the
/// stages after it (a refused commit keeps the mark).
pub open spec fn claim_inv(p: ClaimProgress) -> bool {
    &&& (p.stage is AwaitDriver || p.stage is AwaitOffer) ==> p.responder_generation is None && !p.answer_sent
    &&& (p.stage is AwaitIce || p.stage is AwaitSpawn || p.stage is AwaitAnswerSent) ==> p.responder_generation is Some
        && !p.answer_sent
    &&& (p.stage is AwaitCommit || p.stage is Done) ==> p.responder_generation is Some && p.answer_sent
    &&& p.answer_sent ==> p.responder_generation is Some
}

pub open spec fn fail_with(p: ClaimProgress, code: NetworkErrorCode, a: ClaimAction) -> (ClaimProgress, ClaimAction) {
    (ClaimProgress { stage: ClaimStage::Failed(code), ..p }, a)
}

pub open spec fn rollback(p: ClaimProgress, cancel_io: bool, send_close: bool) -> ClaimAction {
    ClaimAction::Rollback { responder_generation: p.responder_generation, cancel_io, send_close }
}

/// One step of a claim.
pub open spec fn claim_step_spec(p: ClaimProgress, e: ClaimEvent) -> (ClaimProgress, ClaimAction) {
    let ignore = (p, ClaimAction::Ignore);
    match p.stage {
        ClaimStage::AwaitDriver => match e {
            ClaimEvent::DriverCreated { binding_exact } => if binding_exact {
                (ClaimProgress { stage: ClaimStage::AwaitOffer, ..p }, ClaimAction::ApplyOffer)
            } else {
                fail_with(p, NetworkErrorCode::StaleOperation, ClaimAction::CloseDriver)
            },
            ClaimEvent::DriverFailed => fail_with(p, NetworkErrorCode::IoError, ClaimAction::ReleaseClaim),
            _ => ignore,
        },
        ClaimStage::AwaitOffer => match e {
            ClaimEvent::OfferApplied { generation } => (
                ClaimProgress { stage: ClaimStage::AwaitIce, responder_generation: Some(generation), ..p },
                ClaimAction::ApplyQueuedIce,
            ),
            ClaimEvent::OfferFailed { current_generation } => fail_with(
                p,
                NetworkErrorCode::IoError,
                ClaimAction::Rollback { responder_generation: current_generation, cancel_io: false, send_close: false },
            ),
            _ => ignore,
        },
        ClaimStage::AwaitIce => match e {
            ClaimEvent::IceApplied => (ClaimProgress { stage: ClaimStage::AwaitSpawn, ..p }, ClaimAction::SpawnIo),
            ClaimEvent::IceFailed => fail_with(p, NetworkErrorCode::IoError, rollback(p, false, false)),
            _ => ignore,
        },
        ClaimStage::AwaitSpawn => match e {
            ClaimEvent::IoSpawned { has_answer } => if has_answer {
                (ClaimProgress { stage: ClaimStage::AwaitAnswerSent, ..p }, ClaimAction::SendAnswer)
            } else {
                fail_with(p, NetworkErrorCode::IoError, rollback(p, true, false))
            },
            ClaimEvent::IoRefused => fail_with(p, NetworkErrorCode::Cancelled, rollback(p, false, false)),
            _ => ignore,
        },
        ClaimStage::AwaitAnswerSent => match e {
            ClaimEvent::AnswerSent => (
                ClaimProgress { stage: ClaimStage::AwaitCommit, answer_sent: true, ..p },
                ClaimAction::Commit,
            ),
            ClaimEvent::AnswerFailed(code) => fail_with(p, code, rollback(p, true, false)),
            _ => ignore,
        },
        ClaimStage::AwaitCommit => match e {
            ClaimEvent::Committed => (ClaimProgress { stage: ClaimStage::Done, ..p }, ClaimAction::Publish),
            ClaimEvent::CommitRefused => fail_with(p, NetworkErrorCode::StaleOperation, rollback(p, true, true)),
            _ => ignore,
        },
        _ => ignore,
    }
}

impl ClaimProgress {
    /// A claim whose binding was just taken into `Claiming`.
    pub fn start() -> (p: Self)
        ensures
            p == claim_start(),
            claim_inv(p),
    {
        ClaimProgress { stage: ClaimStage::AwaitDriver, responder_generation: None, answer_sent: false }
    }

    /// The next state and action after `event`.
    pub fn step(self, event: ClaimEvent) -> (r: (Self, ClaimAction))
        ensures
            r == claim_step_spec(self, event),
    {
        let p = self;
        let ignore = (p, ClaimAction::Ignore);
        match p.stage {
            ClaimStage::AwaitDriver => match event {
                ClaimEvent::DriverCreated { binding_exact } => if binding_exact {
                    (ClaimProgress { stage: ClaimStage::AwaitOffer, ..p }, ClaimAction::ApplyOffer)
                } else {
                    (
                        ClaimProgress { stage: ClaimStage::Failed(NetworkErrorCode::StaleOperation), ..p },
                        ClaimAction::CloseDriver,
                    )
                },
                ClaimEvent::DriverFailed => (
                    ClaimProgress { stage: ClaimStage::Failed(NetworkErrorCode::IoError), ..p },
                    ClaimAction::ReleaseClaim,
                ),
                _ => ignore,
            },
            ClaimStage::AwaitOffer => match event {
                ClaimEvent::OfferApplied { generation } => (
                    ClaimProgress { stage: ClaimStage::AwaitIce, responder_generation: Some(generation), ..p },
                    ClaimAction::ApplyQueuedIce,
                ),
                ClaimEvent::OfferFailed { current_generation } => (
                    ClaimProgress { stage: ClaimStage::Failed(NetworkErrorCode::IoError), ..p },
                    ClaimAction::Rollback { responder_generation: current_generation, cancel_io: false, send_close: false },
                ),
                _ => ignore,
            },
            ClaimStage::AwaitIce => match event {
                ClaimEvent::IceApplied => (ClaimProgress { stage: ClaimStage::AwaitSpawn, ..p }, ClaimAction::SpawnIo),
                ClaimEvent::IceFailed => (
                    ClaimProgress { stage: ClaimStage::Failed(NetworkErrorCode::IoError), ..p },
                    ClaimAction::Rollback {
                        responder_generation: p.responder_generation,
                        cancel_io: false,
                        send_close: false,
                    },
                ),
                _ => ignore,
            },
            ClaimStage::AwaitSpawn => match event {
                ClaimEvent::IoSpawned { has_answer } => if has_answer {
                    (ClaimProgress { stage: ClaimStage::AwaitAnswerSent, ..p }, ClaimAction::SendAnswer)
                } else {
                    (
                        ClaimProgress { stage: ClaimStage::Failed(NetworkErrorCode::IoError), ..p },
                        ClaimAction::Rollback {
                            responder_generation: p.responder_generation,
                            cancel_io: true,
                            send_close: false,
                        },
                    )
                },
                ClaimEvent::IoRefused => (
                    ClaimProgress { stage: ClaimStage::Failed(NetworkErrorCode::Cancelled), ..p },
                    ClaimAction::Rollback {
                        responder_generation: p.responder_generation,
                        cancel_io: false,
                        send_close: false,
                    },
                ),
                _ => ignore,
            },
            ClaimStage::AwaitAnswerSent => match event {
                ClaimEvent::AnswerSent => (
                    ClaimProgress { stage: ClaimStage::AwaitCommit, answer_sent: true, ..p },
                    ClaimAction::Commit,
                ),
                ClaimEvent::AnswerFailed(code) => (
                    ClaimProgress { stage: ClaimStage::Failed(code), ..p },
                    ClaimAction::Rollback {
                        responder_generation: p.responder_generation,
                        cancel_io: true,
                        send_close: false,
                    },
                ),
                _ => ignore,
            },
            ClaimStage::AwaitCommit => match event {
                ClaimEvent::Committed => (ClaimProgress { stage: ClaimStage::Done, ..p }, ClaimAction::Publish),
                ClaimEvent::CommitRefused => (
                    ClaimProgress { stage: ClaimStage::Failed(NetworkErrorCode::StaleOperation), ..p },
                    ClaimAction::Rollback {
                        responder_generation: p.responder_generation,
                        cancel_io: true,
                        send_close: true,
                    },
                ),
                _ => ignore,
            },
            _ => ignore,
        }
    }
}

/// Every step keeps the claim invariant.
pub proof fn lemma_claim_step_keeps_inv(p: ClaimProgress, e: ClaimEvent)
    requires
        claim_inv(p),
    ensures
        claim_inv(claim_step_spec(p, e).0),
{
}

/// The commit is asked for only when the Answer was just sent, and the
/// claim becomes done only by a commit the registry accepted.
pub proof fn lemma_commit_follows_answer(p: ClaimProgress, e: ClaimEvent)
    requires
        claim_inv(p),
    ensures
        claim_step_spec(p, e).1 == ClaimAction::Commit ==> p.stage == ClaimStage::AwaitAnswerSent && e
            == ClaimEvent::AnswerSent && claim_step_spec(p, e).0.answer_sent,
        claim_step_spec(p, e).0.stage == ClaimStage::Done && p.stage != ClaimStage::Done ==> p.stage
            == ClaimStage::AwaitCommit && e == ClaimEvent::Committed && p.answer_sent && claim_step_spec(p, e).1
            == ClaimAction::Publish,
{
}

/// A claim that fails after the Offer registered a responder rolls that
/// responder back; a failure before it has none to roll back. A finished
/// claim ignores every later event.
pub proof fn lemma_claim_failure_rolls_back(p: ClaimProgress, e: ClaimEvent)
    requires
        claim_inv(p),
    ensures
        ({
            let (q, a) = claim_step_spec(p, e);
            &&& !claim_terminal(p.stage) && q.stage is Failed && p.responder_generation is Some ==> (a
                matches ClaimAction::Rollback { responder_generation, .. } && responder_generation
                == p.responder_generation)
            &&& !claim_terminal(p.stage) && q.stage is Failed && p.responder_generation is None ==> (a
                == ClaimAction::CloseDriver || a == ClaimAction::ReleaseClaim || a is Rollback)
            &&& claim_terminal(p.stage) ==> q == p && a == ClaimAction::Ignore
        }),
{
}

/// The claim after a run of events from `p`, with the actions taken.
pub open spec fn claim_run(p: ClaimProgress, events: Seq<ClaimEvent>) -> (ClaimProgress, Seq<ClaimAction>)
    decreases events.len(),
{
    if events.len() == 0 {
        (p, Seq::empty())
    } else {
        let (q, acts) = claim_run(p, events.drop_last());
        let (r, a) = claim_step_spec(q, events.last());
        (r, acts.push(a))
    }
}

/// Over any run of a claim: every commit comes after the Answer was sent,
/// and a claim that ends done sent its Answer and then asked for the commit.
pub proof fn lemma_claim_run_answer_before_commit(events: Seq<ClaimEvent>)
    ensures
        ({
            let (q, acts) = claim_run(claim_start(), events);
            &&& claim_inv(q)
            &&& forall|j: int| 0 <= j < acts.len() && acts[j] == ClaimAction::Commit ==> exists|i: int|
                0 <= i < j && acts[i] == ClaimAction::SendAnswer
            &&& (q.stage is AwaitAnswerSent || q.answer_sent) ==> exists|i: int| 0 <= i < acts.len() && acts[i]
                == ClaimAction::SendAnswer
            &&& (q.stage is AwaitCommit || q.stage is Done) ==> exists|j: int| 0 <= j < acts.len() && acts[j]
                == ClaimAction::Commit
            &&& q.stage is Done ==> exists|i: int, j: int| 0 <= i < j < acts.len() && acts[i]
                == ClaimAction::SendAnswer && acts[j] == ClaimAction::Commit
        }),
    decreases events.len(),
{
    if events.len() > 0 {
        let prev = events.drop_last();
        lemma_claim_run_answer_before_commit(prev);
        let (q, acts) = claim_run(claim_start(), prev);
        let e = events.last();
        lemma_claim_step_keeps_inv(q, e);
        let (r, a) = claim_step_spec(q, e);
        let acts2 = acts.push(a);
        assert(claim_run(claim_start(), events) == (r, acts2));
        if q.stage is AwaitAnswerSent || q.answer_sent {
            let i = choose|i: int| 0 <= i < acts.len() && acts[i] == ClaimAction::SendAnswer;
            assert(acts2[i] == ClaimAction::SendAnswer);
        }
        if a == ClaimAction::SendAnswer {
            assert(acts2[acts.len() as int] == ClaimAction::SendAnswer);
        }
        assert forall|j: int| 0 <= j < acts2.len() && acts2[j] == ClaimAction::Commit implies exists|i: int|
            0 <= i < j && acts2[i] == ClaimAction::SendAnswer by {
            if j < acts.len() {
                assert(acts[j] == ClaimAction::Commit);
                let i = choose|i: int| 0 <= i < j && acts[i] == ClaimAction::SendAnswer;
                assert(acts2[i] == ClaimAction::SendAnswer);
            } else {
                lemma_commit_follows_answer(q, e);
                let i = choose|i: int| 0 <= i < acts.len() && acts[i] == ClaimAction::SendAnswer;
                assert(acts2[i] == ClaimAction::SendAnswer);
            }
        }
        if r.stage is AwaitAnswerSent || r.answer_sent {
            if !(q.stage is AwaitAnswerSent || q.answer_sent) {
                assert(a == ClaimAction::SendAnswer);
            }
        }
        if r.stage is AwaitCommit || r.stage is Done {
            if q.stage is AwaitCommit || q.stage is Done {
                let j = choose|j: int| 0 <= j < acts.len() && acts[j] == ClaimAction::Commit;
                assert(acts2[j] == ClaimAction::Commit);
            } else {
                assert(a == ClaimAction::Commit);
                assert(acts2[acts.len() as int] == ClaimAction::Commit);
            }
        }
        if r.stage is Done {
            let j = choose|j: int| 0 <= j < acts2.len() && acts2[j] == ClaimAction::Commit;
            let i = choose|i: int| 0 <= i < j && acts2[i] == ClaimAction::SendAnswer;
            assert(0 <= i < j < acts2.len());
        }
    }
}

} // verus!
