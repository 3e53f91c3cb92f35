use network_core::realtime::claim::{ClaimAction, ClaimEvent, ClaimProgress, ClaimStage};
use network_core::realtime::wire::NetworkErrorCode;

fn run(events: &[ClaimEvent]) -> (ClaimProgress, Vec<ClaimAction>) {
    let mut p = ClaimProgress::start();
    let mut actions = Vec::new();
    for e in events {
        let (q, a) = p.step(*e);
        p = q;
        actions.push(a);
    }
    (p, actions)
}

#[test]
fn claim_happy_path_sends_answer_before_commit() {
    let (p, actions) = run(&[
        ClaimEvent::DriverCreated { binding_exact: true },
        ClaimEvent::OfferApplied { generation: 7 },
        ClaimEvent::IceApplied,
        ClaimEvent::IoSpawned { has_answer: true },
        ClaimEvent::AnswerSent,
        ClaimEvent::Committed,
    ]);
    assert_eq!(
        actions,
        vec![
            ClaimAction::ApplyOffer,
            ClaimAction::ApplyQueuedIce,
            ClaimAction::SpawnIo,
            ClaimAction::SendAnswer,
            ClaimAction::Commit,
            ClaimAction::Publish,
        ]
    );
    assert_eq!(p.stage, ClaimStage::Done);
    assert_eq!(p.responder_generation, Some(7));
    assert!(p.answer_sent);
}

#[test]
fn claim_commit_is_not_reached_without_answer() {
    let (p, a) = ClaimProgress::start().step(ClaimEvent::AnswerSent);
    assert_eq!(a, ClaimAction::Ignore);
    assert_eq!(p, ClaimProgress::start());
    let (p, actions) = run(&[
        ClaimEvent::DriverCreated { binding_exact: true },
        ClaimEvent::OfferApplied { generation: 3 },
        ClaimEvent::IceApplied,
        ClaimEvent::Committed,
    ]);
    assert_eq!(actions[3], ClaimAction::Ignore);
    assert_eq!(p.stage, ClaimStage::AwaitSpawn);
}

#[test]
fn claim_driver_failure_releases_binding() {
    let (p, actions) = run(&[ClaimEvent::DriverFailed]);
    assert_eq!(actions, vec![ClaimAction::ReleaseClaim]);
    assert_eq!(p.stage, ClaimStage::Failed(NetworkErrorCode::IoError));
}

#[test]
fn claim_superseded_after_driver_closes_it() {
    let (p, actions) = run(&[ClaimEvent::DriverCreated { binding_exact: false }]);
    assert_eq!(actions, vec![ClaimAction::CloseDriver]);
    assert_eq!(p.stage, ClaimStage::Failed(NetworkErrorCode::StaleOperation));
}

#[test]
fn claim_offer_failure_rolls_back_current_generation() {
    let (p, actions) = run(&[
        ClaimEvent::DriverCreated { binding_exact: true },
        ClaimEvent::OfferFailed { current_generation: Some(4) },
    ]);
    assert_eq!(
        actions[1],
        ClaimAction::Rollback { responder_generation: Some(4), cancel_io: false, send_close: false }
    );
    assert_eq!(p.stage, ClaimStage::Failed(NetworkErrorCode::IoError));
}

#[test]
fn claim_ice_failure_rolls_back_responder() {
    let (p, actions) = run(&[
        ClaimEvent::DriverCreated { binding_exact: true },
        ClaimEvent::OfferApplied { generation: 9 },
        ClaimEvent::IceFailed,
    ]);
    assert_eq!(
        actions[2],
        ClaimAction::Rollback { responder_generation: Some(9), cancel_io: false, send_close: false }
    );
    assert_eq!(p.stage, ClaimStage::Failed(NetworkErrorCode::IoError));
}

#[test]
fn claim_refused_task_is_cancelled() {
    let (p, actions) = run(&[
        ClaimEvent::DriverCreated { binding_exact: true },
        ClaimEvent::OfferApplied { generation: 2 },
        ClaimEvent::IceApplied,
        ClaimEvent::IoRefused,
    ]);
    assert_eq!(
        actions[3],
        ClaimAction::Rollback { responder_generation: Some(2), cancel_io: false, send_close: false }
    );
    assert_eq!(p.stage, ClaimStage::Failed(NetworkErrorCode::Cancelled));
}

#[test]
fn claim_without_answer_fails() {
    let (p, actions) = run(&[
        ClaimEvent::DriverCreated { binding_exact: true },
        ClaimEvent::OfferApplied { generation: 2 },
        ClaimEvent::IceApplied,
        ClaimEvent::IoSpawned { has_answer: false },
    ]);
    assert_eq!(
        actions[3],
        ClaimAction::Rollback { responder_generation: Some(2), cancel_io: true, send_close: false }
    );
    assert_eq!(p.stage, ClaimStage::Failed(NetworkErrorCode::IoError));
}

#[test]
fn claim_answer_send_failure_keeps_its_error() {
    let (p, actions) = run(&[
        ClaimEvent::DriverCreated { binding_exact: true },
        ClaimEvent::OfferApplied { generation: 5 },
        ClaimEvent::IceApplied,
        ClaimEvent::IoSpawned { has_answer: true },
        ClaimEvent::AnswerFailed(NetworkErrorCode::RelayError),
    ]);
    assert_eq!(
        actions[4],
        ClaimAction::Rollback { responder_generation: Some(5), cancel_io: true, send_close: false }
    );
    assert_eq!(p.stage, ClaimStage::Failed(NetworkErrorCode::RelayError));
    assert!(!p.answer_sent);
}

#[test]
fn claim_refused_commit_sends_close_and_rolls_back() {
    let (p, actions) = run(&[
        ClaimEvent::DriverCreated { binding_exact: true },
        ClaimEvent::OfferApplied { generation: 6 },
        ClaimEvent::IceApplied,
        ClaimEvent::IoSpawned { has_answer: true },
        ClaimEvent::AnswerSent,
        ClaimEvent::CommitRefused,
    ]);
    assert_eq!(
        actions[5],
        ClaimAction::Rollback { responder_generation: Some(6), cancel_io: true, send_close: true }
    );
    assert_eq!(p.stage, ClaimStage::Failed(NetworkErrorCode::StaleOperation));
    assert!(p.answer_sent);
}

#[test]
fn claim_finished_ignores_later_events() {
    let (p, _) = run(&[ClaimEvent::DriverFailed]);
    let (q, a) = p.step(ClaimEvent::Committed);
    assert_eq!(a, ClaimAction::Ignore);
    assert_eq!(q, p);
}
