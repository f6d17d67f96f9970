use bench_clients::error::ClientError;
use bench_clients::ready::{
    first, next, BlockHeight, ReadyPlan, ReadyReply, ReadyStep, SyncStatus,
};

fn height(n: u64) -> BlockHeight {
    BlockHeight { limb0: n, limb1: 0, limb2: 0, limb3: 0 }
}

fn syncing(current: u64, highest: u64) -> ReadyReply {
    ReadyReply::Sync(Some(SyncStatus::Info {
        current_block: height(current),
        highest_block: height(highest),
    }))
}

fn idle() -> ReadyReply {
    ReadyReply::Sync(Some(SyncStatus::Idle))
}

fn run(replies: Vec<ReadyReply>) -> ReadyStep {
    let mut step = first();
    for reply in replies {
        step = next(step, reply);
    }
    step
}

#[test]
fn the_plan_is_the_same_for_all() {
    let plan = ReadyPlan::new();
    assert_eq!(plan.url, "http://localhost:8545");
    assert_eq!(plan.max_wait_secs, 120);
    assert_eq!(plan.check_interval_secs, 2);
}

#[test]
fn a_node_that_does_not_sync_is_ready() {
    assert!(matches!(run(vec![]), ReadyStep::QuerySync));
    assert!(matches!(run(vec![idle()]), ReadyStep::QueryTip));
    assert!(matches!(run(vec![idle(), ReadyReply::Tip(Some(99))]), ReadyStep::Ready(99)));
}

#[test]
fn a_node_at_the_highest_block_is_ready() {
    assert!(matches!(run(vec![syncing(7, 7)]), ReadyStep::QueryTip));
    assert!(matches!(run(vec![syncing(7, 7), ReadyReply::Tip(Some(7))]), ReadyStep::Ready(7)));
}

#[test]
fn a_node_that_is_behind_is_asked_again_later() {
    assert!(matches!(run(vec![syncing(6, 7)]), ReadyStep::Sleep));
    assert!(matches!(run(vec![syncing(8, 7)]), ReadyStep::Sleep));
    assert!(matches!(run(vec![syncing(6, 7), ReadyReply::Slept]), ReadyStep::QuerySync));
    let replies = vec![
        syncing(6, 7),
        ReadyReply::Slept,
        syncing(7, 7),
        ReadyReply::Tip(None),
        ReadyReply::Slept,
        ReadyReply::Sync(None),
        ReadyReply::Slept,
        idle(),
        ReadyReply::Tip(Some(8)),
    ];
    assert!(matches!(run(replies), ReadyStep::Ready(8)));
}

#[test]
fn heights_differ_in_any_limb() {
    for limb in 0..4 {
        let mut other = height(7);
        match limb {
            0 => other.limb0 = 8,
            1 => other.limb1 = 1,
            2 => other.limb2 = 1,
            _ => other.limb3 = 1,
        }
        let status = SyncStatus::Info { current_block: height(7), highest_block: other };
        assert!(status.behind());
    }
    let status = SyncStatus::Info { current_block: height(7), highest_block: height(7) };
    assert!(!status.behind());
    assert!(!SyncStatus::Idle.behind());
}

#[test]
fn the_deadline_ends_the_wait() {
    let failed = |step: ReadyStep| matches!(step, ReadyStep::Failed(ClientError::ReadyTimeout));
    assert!(failed(run(vec![ReadyReply::TimedOut])));
    assert!(failed(run(vec![idle(), ReadyReply::TimedOut])));
    assert!(failed(run(vec![syncing(1, 2), ReadyReply::TimedOut])));
}
