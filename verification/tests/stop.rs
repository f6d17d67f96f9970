use bench_clients::chain::Chain;
use bench_clients::client::{Args, EthereumClient};
use bench_clients::error::ClientError;
use bench_clients::geth::GethClient;
use bench_clients::launch::{LaunchReply, LaunchStep};
use bench_clients::path::Platform;
use bench_clients::reth::RethClient;
use bench_clients::stop::{
    to_signed_id, ProcessStatus, SignalResult, SignalTarget, StopPlan, StopReply, StopStep,
    TaskkillReport,
};

fn unix() -> StopPlan {
    StopPlan::new(4242, Platform::Unix, true)
}

fn other() -> StopPlan {
    StopPlan::new(4242, Platform::Other, true)
}

fn run(plan: &StopPlan, replies: Vec<StopReply>) -> StopStep {
    let mut step = plan.first();
    for reply in replies {
        step = plan.next(step, reply);
    }
    step
}

fn running() -> StopReply {
    StopReply::Status(ProcessStatus::Running)
}

fn args() -> Args {
    Args {
        output_dir: "/out".to_string(),
        datadir: "/data".to_string(),
        chain: Chain::Named(1),
        sudo: false,
        metrics_port: 0,
        reth_args: Vec::new(),
    }
}

#[test]
fn a_geth_process_is_signalled_itself() {
    let mut client = GethClient::new(&args(), String::new(), Platform::Unix);
    let launch = client.start_node("/bin/geth", "main", "baseline", &[]);
    assert!(!launch.own_group);
    let step = launch.next(launch.first(), LaunchReply::Secured(None));
    let pid = match launch.next(step, LaunchReply::Spawned(Some(17))) {
        LaunchStep::Running(pid) => pid,
        _ => panic!("the node was spawned"),
    };
    let plan = client.stop_node(pid);
    assert_eq!(plan.pid, 17);
    assert_eq!(plan.platform, Platform::Unix);
    assert_eq!(plan.target, SignalTarget::Process(17));
    let step = run(&plan, vec![running()]);
    assert!(matches!(step, StopStep::Interrupt));
    let step = plan.next(step, StopReply::Signalled(SignalResult::Sent));
    assert!(matches!(step, StopStep::Await));
    assert!(matches!(plan.next(step, StopReply::Awaited), StopStep::Stopped));
}

#[test]
fn a_reth_process_is_signalled_with_its_group() {
    let mut client = RethClient::new(&args(), String::new(), Platform::Unix);
    let launch = client.start_node("/bin/reth", "main", "baseline", &[]);
    assert!(launch.own_group);
    let plan = client.stop_node(17);
    assert_eq!(plan.pid, 17);
    assert_eq!(plan.target, SignalTarget::Group(17));
    assert!(matches!(run(&plan, vec![running()]), StopStep::Interrupt));
}

#[test]
fn clients_stop_nodes_as_the_platform_does() {
    let client = GethClient::new(&args(), String::new(), Platform::Other);
    assert_eq!(client.stop_node(17).platform, Platform::Other);
    assert!(matches!(run(&client.stop_node(17), vec![running()]), StopStep::RunTaskkill));
    let client = RethClient::new(&args(), String::new(), Platform::Other);
    assert_eq!(client.stop_node(17).platform, Platform::Other);
    assert_eq!(client.stop_node(17).taskkill().args, ["/PID", "17", "/F"]);
}

#[test]
fn an_exited_node_is_left_alone() {
    assert!(matches!(unix().first(), StopStep::CheckStatus));
    let step = run(&unix(), vec![StopReply::Status(ProcessStatus::Exited)]);
    assert!(matches!(step, StopStep::Stopped));
}

#[test]
fn a_running_node_is_interrupted_and_awaited() {
    assert!(matches!(run(&unix(), vec![running()]), StopStep::Interrupt));
    for result in [SignalResult::Sent, SignalResult::NoSuchTarget] {
        let step = run(&unix(), vec![running(), StopReply::Signalled(result)]);
        assert!(matches!(step, StopStep::Await));
        assert!(matches!(unix().next(step, StopReply::Awaited), StopStep::Stopped));
    }
}

#[test]
fn stopping_fails_on_unknown_status_or_refused_signal() {
    let unknown = StopReply::Status(ProcessStatus::Unknown { reason: "no child".to_string() });
    match run(&unix(), vec![unknown]) {
        StopStep::Failed(ClientError::StatusUnknown { reason }) => assert_eq!(reason, "no child"),
        _ => panic!("the status is unknown"),
    }
    let refused = StopReply::Signalled(SignalResult::Refused { reason: "EPERM".to_string() });
    match run(&unix(), vec![running(), refused]) {
        StopStep::Failed(ClientError::SignalNotSent { pid, reason }) => {
            assert_eq!(pid, 4242);
            assert_eq!(reason, "EPERM");
        }
        _ => panic!("the signal was refused"),
    }
}

#[test]
fn taskkill_is_run_elsewhere() {
    assert!(matches!(run(&other(), vec![running()]), StopStep::RunTaskkill));
    let command = other().taskkill();
    assert_eq!(command.program, "taskkill");
    assert_eq!(command.args, ["/PID", "4242", "/F"]);
    for (success, stderr) in [
        (true, ""),
        (false, "ERROR: The process \"4242\" not found."),
        (false, "it does not exist"),
    ] {
        let report = TaskkillReport::new(success, stderr.as_bytes());
        let step = run(&other(), vec![running(), StopReply::Taskkill(Some(report))]);
        assert!(matches!(step, StopStep::Await));
    }
}

#[test]
fn taskkill_can_fail() {
    let step = run(&other(), vec![running(), StopReply::Taskkill(None)]);
    assert!(matches!(step, StopStep::Failed(ClientError::TaskkillNotRun)));
    let report = TaskkillReport::new(false, b"Access is denied.\xff");
    match run(&other(), vec![running(), StopReply::Taskkill(Some(report))]) {
        StopStep::Failed(ClientError::NotKilled { pid, stderr }) => {
            assert_eq!(pid, 4242);
            assert_eq!(stderr, "Access is denied.\u{fffd}");
        }
        _ => panic!("access was denied"),
    }
}

#[test]
fn targets_keep_the_bits_of_the_process_id() {
    for pid in [0u32, 1, 4242, 0x7fff_ffff, 0x8000_0000, u32::MAX] {
        assert_eq!(to_signed_id(pid), pid as i32);
        let plan = StopPlan::new(pid, Platform::Unix, true);
        assert_eq!(plan.target, SignalTarget::Group(pid as i32));
        let plan = StopPlan::new(pid, Platform::Unix, false);
        assert_eq!(plan.target, SignalTarget::Process(pid as i32));
    }
}
