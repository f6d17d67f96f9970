use bench_clients::chain::Chain;
use bench_clients::client::{Args, EthereumClient};
use bench_clients::error::{ClientError, ClientKind};
use bench_clients::geth::{to_network_args, GethClient};
use bench_clients::launch::{LaunchReply, LaunchStep};
use bench_clients::path::Platform;
use bench_clients::reth::{RethClient, OPTIMISM_PREDEPLOY};
use bench_clients::rpc::{check_rpc_url, url_verdict};
use bench_clients::unwind::{ExitReport, UnwindPlan, UnwindReply, UnwindStep};

fn args(chain: Chain, sudo: bool) -> Args {
    Args {
        output_dir: "/out".to_string(),
        datadir: "/data".to_string(),
        chain,
        sudo,
        metrics_port: 9001,
        reth_args: vec!["--common".to_string()],
    }
}

fn geth(chain: Chain, sudo: bool) -> GethClient {
    GethClient::new(&args(chain, sudo), "/repo".to_string(), Platform::Unix)
}

fn reth(chain: Chain, sudo: bool) -> RethClient {
    RethClient::new(&args(chain, sudo), "/repo".to_string(), Platform::Unix)
}

fn extra() -> Vec<String> {
    vec!["--own".to_string(), "1".to_string()]
}

#[test]
fn geth_nodes_get_their_arguments() {
    assert_eq!(
        geth(Chain::Named(17000), false).build_geth_args("/bin/geth", &extra()),
        [
            "/bin/geth",
            "--holesky",
            "--datadir",
            "/data",
            "--authrpc.jwtsecret",
            "/data/geth/jwtsecret",
            "--http",
            "--http.api",
            "eth,debug",
            "--nodiscover",
            "--maxpeers",
            "0",
            "--history.transactions",
            "0",
            "--history.logs.disable",
            "--common",
            "--own",
            "1",
        ]
    );
}

#[test]
fn geth_selects_the_network() {
    assert!(geth(Chain::Named(1), false).get_geth_network_args().is_empty());
    assert_eq!(geth(Chain::Named(11155111), false).get_geth_network_args(), ["--sepolia"]);
    assert_eq!(geth(Chain::Named(17000), false).get_geth_network_args(), ["--holesky"]);
    assert_eq!(geth(Chain::Named(5), false).get_geth_network_args(), ["--goerli"]);
    for unknown in [Chain::Named(10), Chain::Id(1), Chain::Id(11155111)] {
        assert!(geth(unknown, false).get_geth_network_args().is_empty());
        assert!(!geth(unknown, false).knows_chain());
    }
    for known in [1u64, 5, 17000, 11155111] {
        assert!(geth(Chain::Named(known), false).knows_chain());
    }
    assert_eq!(to_network_args("mainnet"), Some(vec![]));
    assert_eq!(to_network_args("goerli"), Some(vec!["--goerli".to_string()]));
    assert_eq!(to_network_args("base"), None);
}

#[test]
fn reth_nodes_get_their_arguments() {
    let tail = [
        "--datadir",
        "/data",
        "--engine.accept-execution-requests-hash",
        "--metrics",
        "0.0.0.0:9001",
        "--http",
        "--http.api",
        "eth",
        "--disable-discovery",
        "--trusted-only",
        "--common",
        "--own",
        "1",
    ];
    let mut expected = vec!["/bin/reth", "node"];
    expected.extend(tail);
    assert_eq!(reth(Chain::Named(1), false).build_reth_args("/bin/reth", &extra()), expected);

    let mut expected = vec!["/bin/reth", "node", "--chain", "optimism"];
    expected.extend(tail);
    assert_eq!(reth(Chain::Named(10), false).build_reth_args("/bin/reth", &extra()), expected);
    let client = reth(Chain::Named(1), false);
    assert_eq!(client.build_reth_args_for("optimism", "/bin/reth", &extra()), expected);
}

#[test]
fn sudo_stands_before_the_same_words() {
    let line = vec!["/bin/geth".to_string(), "--http".to_string()];
    let command = geth(Chain::Named(1), false).create_direct_command(&line);
    assert_eq!(command.program, "/bin/geth");
    assert_eq!(command.args, ["--http"]);
    let command = geth(Chain::Named(1), true).create_direct_command(&line);
    assert_eq!(command.program, "sudo");
    assert_eq!(command.args, line);
    let command = reth(Chain::Named(1), true).create_direct_command(&line[..1]);
    assert_eq!(command.program, "sudo");
    assert_eq!(command.args, ["/bin/geth"]);
    let command = reth(Chain::Named(1), false).create_direct_command(&line[..1]);
    assert_eq!(command.program, "/bin/geth");
    assert!(command.args.is_empty());
}

#[test]
fn a_geth_node_starts_once_its_secret_is_there() {
    let mut client = geth(Chain::Named(1), false);
    let plan = client.start_node("/bin/geth", "main", "baseline", &extra());
    let secret = plan.secret.as_ref().unwrap();
    assert_eq!(secret.path, "/data/geth/jwtsecret");
    assert_eq!(client.get_jwt_secret_path(), secret.path);
    assert_eq!(plan.command.program, "/bin/geth");
    assert_eq!(plan.command.args, client.build_geth_args("/bin/geth", &extra())[1..]);
    let at = plan.command.args.iter().position(|word| word == "--authrpc.jwtsecret").unwrap();
    assert_eq!(plan.command.args[at + 1], secret.path);
    assert!(!plan.own_group);
    assert!(plan.kill_on_drop);
    assert!(plan.log_label.is_none());
    assert_eq!(plan.settle_secs, 0);

    assert!(matches!(plan.first(), LaunchStep::EnsureSecret));
    let step = plan.next(plan.first(), LaunchReply::Secured(None));
    assert!(matches!(step, LaunchStep::Spawn));
    assert!(matches!(plan.next(step, LaunchReply::Spawned(Some(7))), LaunchStep::Running(7)));

    let error = Some(ClientError::SecretNotWritten);
    let step = plan.next(plan.first(), LaunchReply::Secured(error));
    assert!(matches!(step, LaunchStep::Failed(ClientError::SecretNotWritten)));
}

#[test]
fn a_reth_node_starts_at_once_and_settles() {
    let mut client = reth(Chain::Named(1), true);
    let plan = client.start_node("/bin/reth", "main", "feature", &[]);
    assert!(plan.secret.is_none());
    assert_eq!(plan.command.program, "sudo");
    assert_eq!(plan.command.args[..2], ["/bin/reth", "node"]);
    assert!(plan.own_group);
    assert!(plan.kill_on_drop);
    assert_eq!(plan.log_label, Some("[RETH]"));
    assert_eq!(plan.settle_secs, 5);

    assert!(matches!(plan.first(), LaunchStep::Spawn));
    let step = plan.next(plan.first(), LaunchReply::Spawned(Some(7)));
    assert!(matches!(step, LaunchStep::Settle(7)));
    assert!(matches!(plan.next(step, LaunchReply::Settled), LaunchStep::Running(7)));
    let step = plan.next(plan.first(), LaunchReply::NotSpawned);
    assert!(matches!(step, LaunchStep::Failed(ClientError::NodeNotStarted)));
    let step = plan.next(plan.first(), LaunchReply::Spawned(None));
    assert!(matches!(step, LaunchStep::Failed(ClientError::NodeNotRunning)));
}

#[test]
fn geth_is_unwound_by_a_call() {
    let client = geth(Chain::Named(1), false);
    assert!(client.requires_node_for_unwind());
    let plan = client.unwind_to_block(22_431_084);
    match &plan {
        UnwindPlan::Call(call) => {
            assert_eq!(call.url, "http://localhost:8545");
            assert_eq!(call.url, client.wait_for_ready().url);
            assert_eq!(call.method, "debug_setHead");
            assert_eq!(call.params, ["0x156456c"]);
        }
        UnwindPlan::Run(_) => panic!("geth is unwound while it runs"),
    }
    assert_eq!(plan.log_label(), None);
    assert!(matches!(plan.first(), UnwindStep::Call));
    let step = plan.next(plan.first(), UnwindReply::Called(true));
    assert!(matches!(step, UnwindStep::Unwound));
    let step = plan.next(plan.first(), UnwindReply::Called(false));
    assert!(matches!(step, UnwindStep::Failed(ClientError::SetHeadFailed)));
}

#[test]
fn reth_is_unwound_by_a_command() {
    let mut client = reth(Chain::Named(11155111), false);
    assert!(!client.requires_node_for_unwind());
    match client.unwind_to_block(5) {
        UnwindPlan::Run(command) => {
            assert_eq!(command.program, "./target/release/reth");
            assert_eq!(
                command.args,
                ["stage", "unwind", "--chain", "sepolia", "--datadir", "/data", "to-block", "5"]
            );
        }
        UnwindPlan::Call(_) => panic!("reth is unwound by a command"),
    }
    client.start_node("/bin/reth", "main", "baseline", &[]);
    let command = client.unwind_command("mainnet", 0);
    assert_eq!(command.program, "/bin/reth");
    assert_eq!(command.args, ["stage", "unwind", "--datadir", "/data", "to-block", "0"]);

    let mut client = reth(Chain::Named(1), true);
    client.start_node("/bin/reth", "main", "baseline", &[]);
    match client.unwind_to_block(18) {
        UnwindPlan::Run(command) => {
            assert_eq!(command.program, "sudo");
            assert_eq!(
                command.args,
                ["/bin/reth", "stage", "unwind", "--datadir", "/data", "to-block", "18"]
            );
        }
        UnwindPlan::Call(_) => panic!("reth is unwound by a command"),
    }
}

#[test]
fn an_unwind_command_can_fail() {
    let plan = reth(Chain::Named(1), false).unwind_to_block(5);
    assert_eq!(plan.log_label(), Some("[RETH-UNWIND]"));
    assert!(matches!(plan.first(), UnwindStep::Spawn));
    let step = plan.next(plan.first(), UnwindReply::Spawned(false));
    assert!(matches!(step, UnwindStep::Failed(ClientError::UnwindNotStarted)));
    let step = plan.next(plan.first(), UnwindReply::Spawned(true));
    assert!(matches!(step, UnwindStep::Await));
    let step = plan.next(step, UnwindReply::Exited(None));
    assert!(matches!(step, UnwindStep::Failed(ClientError::UnwindNotAwaited)));
    let report = ExitReport { success: false, code: None };
    let step = plan.next(UnwindStep::Await, UnwindReply::Exited(Some(report)));
    assert!(matches!(step, UnwindStep::Failed(ClientError::UnwindFailed { code: None })));
    let report = ExitReport { success: true, code: Some(0) };
    let step = plan.next(UnwindStep::Await, UnwindReply::Exited(Some(report)));
    assert!(matches!(step, UnwindStep::Unwound));
}

#[test]
fn optimism_is_told_by_its_predeploy() {
    let address: alloy_primitives::Address =
        "0x420000000000000000000000000000000000000F".parse().unwrap();
    assert_eq!(address.as_slice(), &OPTIMISM_PREDEPLOY[..]);
    let client = reth(Chain::Named(10), false);
    let probe = client.detect_optimism_chain("https://mainnet.optimism.io").unwrap();
    assert_eq!(probe.url, "https://mainnet.optimism.io");
    assert_eq!(probe.address, OPTIMISM_PREDEPLOY);
    assert!(matches!(probe.outcome(Some(&[0x60])), Ok(true)));
    assert!(matches!(probe.outcome(Some(&[])), Ok(false)));
    let error = probe.outcome(None).unwrap_err();
    assert!(matches!(error, ClientError::CodeNotFetched));
    assert!(error.message(ClientKind::Reth).is_none());
    assert!(error.keeps_cause());
}

#[test]
fn optimism_is_not_looked_for_at_an_invalid_address() {
    let error = reth(Chain::Named(10), false).detect_optimism_chain("localhost").unwrap_err();
    assert_eq!(
        error.message(ClientKind::Reth).unwrap(),
        "Invalid RPC URL 'localhost': relative URL without a base"
    );
    assert!(!error.keeps_cause());
}

#[test]
fn rpc_addresses_have_to_be_urls() {
    for url in ["http://localhost:8545", "http://[::1]:8545/", "ws://node"] {
        assert!(check_rpc_url(url).is_ok(), "{}", url);
    }
    assert!(check_rpc_url(geth(Chain::Named(1), false).wait_for_ready().url).is_ok());
    for (url, words) in [
        ("", "relative URL without a base"),
        ("http://", "empty host"),
        ("http://localhost:99999", "invalid port number"),
        ("http://[::1", "invalid IPv6 address"),
    ] {
        match check_rpc_url(url) {
            Err(ClientError::InvalidRpcUrl { url: named, reason }) => {
                assert_eq!(named, url);
                assert_eq!(reason, words);
            }
            _ => panic!("{:?} is no URL", url),
        }
    }
    assert!(url_verdict("anything", None).is_ok());
    let error = url_verdict("anything", Some("odd".to_string())).unwrap_err();
    assert_eq!(error.message(ClientKind::Geth).unwrap(), "Invalid RPC URL 'anything': odd");
}
