use bench_clients::chain::Chain;
use bench_clients::client::{Args, EthereumClient};
use bench_clients::compile::{
    CompilePlan, CompileReply, CompileStep, MakeResult, EXECUTABLE_MODE,
};
use bench_clients::error::{ClientError, ClientKind};
use bench_clients::geth::GethClient;
use bench_clients::path::Platform;
use bench_clients::reth::RethClient;

const COMMIT: &str = "a1b2c3d4e5f60718293a4b5c6d7e8f9001122334";

fn args() -> Args {
    Args {
        output_dir: "/out".to_string(),
        datadir: "/data".to_string(),
        chain: Chain::Named(1),
        sudo: false,
        metrics_port: 9001,
        reth_args: Vec::new(),
    }
}

fn geth_plan(platform: Platform) -> CompilePlan {
    let client = GethClient::new(&args(), "/repo".to_string(), platform);
    client.compile("main", COMMIT, COMMIT).unwrap()
}

fn run(plan: &CompilePlan, replies: Vec<CompileReply>) -> CompileStep {
    let mut step = plan.first();
    for reply in replies {
        step = plan.next(step, reply);
    }
    step
}

fn made() -> CompileReply {
    CompileReply::Ran(MakeResult::Exited { success: true, code: Some(0) })
}

#[test]
fn plans_name_the_files() {
    let plan = geth_plan(Platform::Unix);
    assert_eq!(plan.kind, ClientKind::Geth);
    assert_eq!(plan.repo_root, "/repo");
    assert_eq!(plan.source_path, "/repo/build/bin/geth");
    assert_eq!(plan.bin_dir, "/out/bin");
    assert_eq!(plan.cached_path, "/out/bin/geth_a1b2c3d4");

    let reth = RethClient::new(&args(), "/repo/".to_string(), Platform::Unix);
    let plan = reth.compile("main", COMMIT, COMMIT).unwrap();
    assert_eq!(plan.platform, Platform::Unix);
    assert_eq!(plan.source_path, "/repo/target/release/reth");
    assert_eq!(plan.cached_path, "/out/bin/reth_a1b2c3d4");

    let plan = geth_plan(Platform::Other);
    assert_eq!(plan.platform, Platform::Other);
    assert_eq!(plan.source_path, "/repo\\build/bin/geth");
    assert_eq!(plan.bin_dir, "/out\\bin");
    assert_eq!(plan.cached_path, "/out\\bin\\geth_a1b2c3d4");
    assert_eq!(EXECUTABLE_MODE, 0o755);
}

#[test]
fn plans_spell_out_verbatim_paths() {
    let mut args = args();
    args.output_dir = r"\\?\D:\out".to_string();
    let reth = RethClient::new(&args, r"\\?\C:\repo".to_string(), Platform::Other);
    let plan = reth.compile("main", COMMIT, COMMIT).unwrap();
    assert_eq!(plan.source_path, r"\\?\C:\repo\target\release\reth");
    assert_eq!(plan.bin_dir, r"\\?\D:\out\bin");
    assert_eq!(plan.cached_path, r"\\?\D:\out\bin\reth_a1b2c3d4");
    assert_eq!(reth.get_cached_binary_path(COMMIT), plan.cached_path);
}

#[test]
fn each_client_is_made_by_its_target() {
    let command = geth_plan(Platform::Unix).make_command();
    assert_eq!(command.program, "make");
    assert_eq!(command.args, ["geth"]);
    let reth = RethClient::new(&args(), "/repo".to_string(), Platform::Unix);
    let command = reth.compile("main", COMMIT, COMMIT).unwrap().make_command();
    assert_eq!(command.program, "make");
    assert_eq!(command.args, ["release"]);
}

#[test]
fn cached_paths_tell_builds_apart() {
    let geth = GethClient::new(&args(), "/repo".to_string(), Platform::Unix);
    let reth = RethClient::new(&args(), "/repo".to_string(), Platform::Unix);
    assert_eq!(geth.get_cached_binary_path(COMMIT), "/out/bin/geth_a1b2c3d4");
    assert_eq!(reth.get_cached_binary_path(COMMIT), "/out/bin/reth_a1b2c3d4");
    assert_eq!(geth.get_cached_binary_path("a1b2c3d4ffff"), geth.get_cached_binary_path(COMMIT));
    assert_ne!(geth.get_cached_binary_path("a1b2c3d5ffff"), geth.get_cached_binary_path(COMMIT));
    assert_eq!(geth.client_name(), "geth");
    assert_eq!(reth.client_name(), "reth");
}

#[test]
fn another_commit_is_refused() {
    let client = GethClient::new(&args(), "/repo".to_string(), Platform::Unix);
    let error = match client.compile("main", COMMIT, "0011223344556677") {
        Err(error) => error,
        Ok(_) => panic!("the commits differ"),
    };
    assert!(matches!(error, ClientError::CommitMismatch { .. }));
    assert_eq!(
        error.message(ClientKind::Geth).unwrap(),
        "Git commit mismatch! Expected: a1b2c3d4, but currently at: 00112233"
    );
    // Commits that share their short form only are different all the same.
    assert!(client.compile("main", COMMIT, "a1b2c3d4").is_err());
}

#[test]
fn a_cached_binary_is_used() {
    let plan = geth_plan(Platform::Unix);
    assert!(matches!(plan.first(), CompileStep::FindCached));
    assert!(matches!(run(&plan, vec![CompileReply::Found(true)]), CompileStep::Done));
}

#[test]
fn a_build_goes_through_all_steps() {
    let plan = geth_plan(Platform::Unix);
    let mut step = plan.first();
    step = plan.next(step, CompileReply::Found(false));
    assert!(matches!(step, CompileStep::RunMake));
    step = plan.next(step, made());
    assert!(matches!(step, CompileStep::FindBuilt));
    step = plan.next(step, CompileReply::Found(true));
    assert!(matches!(step, CompileStep::CreateBinDir));
    step = plan.next(step, CompileReply::Performed(true));
    assert!(matches!(step, CompileStep::CopyBinary));
    step = plan.next(step, CompileReply::Performed(true));
    assert!(matches!(step, CompileStep::SetExecutable));
    step = plan.next(step, CompileReply::Performed(true));
    assert!(matches!(step, CompileStep::Done));
}

#[test]
fn permissions_are_set_on_unix_only() {
    let plan = geth_plan(Platform::Other);
    let replies = vec![
        CompileReply::Found(false),
        made(),
        CompileReply::Found(true),
        CompileReply::Performed(true),
        CompileReply::Performed(true),
    ];
    assert!(matches!(run(&plan, replies), CompileStep::Done));
}

#[test]
fn each_step_of_a_build_can_fail() {
    let plan = geth_plan(Platform::Unix);
    let step = run(&plan, vec![CompileReply::Found(false), CompileReply::Ran(MakeResult::NotRun)]);
    assert!(matches!(step, CompileStep::Failed(ClientError::MakeNotRun)));

    let failed = CompileReply::Ran(MakeResult::Exited { success: false, code: Some(2) });
    let step = run(&plan, vec![CompileReply::Found(false), failed]);
    assert!(matches!(
        step,
        CompileStep::Failed(ClientError::CompilationFailed { code: Some(2) })
    ));

    let step =
        run(&plan, vec![CompileReply::Found(false), made(), CompileReply::Found(false)]);
    match step {
        CompileStep::Failed(ClientError::BinaryNotFound { path }) => {
            assert_eq!(path, "/repo/build/bin/geth")
        }
        _ => panic!("the binary was not found"),
    }

    let mut replies = vec![CompileReply::Found(false), made(), CompileReply::Found(true)];
    replies.push(CompileReply::Performed(false));
    assert!(matches!(run(&plan, replies), CompileStep::Failed(ClientError::BinDirNotCreated)));

    let mut replies = vec![CompileReply::Found(false), made(), CompileReply::Found(true)];
    replies.push(CompileReply::Performed(true));
    replies.push(CompileReply::Performed(false));
    assert!(matches!(run(&plan, replies), CompileStep::Failed(ClientError::BinaryNotCopied)));

    let mut replies = vec![CompileReply::Found(false), made(), CompileReply::Found(true)];
    replies.push(CompileReply::Performed(true));
    replies.push(CompileReply::Performed(true));
    replies.push(CompileReply::Performed(false));
    assert!(matches!(run(&plan, replies), CompileStep::Failed(ClientError::PermissionsNotSet)));
}
