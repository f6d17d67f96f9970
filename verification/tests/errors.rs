use bench_clients::error::{to_code_text, ClientError, ClientKind};

fn message(error: ClientError, kind: ClientKind) -> String {
    error.message(kind).unwrap()
}

#[test]
fn exit_codes_are_shown_as_options() {
    for code in [None, Some(0), Some(101), Some(-1), Some(i32::MIN)] {
        assert_eq!(to_code_text(code), format!("{:?}", code));
    }
}

#[test]
fn build_errors_are_described() {
    let (geth, reth) = (ClientKind::Geth, ClientKind::Reth);
    assert_eq!(message(ClientError::MakeNotRun, geth), "Failed to execute make geth command");
    assert_eq!(message(ClientError::MakeNotRun, reth), "Failed to execute make release command");
    assert_eq!(
        message(ClientError::CompilationFailed { code: Some(2) }, geth),
        "Geth compilation failed with exit code: Some(2)"
    );
    assert_eq!(
        message(ClientError::CompilationFailed { code: None }, reth),
        "Reth compilation failed with exit code: None"
    );
    let path = "/a \"b\"/geth".to_string();
    assert_eq!(
        message(ClientError::BinaryNotFound { path: path.clone() }, geth),
        "Compiled geth binary not found at \"/a \\\"b\\\"/geth\""
    );
    assert_eq!(
        message(ClientError::BinaryNotFound { path }, reth),
        "Compiled binary not found at \"/a \\\"b\\\"/geth\""
    );
    assert_eq!(message(ClientError::BinDirNotCreated, geth), "Failed to create bin directory");
    assert_eq!(message(ClientError::BinaryNotCopied, reth), "Failed to copy binary to cache");
    assert!(ClientError::PermissionsNotSet.message(geth).is_none());
}

#[test]
fn start_errors_are_described() {
    let (geth, reth) = (ClientKind::Geth, ClientKind::Reth);
    assert_eq!(
        message(ClientError::SecretDirNotCreated, geth),
        "Failed to create JWT secret directory"
    );
    assert_eq!(message(ClientError::SecretNotWritten, geth), "Failed to write JWT secret file");
    assert_eq!(message(ClientError::NodeNotStarted, geth), "Failed to start geth node");
    assert_eq!(message(ClientError::NodeNotStarted, reth), "Failed to start reth node");
    assert_eq!(message(ClientError::NodeNotRunning, geth), "Geth node is not running");
    assert_eq!(message(ClientError::NodeNotRunning, reth), "Reth node is not running");
    let error =
        ClientError::InvalidRpcUrl { url: "x:".to_string(), reason: "empty host".to_string() };
    assert_eq!(message(error, reth), "Invalid RPC URL 'x:': empty host");
    assert_eq!(
        message(ClientError::ReadyTimeout, geth),
        "Timed out waiting for geth node to be ready and synced"
    );
    assert_eq!(
        message(ClientError::ReadyTimeout, reth),
        "Timed out waiting for reth node to be ready and synced"
    );
}

#[test]
fn stop_errors_are_described() {
    let (geth, reth) = (ClientKind::Geth, ClientKind::Reth);
    assert_eq!(
        message(ClientError::StatusUnknown { reason: "gone".to_string() }, reth),
        "Failed to check reth process status: gone"
    );
    assert_eq!(
        message(ClientError::SignalNotSent { pid: 12, reason: "EPERM".to_string() }, geth),
        "Failed to send SIGINT to geth process group 12: EPERM"
    );
    assert_eq!(message(ClientError::TaskkillNotRun, geth), "Failed to execute taskkill command");
    assert_eq!(
        message(ClientError::NotKilled { pid: 12, stderr: "denied".to_string() }, reth),
        "Failed to kill reth process 12: denied"
    );
}

#[test]
fn unwind_errors_are_described() {
    let (geth, reth) = (ClientKind::Geth, ClientKind::Reth);
    assert_eq!(
        message(ClientError::SetHeadFailed, geth),
        "Failed to call debug_setHead on geth node"
    );
    assert_eq!(
        message(ClientError::UnwindNotStarted, reth),
        "Failed to start reth unwind command"
    );
    assert_eq!(
        message(ClientError::UnwindNotAwaited, reth),
        "Failed to wait for reth unwind command"
    );
    assert_eq!(
        message(ClientError::UnwindFailed { code: Some(1) }, reth),
        "Reth unwind command failed with exit code: Some(1)"
    );
}

#[test]
fn errors_without_words_pass_on_their_cause() {
    assert!(ClientError::PermissionsNotSet.keeps_cause());
    assert!(ClientError::MakeNotRun.keeps_cause());
    assert!(ClientError::ReadyTimeout.keeps_cause());
    assert!(!ClientError::CompilationFailed { code: None }.keeps_cause());
    assert!(!ClientError::StatusUnknown { reason: String::new() }.keeps_cause());
    assert!(!ClientError::NodeNotRunning.keeps_cause());
}
