use bench_clients::chain::Chain;
use bench_clients::client::Args;
use bench_clients::error::ClientError;
use bench_clients::geth::GethClient;
use bench_clients::path::Platform;
use bench_clients::secret::{
    encode_secret, generate_secret, SecretPlan, SecretReply, SecretStep,
};

fn plan_on(platform: Platform) -> SecretPlan {
    let args = Args {
        output_dir: "/out".to_string(),
        datadir: "/data".to_string(),
        chain: Chain::Named(1),
        sudo: false,
        metrics_port: 0,
        reth_args: Vec::new(),
    };
    GethClient::new(&args, "/repo".to_string(), platform).ensure_jwt_secret()
}

fn plan() -> SecretPlan {
    plan_on(Platform::Unix)
}

fn is_lower_hex(text: &str) -> bool {
    text.len() == 64 && text.chars().all(|c| c.is_ascii_digit() || ('a'..='f').contains(&c))
}

#[test]
fn secrets_are_written_in_lower_hex() {
    let mut secret = [0u8; 32];
    secret[0] = 0xab;
    secret[1] = 0x01;
    secret[31] = 0xff;
    let text = encode_secret(&secret);
    assert_eq!(text, format!("ab01{}ff", "00".repeat(29)));
    assert!(is_lower_hex(&text));
    secret[31] = 0xfe;
    assert_ne!(encode_secret(&secret), text);
}

#[test]
fn new_secrets_are_random() {
    let first = generate_secret();
    let second = generate_secret();
    assert!(is_lower_hex(&first));
    assert!(is_lower_hex(&second));
    assert_ne!(first, second);
}

#[test]
fn the_secret_stands_in_the_data_directory() {
    let plan = plan_on(Platform::Other);
    assert_eq!(plan.path, "/data\\geth\\jwtsecret");
    assert_eq!(plan.parent, "/data\\geth");
}

#[test]
fn an_existing_secret_is_kept() {
    let plan = plan();
    assert_eq!(plan.path, "/data/geth/jwtsecret");
    assert_eq!(plan.parent, "/data/geth");
    assert!(matches!(plan.first(), SecretStep::Find));
    let step = plan.next(plan.first(), SecretReply::Found(true));
    assert!(matches!(step, SecretStep::Present));
}

#[test]
fn a_missing_secret_is_written() {
    let plan = plan();
    let step = plan.next(plan.first(), SecretReply::Found(false));
    assert!(matches!(step, SecretStep::CreateDir));
    let step = plan.next(step, SecretReply::Performed(true));
    match &step {
        SecretStep::Write(secret) => assert!(is_lower_hex(secret)),
        _ => panic!("there is no secret yet"),
    }
    assert!(matches!(plan.next(step, SecretReply::Performed(true)), SecretStep::Present));
}

#[test]
fn a_given_secret_is_the_one_written() {
    let step = plan().next_with(
        SecretStep::CreateDir,
        SecretReply::Performed(true),
        "0123".to_string(),
    );
    match step {
        SecretStep::Write(secret) => assert_eq!(secret, "0123"),
        _ => panic!("there is no secret yet"),
    }
}

#[test]
fn secrets_can_fail() {
    let plan = plan();
    let step = plan.next(SecretStep::CreateDir, SecretReply::Performed(false));
    assert!(matches!(step, SecretStep::Failed(ClientError::SecretDirNotCreated)));
    let step = plan.next(SecretStep::Write("00".to_string()), SecretReply::Performed(false));
    assert!(matches!(step, SecretStep::Failed(ClientError::SecretNotWritten)));
}
