//! The clients that can be run, and how their operations fail.

use crate::outside::{quote_path, quoted_path};
use crate::text::{
    decimal, law_decimal_is_faithful, reads_as, signed_decimal, to_decimal, to_signed_decimal,
};
use vstd::prelude::*;

verus! {

/// An Ethereum execution client.
#[derive(Clone, Copy, Debug, PartialEq, Eq, Structural)]
pub enum ClientKind {
    Geth,
    Reth,
}

impl ClientKind {
    /// The client's name, as in file names.
    pub open spec fn name(self) -> Seq<char> {
        match self {
            ClientKind::Geth => "geth"@,
            ClientKind::Reth => "reth"@,
        }
    }

    /// The client's name, as at the start of a sentence.
    pub open spec fn title(self) -> Seq<char> {
        match self {
            ClientKind::Geth => "Geth"@,
            ClientKind::Reth => "Reth"@,
        }
    }

    /// What `make` builds the client by.
    pub open spec fn target(self) -> Seq<char> {
        match self {
            ClientKind::Geth => "geth"@,
            ClientKind::Reth => "release"@,
        }
    }

    /// Where `make` puts the binary, below the repository.
    pub open spec fn built_binary(self) -> Seq<char> {
        match self {
            ClientKind::Geth => "build/bin/geth"@,
            ClientKind::Reth => "target/release/reth"@,
        }
    }

    /// The client's name, as in file names.
    pub fn to_name(&self) -> (name: &'static str)
        ensures
            name@ == self.name(),
    {
        match self {
            ClientKind::Geth => "geth",
            ClientKind::Reth => "reth",
        }
    }

    /// The client's name, as at the start of a sentence.
    pub fn to_title(&self) -> (title: &'static str)
        ensures
            title@ == self.title(),
    {
        match self {
            ClientKind::Geth => "Geth",
            ClientKind::Reth => "Reth",
        }
    }

    /// What `make` builds the client by.
    pub fn to_target(&self) -> (target: &'static str)
        ensures
            target@ == self.target(),
    {
        match self {
            ClientKind::Geth => "geth",
            ClientKind::Reth => "release",
        }
    }

    /// Where `make` puts the binary, below the repository.
    pub fn to_built_binary(&self) -> (path: &'static str)
        ensures
            path@ == self.built_binary(),
    {
        match self {
            ClientKind::Geth => "build/bin/geth",
            ClientKind::Reth => "target/release/reth",
        }
    }
}

/// Why an operation on a client failed.
#[derive(Debug)]
pub enum ClientError {
    /// The repository is at another commit than the one to build. Both are in short form.
    CommitMismatch { expected: String, current: String },
    /// `make` could not be run.
    MakeNotRun,
    /// `make` ran and failed.
    CompilationFailed { code: Option<i32> },
    /// `make` succeeded, but its binary is not there.
    BinaryNotFound { path: String },
    /// The directory for cached binaries could not be made.
    BinDirNotCreated,
    /// The binary could not be copied into the cache.
    BinaryNotCopied,
    /// The cached binary could not be made executable.
    PermissionsNotSet,
    /// The directory for the JWT secret could not be made.
    SecretDirNotCreated,
    /// The JWT secret could not be written.
    SecretNotWritten,
    /// The node process could not be started.
    NodeNotStarted,
    /// The node process was started but is gone.
    NodeNotRunning,
    /// The address of the node's RPC server cannot be parsed.
    InvalidRpcUrl { url: String, reason: String },
    /// The RPC server did not give the code of a contract.
    CodeNotFetched,
    /// The node was not ready and synced in time.
    ReadyTimeout,
    /// Whether the node process still runs cannot be told.
    StatusUnknown { reason: String },
    /// The interrupt signal did not reach the node.
    SignalNotSent { pid: u32, reason: String },
    /// `taskkill` could not be run.
    TaskkillNotRun,
    /// `taskkill` ran and failed.
    NotKilled { pid: u32, stderr: String },
    /// The node did not accept `debug_setHead`.
    SetHeadFailed,
    /// The unwind command could not be started.
    UnwindNotStarted,
    /// The end of the unwind command could not be awaited.
    UnwindNotAwaited,
    /// The unwind command ran and failed.
    UnwindFailed { code: Option<i32> },
}

/// An exit code as messages show it.
pub open spec fn code_text(code: Option<i32>) -> Seq<char> {
    match code {
        Some(value) => "Some("@ + signed_decimal(value as int) + ")"@,
        None => "None"@,
    }
}

/// An exit code as messages show it.
pub fn to_code_text(code: Option<i32>) -> (text: String)
    ensures
        text@ == code_text(code),
{
    match code {
        Some(value) => "Some(".to_owned().concat(to_signed_decimal(value).as_str()).concat(")"),
        None => "None".to_owned(),
    }
}

impl ClientError {
    /// What is reported of the error, for a given client. `None` where the error that caused it
    /// is passed on as it came.
    pub open spec fn text(self, kind: ClientKind) -> Option<Seq<char>> {
        match self {
            ClientError::CommitMismatch { expected, current } => Some(
                "Git commit mismatch! Expected: "@ + expected@ + ", but currently at: "@ + current@,
            ),
            ClientError::MakeNotRun => Some(
                "Failed to execute make "@ + kind.target() + " command"@,
            ),
            ClientError::CompilationFailed { code } => Some(
                kind.title() + " compilation failed with exit code: "@ + code_text(code),
            ),
            ClientError::BinaryNotFound { path } => Some(
                match kind {
                    ClientKind::Geth => "Compiled geth binary not found at "@ + quoted_path(path@),
                    ClientKind::Reth => "Compiled binary not found at "@ + quoted_path(path@),
                },
            ),
            ClientError::BinDirNotCreated => Some("Failed to create bin directory"@),
            ClientError::BinaryNotCopied => Some("Failed to copy binary to cache"@),
            ClientError::PermissionsNotSet => None,
            ClientError::SecretDirNotCreated => Some("Failed to create JWT secret directory"@),
            ClientError::SecretNotWritten => Some("Failed to write JWT secret file"@),
            ClientError::NodeNotStarted => Some("Failed to start "@ + kind.name() + " node"@),
            ClientError::NodeNotRunning => Some(kind.title() + " node is not running"@),
            ClientError::InvalidRpcUrl { url, reason } => Some(
                "Invalid RPC URL '"@ + url@ + "': "@ + reason@,
            ),
            ClientError::CodeNotFetched => None,
            ClientError::ReadyTimeout => Some(
                "Timed out waiting for "@ + kind.name() + " node to be ready and synced"@,
            ),
            ClientError::StatusUnknown { reason } => Some(
                "Failed to check "@ + kind.name() + " process status: "@ + reason@,
            ),
            ClientError::SignalNotSent { pid, reason } => Some(
                "Failed to send SIGINT to "@ + kind.name() + " process group "@ + decimal(
                    pid as nat,
                ) + ": "@ + reason@,
            ),
            ClientError::TaskkillNotRun => Some("Failed to execute taskkill command"@),
            ClientError::NotKilled { pid, stderr } => Some(
                "Failed to kill "@ + kind.name() + " process "@ + decimal(pid as nat) + ": "@
                    + stderr@,
            ),
            ClientError::SetHeadFailed => Some(
                "Failed to call debug_setHead on "@ + kind.name() + " node"@,
            ),
            ClientError::UnwindNotStarted => Some(
                "Failed to start "@ + kind.name() + " unwind command"@,
            ),
            ClientError::UnwindNotAwaited => Some(
                "Failed to wait for "@ + kind.name() + " unwind command"@,
            ),
            ClientError::UnwindFailed { code } => Some(
                kind.title() + " unwind command failed with exit code: "@ + code_text(code),
            ),
        }
    }

    /// Whether the error that caused this one is reported below it.
    pub open spec fn has_cause(self) -> bool {
        ||| self is MakeNotRun
        ||| self is BinDirNotCreated
        ||| self is BinaryNotCopied
        ||| self is PermissionsNotSet
        ||| self is SecretDirNotCreated
        ||| self is SecretNotWritten
        ||| self is NodeNotStarted
        ||| self is CodeNotFetched
        ||| self is ReadyTimeout
        ||| self is TaskkillNotRun
        ||| self is SetHeadFailed
        ||| self is UnwindNotStarted
        ||| self is UnwindNotAwaited
    }

    /// What is reported of the error, for a given client.
    pub fn message(&self, kind: ClientKind) -> (message: Option<String>)
        ensures
            message is Some == self.text(kind) is Some,
            message matches Some(text) ==> text@ == self.text(kind)->0,
    {
        let name = kind.to_name();
        let title = kind.to_title();
        match self {
            ClientError::CommitMismatch { expected, current } => Some(
                "Git commit mismatch! Expected: ".to_owned().concat(expected.as_str()).concat(
                    ", but currently at: ",
                ).concat(current.as_str()),
            ),
            ClientError::MakeNotRun => Some(
                "Failed to execute make ".to_owned().concat(kind.to_target()).concat(" command"),
            ),
            ClientError::CompilationFailed { code } => Some(
                title.to_owned().concat(" compilation failed with exit code: ").concat(
                    to_code_text(*code).as_str(),
                ),
            ),
            ClientError::BinaryNotFound { path } => {
                let quoted = quote_path(path.as_str());
                match kind {
                    ClientKind::Geth => Some(
                        "Compiled geth binary not found at ".to_owned().concat(quoted.as_str()),
                    ),
                    ClientKind::Reth => Some(
                        "Compiled binary not found at ".to_owned().concat(quoted.as_str()),
                    ),
                }
            },
            ClientError::BinDirNotCreated => Some("Failed to create bin directory".to_owned()),
            ClientError::BinaryNotCopied => Some("Failed to copy binary to cache".to_owned()),
            ClientError::PermissionsNotSet => None,
            ClientError::SecretDirNotCreated => Some(
                "Failed to create JWT secret directory".to_owned(),
            ),
            ClientError::SecretNotWritten => Some("Failed to write JWT secret file".to_owned()),
            ClientError::NodeNotStarted => Some(
                "Failed to start ".to_owned().concat(name).concat(" node"),
            ),
            ClientError::NodeNotRunning => Some(title.to_owned().concat(" node is not running")),
            ClientError::InvalidRpcUrl { url, reason } => Some(
                "Invalid RPC URL '".to_owned().concat(url.as_str()).concat("': ").concat(
                    reason.as_str(),
                ),
            ),
            ClientError::CodeNotFetched => None,
            ClientError::ReadyTimeout => Some(
                "Timed out waiting for ".to_owned().concat(name).concat(
                    " node to be ready and synced",
                ),
            ),
            ClientError::StatusUnknown { reason } => Some(
                "Failed to check ".to_owned().concat(name).concat(" process status: ").concat(
                    reason.as_str(),
                ),
            ),
            ClientError::SignalNotSent { pid, reason } => Some(
                "Failed to send SIGINT to ".to_owned().concat(name).concat(
                    " process group ",
                ).concat(to_decimal(*pid as u64).as_str()).concat(": ").concat(reason.as_str()),
            ),
            ClientError::TaskkillNotRun => Some("Failed to execute taskkill command".to_owned()),
            ClientError::NotKilled { pid, stderr } => Some(
                "Failed to kill ".to_owned().concat(name).concat(" process ").concat(
                    to_decimal(*pid as u64).as_str(),
                ).concat(": ").concat(stderr.as_str()),
            ),
            ClientError::SetHeadFailed => Some(
                "Failed to call debug_setHead on ".to_owned().concat(name).concat(" node"),
            ),
            ClientError::UnwindNotStarted => Some(
                "Failed to start ".to_owned().concat(name).concat(" unwind command"),
            ),
            ClientError::UnwindNotAwaited => Some(
                "Failed to wait for ".to_owned().concat(name).concat(" unwind command"),
            ),
            ClientError::UnwindFailed { code } => Some(
                title.to_owned().concat(" unwind command failed with exit code: ").concat(
                    to_code_text(*code).as_str(),
                ),
            ),
        }
    }

    /// Whether the error that caused this one is reported below it.
    pub fn keeps_cause(&self) -> (keeps: bool)
        ensures
            keeps == self.has_cause(),
    {
        match self {
            ClientError::MakeNotRun
            | ClientError::BinDirNotCreated
            | ClientError::BinaryNotCopied
            | ClientError::PermissionsNotSet
            | ClientError::SecretDirNotCreated
            | ClientError::SecretNotWritten
            | ClientError::NodeNotStarted
            | ClientError::CodeNotFetched
            | ClientError::ReadyTimeout
            | ClientError::TaskkillNotRun
            | ClientError::SetHeadFailed
            | ClientError::UnwindNotStarted
            | ClientError::UnwindNotAwaited => true,
            _ => false,
        }
    }
}

/// No failure is silent: each has words of its own or passes on those of its cause.
pub proof fn law_failure_is_reported(error: ClientError, kind: ClientKind)
    ensures
        error.text(kind) is Some || error.has_cause(),
{
}

/// What each client is called, what `make` builds it by and where the binary is then.
pub proof fn law_clients_go_by_their_names(
    kind: ClientKind,
    name: &'static str,
    title: &'static str,
    target: &'static str,
    binary: &'static str,
)
    requires
        call_ensures(ClientKind::to_name, (&kind,), name),
        call_ensures(ClientKind::to_title, (&kind,), title),
        call_ensures(ClientKind::to_target, (&kind,), target),
        call_ensures(ClientKind::to_built_binary, (&kind,), binary),
    ensures
        kind == ClientKind::Geth ==> name@ == "geth"@ && title@ == "Geth"@ && target@ == "geth"@
            && binary@ == "build/bin/geth"@,
        kind == ClientKind::Reth ==> name@ == "reth"@ && title@ == "Reth"@ && target@ == "release"@
            && binary@ == "target/release/reth"@,
{
}

/// An exit code is shown as `None`, or as the number in `Some(` and `)`.
pub proof fn law_exit_code_reads_back(code: Option<i32>, text: String)
    requires
        call_ensures(to_code_text, (code,), text),
    ensures
        text@ == code_text(code),
        code is None ==> text@ == "None"@,
        code matches Some(value) ==> {
            let digits = text@.subrange(5, text@.len() - 1);
            &&& text@.len() > 6
            &&& text@.take(5) == "Some("@
            &&& text@.last() == ')'
            &&& value >= 0 ==> reads_as(digits, 10, value as nat)
            &&& value < 0 ==> digits[0] == '-' && reads_as(digits.skip(1), 10, (-value) as nat)
        },
{
    match code {
        None => {},
        Some(value) => {
            reveal_strlit("Some(");
            reveal_strlit(")");
            reveal_strlit("-");
            let digits = text@.subrange(5, text@.len() - 1);
            let n: nat = if value < 0 {
                (-value) as nat
            } else {
                value as nat
            };
            law_decimal_is_faithful(n, n);
            assert(text@.take(5) =~= "Some("@);
            assert(digits =~= signed_decimal(value as int));
            if value < 0 {
                assert(digits.skip(1) =~= decimal(n));
            }
        },
    }
}

/// The words of a failed build tell the client, the commits, the exit code and the path.
pub proof fn law_build_failure_words(error: ClientError, kind: ClientKind, message: Option<String>)
    requires
        call_ensures(ClientError::message, (&error, kind), message),
    ensures
        error matches ClientError::CommitMismatch { expected, current } ==> (message matches Some(
            words,
        ) && words@ == "Git commit mismatch! Expected: "@ + expected@ + ", but currently at: "@
            + current@),
        error is MakeNotRun ==> (message matches Some(words) && words@
            == "Failed to execute make "@ + match kind {
            ClientKind::Geth => "geth"@,
            ClientKind::Reth => "release"@,
        } + " command"@),
        error matches ClientError::CompilationFailed { code } ==> (message matches Some(words)
            && words@ == match kind {
            ClientKind::Geth => "Geth"@,
            ClientKind::Reth => "Reth"@,
        } + " compilation failed with exit code: "@ + code_text(code)),
        error matches ClientError::BinaryNotFound { path } ==> (message matches Some(words)
            && words@ == match kind {
            ClientKind::Geth => "Compiled geth binary not found at "@,
            ClientKind::Reth => "Compiled binary not found at "@,
        } + quoted_path(path@)),
        error is BinDirNotCreated ==> (message matches Some(words) && words@
            == "Failed to create bin directory"@),
        error is BinaryNotCopied ==> (message matches Some(words) && words@
            == "Failed to copy binary to cache"@),
        error is PermissionsNotSet ==> message is None,
{
}

/// The words of a failed start or wait tell the client, and the address with what is wrong about
/// it.
pub proof fn law_start_failure_words(error: ClientError, kind: ClientKind, message: Option<String>)
    requires
        call_ensures(ClientError::message, (&error, kind), message),
    ensures
        ({
            let name = match kind {
                ClientKind::Geth => "geth"@,
                ClientKind::Reth => "reth"@,
            };
            let title = match kind {
                ClientKind::Geth => "Geth"@,
                ClientKind::Reth => "Reth"@,
            };
            &&& error is SecretDirNotCreated ==> (message matches Some(words) && words@
                == "Failed to create JWT secret directory"@)
            &&& error is SecretNotWritten ==> (message matches Some(words) && words@
                == "Failed to write JWT secret file"@)
            &&& error is NodeNotStarted ==> (message matches Some(words) && words@
                == "Failed to start "@ + name + " node"@)
            &&& error is NodeNotRunning ==> (message matches Some(words) && words@ == title
                + " node is not running"@)
            &&& error matches ClientError::InvalidRpcUrl { url, reason } ==> (message matches Some(
                words,
            ) && words@ == "Invalid RPC URL '"@ + url@ + "': "@ + reason@)
            &&& error is CodeNotFetched ==> message is None
            &&& error is ReadyTimeout ==> (message matches Some(words) && words@
                == "Timed out waiting for "@ + name + " node to be ready and synced"@)
        }),
{
}

/// The words of a failed stop or unwind tell the client, the process and the reason, or the exit
/// code.
pub proof fn law_stop_and_unwind_failure_words(
    error: ClientError,
    kind: ClientKind,
    message: Option<String>,
)
    requires
        call_ensures(ClientError::message, (&error, kind), message),
    ensures
        ({
            let name = match kind {
                ClientKind::Geth => "geth"@,
                ClientKind::Reth => "reth"@,
            };
            let title = match kind {
                ClientKind::Geth => "Geth"@,
                ClientKind::Reth => "Reth"@,
            };
            &&& error matches ClientError::StatusUnknown { reason } ==> (message matches Some(words)
                && words@ == "Failed to check "@ + name + " process status: "@ + reason@)
            &&& error matches ClientError::SignalNotSent { pid, reason } ==> (message matches Some(
                words,
            ) && words@ == "Failed to send SIGINT to "@ + name + " process group "@ + decimal(
                pid as nat,
            ) + ": "@ + reason@)
            &&& error is TaskkillNotRun ==> (message matches Some(words) && words@
                == "Failed to execute taskkill command"@)
            &&& error matches ClientError::NotKilled { pid, stderr } ==> (message matches Some(
                words,
            ) && words@ == "Failed to kill "@ + name + " process "@ + decimal(pid as nat) + ": "@
                + stderr@)
            &&& error is SetHeadFailed ==> (message matches Some(words) && words@
                == "Failed to call debug_setHead on "@ + name + " node"@)
            &&& error is UnwindNotStarted ==> (message matches Some(words) && words@
                == "Failed to start "@ + name + " unwind command"@)
            &&& error is UnwindNotAwaited ==> (message matches Some(words) && words@
                == "Failed to wait for "@ + name + " unwind command"@)
            &&& error matches ClientError::UnwindFailed { code } ==> (message matches Some(words)
                && words@ == title + " unwind command failed with exit code: "@ + code_text(code))
        }),
{
}

/// The cause is left out exactly where the words hold all there is: nothing else failed beneath,
/// or what failed is in the words already.
pub proof fn law_cause_is_kept_unless_in_words(error: ClientError, keeps: bool)
    requires
        call_ensures(ClientError::keeps_cause, (&error,), keeps),
    ensures
        keeps == error.has_cause(),
        !keeps <==> {
            ||| error is CommitMismatch
            ||| error is CompilationFailed
            ||| error is BinaryNotFound
            ||| error is NodeNotRunning
            ||| error is InvalidRpcUrl
            ||| error is StatusUnknown
            ||| error is SignalNotSent
            ||| error is NotKilled
            ||| error is UnwindFailed
        },
{
}

} // verus!
