//! What all clients have in common.

use crate::chain::Chain;
use crate::compile::{cached_path, CompilePlan};
use crate::error::{ClientError, ClientKind};
use crate::launch::{LaunchPlan, LaunchView};
use crate::path::Platform;
use crate::ready::ReadyPlan;
use crate::stop::StopPlan;
use crate::text::{has_short_form, push_word, short_form, words};
use crate::unwind::{UnwindPlan, UnwindView};
use vstd::prelude::*;

verus! {

/// What the command line says of the client to run.
#[derive(Debug)]
pub struct Args {
    /// The directory for results and cached binaries.
    pub output_dir: String,
    /// The directory for the node's data.
    pub datadir: String,
    pub chain: Chain,
    /// Whether nodes run by way of `sudo`.
    pub sudo: bool,
    /// Where a reth node offers its metrics.
    pub metrics_port: u16,
    /// Arguments that every node gets.
    pub reth_args: Vec<String>,
}

/// What a client knows.
pub struct Settings {
    /// The system that the client is built and run on.
    pub platform: Platform,
    /// The repository with the client's source.
    pub repo_root: Seq<char>,
    /// The directory for results and cached binaries.
    pub output_dir: Seq<char>,
    /// The directory for the node's data.
    pub datadir: Option<Seq<char>>,
    pub chain: Chain,
    pub use_sudo: bool,
    /// The binary of the node that was started last.
    pub binary_path: Option<Seq<char>>,
    /// Arguments that every node gets.
    pub common_args: Seq<Seq<char>>,
}

impl Args {
    /// What a new client knows.
    pub open spec fn settings(self, repo_root: Seq<char>, platform: Platform) -> Settings {
        Settings {
            platform,
            repo_root,
            output_dir: self.output_dir@,
            datadir: Some(self.datadir@),
            chain: self.chain,
            use_sudo: self.sudo,
            binary_path: None,
            common_args: words(self.reth_args@),
        }
    }
}

/// The arguments that name the directory for the node's data.
pub open spec fn datadir_args(datadir: Option<Seq<char>>) -> Seq<Seq<char>> {
    match datadir {
        Some(datadir) => seq!["--datadir"@, datadir],
        None => seq![],
    }
}

/// Puts the arguments that name the directory for the node's data behind a list.
pub fn push_datadir_args(list: &mut Vec<String>, datadir: &Option<String>)
    ensures
        words(final(list)@) == words(old(list)@) + datadir_args(
            match *datadir {
                Some(datadir) => Some(datadir@),
                None => None,
            },
        ),
{
    let ghost before = words(list@);
    match datadir {
        Some(datadir) => {
            push_word(list, "--datadir");
            push_word(list, datadir.as_str());
            assert(words(list@) =~= before + seq!["--datadir"@, datadir@]);
        },
        None => {
            assert(words(list@) =~= before + seq![]);
        },
    }
}

/// The operations on an Ethereum client. Each says what is to be done; the caller does it.
pub trait EthereumClient {
    /// Which client this is.
    spec fn kind(&self) -> ClientKind;

    /// What the client knows.
    spec fn settings(&self) -> Settings;

    /// How a node is started from a binary, with arguments of its own.
    spec fn launch(&self, binary: Seq<char>, extra: Seq<Seq<char>>) -> LaunchView;

    /// How a node is taken back to a block.
    spec fn unwind(&self, block: nat) -> UnwindView;

    /// Plans to build the client at a commit, where the repository is at `current_commit`.
    fn compile(&self, git_ref: &str, commit: &str, current_commit: &str) -> (plan: Result<
        CompilePlan,
        ClientError,
    >)
        requires
            has_short_form(commit@),
            commit@ != current_commit@ ==> has_short_form(current_commit@),
        ensures
            plan is Ok == (commit@ == current_commit@),
            plan matches Ok(plan) ==> plan.builds(
                self.kind(),
                self.settings().platform,
                self.settings().repo_root,
                self.settings().output_dir,
                commit@,
            ),
            plan matches Err(error) ==> (error matches ClientError::CommitMismatch {
                expected,
                current,
            } && expected@ == short_form(commit@) && current@ == short_form(current_commit@)),
    ;

    /// Plans to start a node from a binary, with arguments of its own, and keeps the binary in
    /// mind.
    fn start_node(
        &mut self,
        binary_path: &str,
        git_ref: &str,
        ref_type: &str,
        additional_args: &[String],
    ) -> (plan: LaunchPlan)
        ensures
            plan@ == old(self).launch(binary_path@, words(additional_args@)),
            final(self).kind() == old(self).kind(),
            final(self).settings() == (Settings {
                binary_path: Some(binary_path@),
                ..old(self).settings()
            }),
    ;

    /// Where the node is asked, and how often and how long, until it is ready.
    fn wait_for_ready(&self) -> (plan: ReadyPlan)
        ensures
            plan == ReadyPlan::standard(),
    ;

    /// Plans to stop the node that runs as a process, by a signal that reaches it however it was
    /// started.
    fn stop_node(&self, pid: u32) -> (plan: StopPlan)
        ensures
            plan == StopPlan::of(pid, self.settings().platform, plan.target is Group),
            forall|binary: Seq<char>, extra: Seq<Seq<char>>|
                plan.target is Group == (#[trigger] self.launch(binary, extra)).own_group,
    ;

    /// Plans to take the node back to a block.
    fn unwind_to_block(&self, block_number: u64) -> (plan: UnwindPlan)
        ensures
            plan@ == self.unwind(block_number as nat),
    ;

    /// Where the binary that was built at a commit is kept.
    fn get_cached_binary_path(&self, commit: &str) -> (path: String)
        requires
            has_short_form(commit@),
        ensures
            path@ == cached_path(
                self.kind(),
                self.settings().platform,
                self.settings().output_dir,
                commit@,
            ),
    ;

    /// The client's name.
    fn client_name(&self) -> (name: &'static str)
        ensures
            name@ == self.kind().name(),
    ;

    /// Whether the node has to run while it is taken back.
    fn requires_node_for_unwind(&self) -> (required: bool)
        ensures
            forall|block: nat| required == (#[trigger] self.unwind(block) is Call),
    ;
}

/// The directory for the node's data is named behind what a list holds, and a list stays as it is
/// where there is none.
pub proof fn law_datadir_is_named(list: &mut Vec<String>, datadir: Option<String>)
    requires
        call_ensures(push_datadir_args, (list, &datadir), ()),
    ensures
        ({
            let n = old(list)@.len() as int;
            &&& final(list)@.len() == if datadir is Some {
                n + 2
            } else {
                n
            }
            &&& datadir is Some ==> final(list)@[n]@ == "--datadir"@
            &&& datadir matches Some(dir) ==> final(list)@[n + 1]@ == dir@
            &&& forall|i: int| 0 <= i < n ==> (#[trigger] final(list)@[i])@ == old(list)@[i]@
        }),
{
    let (before, after) = (old(list)@, final(list)@);
    let n = before.len() as int;
    assert(words(before).len() == n && words(after).len() == after.len());
    assert forall|i: int| 0 <= i < n implies (#[trigger] after[i])@ == before[i]@ by {
        assert(words(after)[i] == words(before)[i]);
    }
    if datadir is Some {
        assert(words(after)[n] == "--datadir"@);
        assert(words(after)[n + 1] == datadir->0@);
    }
}

} // verus!
