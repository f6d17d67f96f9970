//! The reth client.

use crate::chain::Chain;
use crate::client::{datadir_args, push_datadir_args, Args, EthereumClient, Settings};
use crate::command::{direct, lemma_direct_runs, to_direct, words_run, CommandLine};
use crate::compile::{lemma_cached_name, plan_compile, to_cached_path, CompilePlan};
use crate::error::{ClientError, ClientKind};
use crate::launch::{LaunchPlan, LaunchReply, LaunchStep, LaunchView};
use crate::log::RETH_LABEL;
use crate::outside::{chain_name, url_fault};
use crate::path::{joined, law_joined_keeps_base_and_leaf, Platform};
use crate::ready::ReadyPlan;
use crate::rpc::check_rpc_url;
use crate::stop::{
    law_running_node_is_interrupted, law_signal_reaches_started_process, signed_id, ProcessStatus,
    SignalResult, SignalTarget, StopPlan, StopReply, StopStep,
};
use crate::text::{
    copy_words, decimal, has_short_form, law_decimal_is_faithful, law_numeral_reads_back,
    law_short_form_spells_eight_bytes, numeral_value, push_word, push_words, reads_as, same_text,
    short_form, to_decimal, words,
};
use crate::unwind::{UnwindPlan, UnwindView};
use vstd::prelude::*;
use vstd::utf8::encode_utf8;

verus! {

/// How long a reth node has to start up, in seconds.
pub const SETTLE_SECS: u64 = 5;

/// The binary to unwind with where no node was started.
pub const DEFAULT_BINARY: &'static str = "./target/release/reth";

/// The address of a contract that every Optimism chain holds from its beginning.
pub const OPTIMISM_PREDEPLOY: [u8; 20] = [
    0x42, 0, 0, 0, 0, 0, 0, 0, 0, 0, 0, 0, 0, 0, 0, 0, 0, 0, 0, 0x0f,
];

/// What to ask an RPC server in order to tell an Optimism chain.
#[derive(Debug)]
pub struct OptimismProbe {
    /// The address of the RPC server, which is a URL.
    pub url: String,
    /// The contract whose code to ask for.
    pub address: [u8; 20],
}

impl OptimismProbe {
    /// Whether the chain is an Optimism chain, by the code that the server gave. `None` stands for
    /// a request that failed.
    pub fn outcome(&self, code: Option<&[u8]>) -> (is_optimism: Result<bool, ClientError>)
        ensures
            code is None ==> is_optimism == Err::<bool, ClientError>(ClientError::CodeNotFetched),
            code matches Some(bytes) ==> is_optimism == Ok::<bool, ClientError>(bytes@.len() > 0),
    {
        match code {
            None => Err(ClientError::CodeNotFetched),
            Some(bytes) => Ok(bytes.len() > 0),
        }
    }
}

/// The reth client.
pub struct RethClient {
    platform: Platform,
    repo_root: String,
    output_dir: String,
    datadir: Option<String>,
    metrics_port: u16,
    chain: Chain,
    use_sudo: bool,
    binary_path: Option<String>,
    additional_reth_args: Vec<String>,
}

/// The arguments that name the chain. Mainnet goes without.
pub open spec fn chain_args(name: Seq<char>) -> Seq<Seq<char>> {
    if name == "mainnet"@ {
        seq![]
    } else {
        seq!["--chain"@, name]
    }
}

/// The arguments that every reth node gets.
pub open spec fn fixed_args(metrics_port: u16) -> Seq<Seq<char>> {
    seq![
        "--engine.accept-execution-requests-hash"@,
        "--metrics"@,
        "0.0.0.0:"@ + decimal(metrics_port as nat),
        "--http"@,
        "--http.api"@,
        "eth"@,
        "--disable-discovery"@,
        "--trusted-only"@,
    ]
}

/// The words that run a node of the chain with this name.
pub open spec fn node_line(
    settings: Settings,
    metrics_port: u16,
    chain: Seq<char>,
    binary: Seq<char>,
    extra: Seq<Seq<char>>,
) -> Seq<Seq<char>> {
    seq![binary, "node"@] + chain_args(chain) + datadir_args(settings.datadir) + fixed_args(
        metrics_port,
    ) + settings.common_args + extra
}

/// The words that take a node of the chain with this name back to a block.
pub open spec fn unwind_line(settings: Settings, chain: Seq<char>, block: nat) -> Seq<Seq<char>> {
    let binary = match settings.binary_path {
        Some(path) => path,
        None => DEFAULT_BINARY@,
    };
    seq![binary, "stage"@, "unwind"@] + chain_args(chain) + datadir_args(settings.datadir) + seq![
        "to-block"@,
        decimal(block),
    ]
}

fn push_chain_args(list: &mut Vec<String>, chain: &str)
    ensures
        words(final(list)@) == words(old(list)@) + chain_args(chain@),
{
    let ghost before = words(list@);
    if !same_text(chain, "mainnet") {
        push_word(list, "--chain");
        push_word(list, chain);
        assert(words(list@) =~= before + seq!["--chain"@, chain@]);
    } else {
        assert(words(list@) =~= before + seq![]);
    }
}

impl RethClient {
    /// What the client knows.
    pub closed spec fn known(self) -> Settings {
        Settings {
            platform: self.platform,
            repo_root: self.repo_root@,
            output_dir: self.output_dir@,
            datadir: match self.datadir {
                Some(datadir) => Some(datadir@),
                None => None,
            },
            chain: self.chain,
            use_sudo: self.use_sudo,
            binary_path: match self.binary_path {
                Some(path) => Some(path@),
                None => None,
            },
            common_args: words(self.additional_reth_args@),
        }
    }

    /// Where a node offers its metrics.
    pub closed spec fn port(self) -> u16 {
        self.metrics_port
    }

    /// A client as the command line has it, for the repository at `repo_root`.
    pub fn new(args: &Args, repo_root: String, platform: Platform) -> (client: RethClient)
        ensures
            client.known() == args.settings(repo_root@, platform),
            client.port() == args.metrics_port,
    {
        RethClient {
            platform,
            repo_root,
            output_dir: args.output_dir.clone(),
            datadir: Some(args.datadir.clone()),
            metrics_port: args.metrics_port,
            chain: args.chain,
            use_sudo: args.sudo,
            binary_path: None,
            additional_reth_args: copy_words(args.reth_args.as_slice()),
        }
    }

    /// Plans to tell whether the chain behind an RPC server is an Optimism chain, by the code at
    /// `OPTIMISM_PREDEPLOY`. The address of the server has to be a URL.
    pub fn detect_optimism_chain(&self, rpc_url: &str) -> (probe: Result<
        OptimismProbe,
        ClientError,
    >)
        ensures
            probe is Ok == url_fault(rpc_url@) is None,
            probe matches Ok(probe) ==> probe.url@ == rpc_url@ && probe.address@
                == OPTIMISM_PREDEPLOY@,
            probe matches Err(error) ==> (error matches ClientError::InvalidRpcUrl { url, reason }
                && url@ == rpc_url@ && reason@ == url_fault(rpc_url@)->0),
    {
        match check_rpc_url(rpc_url) {
            Ok(()) => Ok(OptimismProbe { url: rpc_url.to_owned(), address: OPTIMISM_PREDEPLOY }),
            Err(error) => Err(error),
        }
    }

    /// The words that run a node.
    pub fn build_reth_args(&self, binary_path_str: &str, additional_args: &[String]) -> (line: Vec<
        String,
    >)
        ensures
            words(line@) == node_line(
                self.known(),
                self.port(),
                self.known().chain.name(),
                binary_path_str@,
                words(additional_args@),
            ),
            self.known().chain.name() == "mainnet"@ <==> self.known().chain == Chain::Named(1),
    {
        let chain = self.chain.to_text();
        self.build_reth_args_for(chain.as_str(), binary_path_str, additional_args)
    }

    /// The words that run a node of the chain with a given name.
    pub fn build_reth_args_for(
        &self,
        chain: &str,
        binary_path_str: &str,
        additional_args: &[String],
    ) -> (line: Vec<String>)
        ensures
            words(line@) == node_line(
                self.known(),
                self.port(),
                chain@,
                binary_path_str@,
                words(additional_args@),
            ),
    {
        let mut line: Vec<String> = Vec::new();
        push_word(&mut line, binary_path_str);
        push_word(&mut line, "node");
        assert(words(line@) =~= seq![binary_path_str@, "node"@]);
        push_chain_args(&mut line, chain);
        push_datadir_args(&mut line, &self.datadir);
        let ghost before = words(line@);
        push_word(&mut line, "--engine.accept-execution-requests-hash");
        push_word(&mut line, "--metrics");
        let metrics = "0.0.0.0:".to_owned().concat(to_decimal(self.metrics_port as u64).as_str());
        push_word(&mut line, metrics.as_str());
        push_word(&mut line, "--http");
        push_word(&mut line, "--http.api");
        push_word(&mut line, "eth");
        push_word(&mut line, "--disable-discovery");
        push_word(&mut line, "--trusted-only");
        assert(words(line@) =~= before + fixed_args(self.metrics_port));
        push_words(&mut line, self.additional_reth_args.as_slice());
        push_words(&mut line, additional_args);
        line
    }

    /// The command that runs a list of words, by way of `sudo` where the client is to use it.
    pub fn create_direct_command(&self, reth_args: &[String]) -> (command: CommandLine)
        requires
            reth_args@.len() > 0,
        ensures
            command@ == direct(self.known().use_sudo, words(reth_args@)),
    {
        to_direct(self.use_sudo, reth_args)
    }

    /// The command that takes a node of the chain with a given name back to a block.
    pub fn unwind_command(&self, chain: &str, block_number: u64) -> (command: CommandLine)
        ensures
            command@ == direct(
                self.known().use_sudo,
                unwind_line(self.known(), chain@, block_number as nat),
            ),
    {
        let mut line: Vec<String> = Vec::new();
        match &self.binary_path {
            Some(path) => push_word(&mut line, path.as_str()),
            None => push_word(&mut line, DEFAULT_BINARY),
        }
        push_word(&mut line, "stage");
        push_word(&mut line, "unwind");
        let ghost binary = match self.known().binary_path {
            Some(path) => path,
            None => DEFAULT_BINARY@,
        };
        assert(words(line@) =~= seq![binary, "stage"@, "unwind"@]);
        push_chain_args(&mut line, chain);
        push_datadir_args(&mut line, &self.datadir);
        let ghost before = words(line@);
        push_word(&mut line, "to-block");
        push_word(&mut line, to_decimal(block_number).as_str());
        assert(words(line@) =~= before + seq!["to-block"@, decimal(block_number as nat)]);
        assert(words(line@).len() == line@.len());
        to_direct(self.use_sudo, line.as_slice())
    }
}

impl EthereumClient for RethClient {
    open spec fn kind(&self) -> ClientKind {
        ClientKind::Reth
    }

    open spec fn settings(&self) -> Settings {
        self.known()
    }

    open spec fn launch(&self, binary: Seq<char>, extra: Seq<Seq<char>>) -> LaunchView {
        LaunchView {
            secret: None,
            command: direct(
                self.known().use_sudo,
                node_line(self.known(), self.port(), self.known().chain.name(), binary, extra),
            ),
            own_group: true,
            kill_on_drop: true,
            log_label: Some(RETH_LABEL@),
            settle_secs: SETTLE_SECS as nat,
        }
    }

    open spec fn unwind(&self, block: nat) -> UnwindView {
        UnwindView::Run(
            direct(
                self.known().use_sudo,
                unwind_line(self.known(), self.known().chain.name(), block),
            ),
        )
    }

    fn compile(&self, git_ref: &str, commit: &str, current_commit: &str) -> (plan: Result<
        CompilePlan,
        ClientError,
    >) {
        plan_compile(
            ClientKind::Reth,
            self.platform,
            self.repo_root.as_str(),
            self.output_dir.as_str(),
            commit,
            current_commit,
        )
    }

    fn start_node(
        &mut self,
        binary_path: &str,
        git_ref: &str,
        ref_type: &str,
        additional_args: &[String],
    ) -> (plan: LaunchPlan)
        ensures
            final(self).port() == old(self).port(),
            old(self).known().chain.name() == "mainnet"@ <==> old(self).known().chain
                == Chain::Named(1),
    {
        self.binary_path = Some(binary_path.to_owned());
        let line = self.build_reth_args(binary_path, additional_args);
        assert(words(line@).len() == line@.len());
        LaunchPlan {
            secret: None,
            command: self.create_direct_command(line.as_slice()),
            own_group: true,
            kill_on_drop: true,
            log_label: Some(RETH_LABEL),
            settle_secs: SETTLE_SECS,
        }
    }

    fn wait_for_ready(&self) -> (plan: ReadyPlan) {
        ReadyPlan::new()
    }

    fn stop_node(&self, pid: u32) -> (plan: StopPlan)
        ensures
            plan == (StopPlan {
                pid,
                platform: self.known().platform,
                target: SignalTarget::Group(signed_id(pid)),
            }),
    {
        StopPlan::new(pid, self.platform, true)
    }

    fn unwind_to_block(&self, block_number: u64) -> (plan: UnwindPlan)
        ensures
            self.known().chain.name() == "mainnet"@ <==> self.known().chain == Chain::Named(1),
    {
        let chain = self.chain.to_text();
        UnwindPlan::Run(self.unwind_command(chain.as_str(), block_number))
    }

    fn get_cached_binary_path(&self, commit: &str) -> (path: String) {
        to_cached_path(ClientKind::Reth, self.platform, self.output_dir.as_str(), commit)
    }

    fn client_name(&self) -> (name: &'static str) {
        ClientKind::Reth.to_name()
    }

    fn requires_node_for_unwind(&self) -> (required: bool) {
        false
    }
}

/// The words that run a node begin with the binary and `node`. Behind the words that the client
/// chooses come the arguments that every node gets, and last those of this node, which change
/// nothing before them.
pub proof fn law_node_line_order(
    settings: Settings,
    metrics_port: u16,
    chain: Seq<char>,
    binary: Seq<char>,
    extra: Seq<Seq<char>>,
)
    ensures
        node_line(settings, metrics_port, chain, binary, extra)[0] == binary,
        node_line(settings, metrics_port, chain, binary, extra)[1] == "node"@,
        node_line(settings, metrics_port, chain, binary, extra) == node_line(
            Settings { common_args: seq![], ..settings },
            metrics_port,
            chain,
            binary,
            seq![],
        ) + settings.common_args + extra,
{
    let chosen = node_line(
        Settings { common_args: seq![], ..settings },
        metrics_port,
        chain,
        binary,
        seq![],
    );
    assert(node_line(settings, metrics_port, chain, binary, extra) =~= chosen + settings.common_args
        + extra);
}

/// Among the words that run a node are those that turn off the search for peers and allow trusted
/// ones alone.
pub proof fn law_node_is_isolated(
    settings: Settings,
    metrics_port: u16,
    chain: Seq<char>,
    binary: Seq<char>,
    extra: Seq<Seq<char>>,
)
    ensures
        node_line(settings, metrics_port, chain, binary, extra).contains("--disable-discovery"@),
        node_line(settings, metrics_port, chain, binary, extra).contains("--trusted-only"@),
{
    let line = node_line(settings, metrics_port, chain, binary, extra);
    let at = (seq![binary, "node"@] + chain_args(chain) + datadir_args(
        settings.datadir,
    )).len() as int;
    assert(line[at + 6] == fixed_args(metrics_port)[6]);
    assert(line[at + 7] == fixed_args(metrics_port)[7]);
}

/// A node and the command that takes it back name the same chain and the same directory, and
/// mainnet is not named.
pub proof fn law_unwind_matches_node(
    settings: Settings,
    metrics_port: u16,
    chain: Seq<char>,
    binary: Seq<char>,
    extra: Seq<Seq<char>>,
    block: nat,
)
    ensures
        ({
            let place = chain_args(chain) + datadir_args(settings.datadir);
            let n = place.len() as int;
            &&& node_line(settings, metrics_port, chain, binary, extra).subrange(2, 2 + n) == place
            &&& unwind_line(settings, chain, block).subrange(3, 3 + n) == place
            &&& chain_args("mainnet"@).len() == 0
        }),
{
    let place = chain_args(chain) + datadir_args(settings.datadir);
    let n = place.len() as int;
    assert(node_line(settings, metrics_port, chain, binary, extra).subrange(2, 2 + n) =~= place);
    assert(unwind_line(settings, chain, block).subrange(3, 3 + n) =~= place);
}

/// The command that takes a node back runs the binary of the node that was started last, or the
/// default one where none was, and its last word reads as the block number.
pub proof fn law_unwind_names_binary_and_block(settings: Settings, chain: Seq<char>, block: nat)
    ensures
        settings.binary_path matches Some(path) ==> unwind_line(settings, chain, block)[0] == path,
        settings.binary_path is None ==> unwind_line(settings, chain, block)[0] == DEFAULT_BINARY@,
        numeral_value(unwind_line(settings, chain, block).last(), 10) == block,
{
    law_numeral_reads_back(block, 10);
}

/// A node that was started as planned is reached by the signal that stops it: a reth node leads a
/// process group of its own, so the signal goes to the group of the process that was spawned. On
/// Unix a running node gets SIGINT, is awaited, and is stopped then.
pub proof fn law_stop_reaches_started_node(
    client: RethClient,
    binary: Seq<char>,
    extra: Seq<Seq<char>>,
    launch: LaunchPlan,
    replies: Seq<LaunchReply>,
    pid: u32,
)
    requires
        launch@ == client.launch(binary, extra),
        launch.is_run(replies),
        launch.at(replies) == LaunchStep::Running(pid),
    ensures
        replies.contains(LaunchReply::Spawned(Some(pid))),
        ({
            let stop = StopPlan::of(
                pid,
                client.known().platform,
                client.launch(binary, extra).own_group,
            );
            let running = StopReply::Status(ProcessStatus::Running);
            let sent = StopReply::Signalled(SignalResult::Sent);
            &&& stop.target == SignalTarget::Group(signed_id(pid))
            &&& client.known().platform == Platform::Unix ==> {
                &&& stop.at(seq![running]) == StopStep::Interrupt
                &&& stop.at(seq![running, sent]) == StopStep::Await
                &&& stop.at(seq![running, sent, StopReply::Awaited]) == StopStep::Stopped
            }
        }),
{
    let platform = client.known().platform;
    law_signal_reaches_started_process(launch, replies, pid, platform);
    if platform == Platform::Unix {
        law_running_node_is_interrupted(StopPlan::of(pid, platform, launch.own_group));
    }
}

/// How many words name a chain: two, but for mainnet, which is not named.
pub open spec fn chain_words(chain: Seq<char>) -> int {
    if chain == "mainnet"@ {
        0
    } else {
        2
    }
}

/// How many words name the directory for the node's data.
pub open spec fn datadir_words(settings: Settings) -> int {
    if settings.datadir is Some {
        2
    } else {
        0
    }
}

/// Whether the words of a line from a place on name the chain, unless it is mainnet, and then the
/// directory for the node's data, where there is one.
pub open spec fn names_place(
    line: Seq<Seq<char>>,
    at: int,
    settings: Settings,
    chain: Seq<char>,
) -> bool {
    let c = chain_words(chain);
    &&& chain != "mainnet"@ ==> line[at] == "--chain"@ && line[at + 1] == chain
    &&& settings.datadir matches Some(dir) ==> line[at + c] == "--datadir"@ && line[at + c + 1]
        == dir
}

/// Whether words run a reth node as the settings say: the binary and `node` first; then the chain
/// and the directory for the data; then the engine, the metrics on the given port, the HTTP server,
/// no search for peers and trusted ones alone; then the arguments that every node gets, and those
/// of this node.
pub open spec fn runs_node(
    line: Seq<Seq<char>>,
    settings: Settings,
    metrics_port: u16,
    chain: Seq<char>,
    binary: Seq<char>,
    extra: Seq<Seq<char>>,
) -> bool {
    let f = 2 + chain_words(chain) + datadir_words(settings);
    let m = settings.common_args.len();
    &&& line.len() == f + 8 + m + extra.len()
    &&& line[0] == binary && line[1] == "node"@
    &&& names_place(line, 2, settings, chain)
    &&& line[f] == "--engine.accept-execution-requests-hash"@
    &&& line[f + 1] == "--metrics"@
    &&& line[f + 2].len() > 8 && line[f + 2].take(8) == "0.0.0.0:"@
    &&& reads_as(line[f + 2].skip(8), 10, metrics_port as nat)
    &&& line[f + 3] == "--http"@
    &&& line[f + 4] == "--http.api"@ && line[f + 5] == "eth"@
    &&& line[f + 6] == "--disable-discovery"@
    &&& line[f + 7] == "--trusted-only"@
    &&& line.subrange(f + 8, f + 8 + m) == settings.common_args
    &&& line.skip(f + 8 + m) == extra
}

proof fn lemma_node_line_runs_node(
    settings: Settings,
    metrics_port: u16,
    chain: Seq<char>,
    binary: Seq<char>,
    extra: Seq<Seq<char>>,
)
    ensures
        runs_node(
            node_line(settings, metrics_port, chain, binary, extra),
            settings,
            metrics_port,
            chain,
            binary,
            extra,
        ),
{
    let line = node_line(settings, metrics_port, chain, binary, extra);
    let fixed = fixed_args(metrics_port);
    let c = chain_words(chain);
    let f = 2 + c + datadir_words(settings);
    let m = settings.common_args.len() as int;
    assert(chain_args(chain).len() == c);
    assert(datadir_args(settings.datadir).len() == datadir_words(settings));
    let head = seq![binary, "node"@] + chain_args(chain) + datadir_args(settings.datadir);
    assert(head.len() == f);
    assert(line =~= head + fixed + settings.common_args + extra);
    assert(fixed.len() == 8);
    if c == 2 {
        assert(line[2] == chain_args(chain)[0]);
        assert(line[3] == chain_args(chain)[1]);
    }
    if settings.datadir is Some {
        assert(line[2 + c] == datadir_args(settings.datadir)[0]);
        assert(line[3 + c] == datadir_args(settings.datadir)[1]);
    }
    assert forall|k: int| 0 <= k < 8 implies #[trigger] line[f + k] == fixed[k] by {}
    assert(line[f + 0] == fixed[0]);
    reveal_strlit("0.0.0.0:");
    law_decimal_is_faithful(metrics_port as nat, 0);
    assert(line[f + 2].take(8) =~= "0.0.0.0:"@);
    assert(line[f + 2].skip(8) =~= decimal(metrics_port as nat));
    assert(line.subrange(f + 8, f + 8 + m) =~= settings.common_args);
    assert(line.skip(f + 8 + m) =~= extra);
}

/// How a chain is named to reth: by the name that belongs to its id, or by a number that reads as
/// the id. Only Ethereum mainnet goes by `mainnet`.
pub open spec fn is_named(chain: Chain, name: Seq<char>) -> bool {
    &&& chain matches Chain::Named(id) ==> name == chain_name(id)
    &&& chain matches Chain::Id(id) ==> reads_as(name, 10, id as nat)
    &&& name == "mainnet"@ <==> chain == Chain::Named(1)
}

/// A list of words for a node runs that node: of the client's chain, or of the chain with the name
/// that was given.
pub proof fn law_built_words_run_node(
    client: RethClient,
    chain: &str,
    binary: &str,
    extra: &[String],
    own: Vec<String>,
    other: Vec<String>,
)
    requires
        call_ensures(RethClient::build_reth_args, (&client, binary, extra), own),
        call_ensures(RethClient::build_reth_args_for, (&client, chain, binary, extra), other),
    ensures
        is_named(client.known().chain, client.known().chain.name()),
        runs_node(
            words(own@),
            client.known(),
            client.port(),
            client.known().chain.name(),
            binary@,
            words(extra@),
        ),
        runs_node(
            words(other@),
            client.known(),
            client.port(),
            chain@,
            binary@,
            words(extra@),
        ),
{
    let name = client.known().chain.name();
    lemma_node_line_runs_node(client.known(), client.port(), name, binary@, words(extra@));
    lemma_node_line_runs_node(client.known(), client.port(), chain@, binary@, words(extra@));
    lemma_chain_is_named(client.known().chain);
}

proof fn lemma_chain_is_named(chain: Chain)
    ensures
        chain matches Chain::Named(id) ==> chain.name() == chain_name(id),
        chain matches Chain::Id(id) ==> reads_as(chain.name(), 10, id as nat),
{
    match chain {
        Chain::Named(_) => {},
        Chain::Id(id) => law_decimal_is_faithful(id as nat, 0),
    }
}

/// To start a node is to run its words, with `sudo` before them where the client is to use it. The
/// node leads a process group of its own, is killed when its handle is dropped, is logged under its
/// label and gets five seconds. The client keeps the binary in mind and all else as it was.
pub proof fn law_start_runs_node(
    client: &mut RethClient,
    binary_path: &str,
    git_ref: &str,
    ref_type: &str,
    additional_args: &[String],
    plan: LaunchPlan,
)
    requires
        call_ensures(
            RethClient::start_node,
            (client, binary_path, git_ref, ref_type, additional_args),
            plan,
        ),
    ensures
        ({
            let settings = old(client).known();
            &&& settings.use_sudo ==> plan.command.program@ == "sudo"@
            &&& is_named(settings.chain, settings.chain.name())
            &&& runs_node(
                words_run(plan.command, settings.use_sudo),
                settings,
                old(client).port(),
                settings.chain.name(),
                binary_path@,
                words(additional_args@),
            )
        }),
        plan.secret is None,
        plan.own_group,
        plan.kill_on_drop,
        plan.log_label matches Some(label) && label@ == "[RETH]"@,
        plan.settle_secs == 5,
        final(client).known().binary_path == Some(binary_path@),
        final(client).known().platform == old(client).known().platform,
        final(client).known().repo_root == old(client).known().repo_root,
        final(client).known().output_dir == old(client).known().output_dir,
        final(client).known().datadir == old(client).known().datadir,
        final(client).known().chain == old(client).known().chain,
        final(client).known().use_sudo == old(client).known().use_sudo,
        final(client).known().common_args == old(client).known().common_args,
        final(client).port() == old(client).port(),
{
    let settings = old(client).known();
    let extra = words(additional_args@);
    let view = old(client).launch(binary_path@, extra);
    assert(plan@ == view);
    assert(plan@.secret == view.secret && plan@.command == view.command);
    assert(plan@.own_group == view.own_group && plan@.settle_secs == view.settle_secs);
    assert(plan@.log_label == view.log_label && plan@.kill_on_drop == view.kill_on_drop);
    let name = settings.chain.name();
    let line = node_line(settings, old(client).port(), name, binary_path@, extra);
    lemma_node_line_runs_node(settings, old(client).port(), name, binary_path@, extra);
    lemma_chain_is_named(settings.chain);
    assert(plan.command@ == direct(settings.use_sudo, line));
    lemma_direct_runs(plan.command, settings.use_sudo, line);
}

/// Whether words take a reth node back to a block: the binary that was started last, or the one
/// that `make` leaves where none was, then `stage unwind`, the chain and the directory for the data,
/// and last `to-block` and a number that reads as the block.
pub open spec fn runs_unwind(
    line: Seq<Seq<char>>,
    settings: Settings,
    chain: Seq<char>,
    block: nat,
) -> bool {
    let f = 3 + chain_words(chain) + datadir_words(settings);
    &&& line.len() == f + 2
    &&& settings.binary_path matches Some(path) ==> line[0] == path
    &&& settings.binary_path is None ==> line[0] == "./target/release/reth"@
    &&& line[1] == "stage"@ && line[2] == "unwind"@
    &&& names_place(line, 3, settings, chain)
    &&& line[f] == "to-block"@
    &&& reads_as(line[f + 1], 10, block)
}

proof fn lemma_unwind_line_runs_unwind(settings: Settings, chain: Seq<char>, block: nat)
    ensures
        runs_unwind(unwind_line(settings, chain, block), settings, chain, block),
        unwind_line(settings, chain, block).len() > 0,
{
    let line = unwind_line(settings, chain, block);
    let c = chain_words(chain);
    let f = 3 + c + datadir_words(settings);
    assert(chain_args(chain).len() == c);
    assert(datadir_args(settings.datadir).len() == datadir_words(settings));
    if c == 2 {
        assert(line[3] == chain_args(chain)[0]);
        assert(line[4] == chain_args(chain)[1]);
    }
    if settings.datadir is Some {
        assert(line[3 + c] == datadir_args(settings.datadir)[0]);
        assert(line[4 + c] == datadir_args(settings.datadir)[1]);
    }
    law_decimal_is_faithful(block, 0);
    assert(line[f] == "to-block"@);
    assert(line[f + 1] == decimal(block));
}

/// To take a node back is to run the unwind command with the very block that was given, with `sudo`
/// before it where the client is to use it.
pub proof fn law_unwind_runs_to_block(client: RethClient, block_number: u64, plan: UnwindPlan)
    requires
        call_ensures(RethClient::unwind_to_block, (&client, block_number), plan),
    ensures
        is_named(client.known().chain, client.known().chain.name()),
        plan matches UnwindPlan::Run(command) && {
            &&& client.known().use_sudo ==> command.program@ == "sudo"@
            &&& runs_unwind(
                words_run(command, client.known().use_sudo),
                client.known(),
                client.known().chain.name(),
                block_number as nat,
            )
        },
{
    let settings = client.known();
    let name = settings.chain.name();
    lemma_chain_is_named(settings.chain);
    lemma_unwind_line_runs_unwind(settings, name, block_number as nat);
    assert(plan@ == client.unwind(block_number as nat));
    assert(plan is Run);
    let command = plan->Run_0;
    assert(command@ == plan@->Run_0);
    let line = unwind_line(settings, name, block_number as nat);
    assert(command@ == direct(settings.use_sudo, line));
    lemma_direct_runs(command, settings.use_sudo, line);
}

/// The unwind command for a chain with a given name takes the node back to the very block.
pub proof fn law_unwind_command_names_block(
    client: RethClient,
    chain: &str,
    block_number: u64,
    command: CommandLine,
)
    requires
        call_ensures(RethClient::unwind_command, (&client, chain, block_number), command),
    ensures
        client.known().use_sudo ==> command.program@ == "sudo"@,
        runs_unwind(
            words_run(command, client.known().use_sudo),
            client.known(),
            chain@,
            block_number as nat,
        ),
{
    lemma_unwind_line_runs_unwind(client.known(), chain@, block_number as nat);
    lemma_direct_runs(
        command,
        client.known().use_sudo,
        unwind_line(client.known(), chain@, block_number as nat),
    );
}

/// A server is asked for the code of one contract, at `0x42` and `0x0f` with eighteen zero bytes
/// between them, exactly when its address is a URL. The chain is an Optimism chain exactly when
/// there is code; a request that failed is a failure.
pub proof fn law_optimism_is_told_by_code(
    client: RethClient,
    rpc_url: &str,
    probe: Result<OptimismProbe, ClientError>,
    code: Option<&[u8]>,
    outcome: Result<bool, ClientError>,
)
    requires
        call_ensures(RethClient::detect_optimism_chain, (&client, rpc_url), probe),
        probe matches Ok(probe) ==> call_ensures(OptimismProbe::outcome, (&probe, code), outcome),
    ensures
        probe is Ok <==> url_fault(rpc_url@) is None,
        probe matches Err(error) ==> (error matches ClientError::InvalidRpcUrl { url, reason }
            && url@ == rpc_url@ && reason@ == url_fault(rpc_url@)->0),
        probe matches Ok(probe) ==> {
            &&& probe.url@ == rpc_url@
            &&& probe.address@.len() == 20
            &&& probe.address@[0] == 0x42 && probe.address@[19] == 0x0f
            &&& forall|i: int| 0 < i < 19 ==> #[trigger] probe.address@[i] == 0
            &&& outcome is Err <==> code is None
            &&& outcome matches Ok(is_optimism) ==> (code matches Some(bytes) && (is_optimism <==>
                bytes@.len() > 0))
            &&& outcome matches Err(error) ==> error == ClientError::CodeNotFetched
        },
{
}

/// A new client knows what the command line says, word for word, and no binary yet.
pub proof fn law_new_client_knows_command_line(
    args: Args,
    repo_root: String,
    platform: Platform,
    client: RethClient,
)
    requires
        call_ensures(RethClient::new, (&args, repo_root, platform), client),
    ensures
        client.known().platform == platform,
        client.known().repo_root == repo_root@,
        client.known().output_dir == args.output_dir@,
        client.known().datadir == Some(args.datadir@),
        client.known().chain == args.chain,
        client.known().use_sudo == args.sudo,
        client.known().binary_path is None,
        client.known().common_args.len() == args.reth_args@.len(),
        forall|i: int|
            0 <= i < args.reth_args@.len() ==> #[trigger] client.known().common_args[i]
                == args.reth_args@[i]@,
        client.port() == args.metrics_port,
{
    assert forall|i: int| 0 <= i < args.reth_args@.len() implies #[trigger] client.known().common_args[i]
        == args.reth_args@[i]@ by {
        assert(words(args.reth_args@)[i] == args.reth_args@[i]@);
    }
}

/// To build the client at a commit is planned exactly when the repository is at that commit. The
/// directory that is made is the one that the cached binary stands in, and the cached binary is
/// the one that [`RethClient::get_cached_binary_path`] finds again.
pub proof fn law_build_is_found_again(
    client: RethClient,
    git_ref: &str,
    commit: &str,
    current_commit: &str,
    plan: Result<CompilePlan, ClientError>,
    cached: String,
)
    requires
        has_short_form(commit@),
        commit@ != current_commit@ ==> has_short_form(current_commit@),
        call_ensures(RethClient::compile, (&client, git_ref, commit, current_commit), plan),
        call_ensures(RethClient::get_cached_binary_path, (&client, commit), cached),
    ensures
        plan is Ok <==> commit@ == current_commit@,
        cached@ == joined(
            client.known().platform,
            joined(client.known().platform, client.known().output_dir, "bin"@),
            "reth_"@ + short_form(commit@),
        ),
        encode_utf8(short_form(commit@)) == encode_utf8(commit@).subrange(0, 8),
        plan matches Ok(plan) ==> {
            &&& plan.kind == ClientKind::Reth
            &&& plan.platform == client.known().platform
            &&& plan.repo_root@ == client.known().repo_root
            &&& plan.source_path@ == joined(
                client.known().platform,
                client.known().repo_root,
                "target/release/reth"@,
            )
            &&& plan.bin_dir@ == joined(client.known().platform, client.known().output_dir, "bin"@)
            &&& plan.cached_path@ == joined(
                client.known().platform,
                plan.bin_dir@,
                "reth_"@ + short_form(commit@),
            )
            &&& plan.cached_path@ == cached@
            &&& !client.known().platform.is_verbatim(plan.bin_dir@) ==> plan.cached_path@.take(
                plan.bin_dir@.len() as int,
            ) == plan.bin_dir@
        },
        plan matches Err(error) ==> (error matches ClientError::CommitMismatch { expected, current }
            && encode_utf8(expected@) == encode_utf8(commit@).subrange(0, 8) && encode_utf8(
            current@,
        ) == encode_utf8(current_commit@).subrange(0, 8)),
{
    let platform = client.known().platform;
    law_short_form_spells_eight_bytes(commit@);
    lemma_cached_name(ClientKind::Reth, commit@);
    match plan {
        Ok(plan) => {
            if !platform.is_verbatim(plan.bin_dir@) {
                reveal_strlit("reth_");
                let name = "reth_"@ + short_form(commit@);
                assert(name[0] == 'r');
                law_joined_keeps_base_and_leaf(platform, plan.bin_dir@, name);
            }
        },
        Err(_) => law_short_form_spells_eight_bytes(current_commit@),
    }
}

/// To stop a node is to stop the process that was named, on the client's own system, by a signal to
/// the group that it leads.
pub proof fn law_stop_names_process(client: RethClient, pid: u32, plan: StopPlan)
    requires
        call_ensures(RethClient::stop_node, (&client, pid), plan),
    ensures
        plan.pid == pid,
        plan.platform == client.known().platform,
        plan.target matches SignalTarget::Group(id) && (id == pid || id == pid - 0x1_0000_0000),
        pid <= 0x7fff_ffff ==> plan.target == SignalTarget::Group(pid as i32),
{
}

/// A node is waited for on this machine, for two minutes, and asked every two seconds. The client
/// goes by its own name, and does not run while it is taken back.
pub proof fn law_client_has_its_ways(
    client: RethClient,
    plan: ReadyPlan,
    name: &'static str,
    required: bool,
)
    requires
        call_ensures(RethClient::wait_for_ready, (&client,), plan),
        call_ensures(RethClient::client_name, (&client,), name),
        call_ensures(RethClient::requires_node_for_unwind, (&client,), required),
    ensures
        plan.url@ == "http://localhost:8545"@,
        plan.max_wait_secs == 120,
        plan.check_interval_secs == 2,
        name@ == "reth"@,
        !required,
{
    let unwound = client.unwind(0);
    assert(unwound is Run);
}

/// The command that is made of a list of words runs those words, by way of `sudo` where the client
/// is to use it.
pub proof fn law_direct_command_runs_words(client: RethClient, list: &[String], command: CommandLine)
    requires
        list@.len() > 0,
        call_ensures(RethClient::create_direct_command, (&client, list), command),
    ensures
        words_run(command, client.known().use_sudo).len() == list@.len(),
        forall|i: int|
            0 <= i < list@.len() ==> #[trigger] words_run(command, client.known().use_sudo)[i]
                == list@[i]@,
        client.known().use_sudo ==> command.program@ == "sudo"@,
{
    let use_sudo = client.known().use_sudo;
    lemma_direct_runs(command, use_sudo, words(list@));
    assert forall|i: int| 0 <= i < list@.len() implies #[trigger] words_run(command, use_sudo)[i]
        == list@[i]@ by {
        assert(words(list@)[i] == list@[i]@);
    }
}

/// The command that starts a node, spelled out. Without `sudo` the binary is the program, and the
/// rest are its arguments; with `sudo` the binary is the first argument. `node` follows, then the
/// chain, unless it is mainnet, then `--datadir` and the very directory, then the words that every
/// reth node gets, with the port of the metrics, then the arguments that every node gets, and last
/// exactly those that were given for this node.
pub proof fn law_start_spells_out_command(
    client: &mut RethClient,
    binary_path: &str,
    git_ref: &str,
    ref_type: &str,
    additional_args: &[String],
    plan: LaunchPlan,
)
    requires
        call_ensures(
            RethClient::start_node,
            (client, binary_path, git_ref, ref_type, additional_args),
            plan,
        ),
    ensures
        ({
            let settings = old(client).known();
            let chain = settings.chain;
            let args = plan.command.args@;
            let o: int = if settings.use_sudo {
                1
            } else {
                0
            };
            let c: int = if chain == Chain::Named(1) {
                0
            } else {
                2
            };
            let f: int = o + 1 + c + if settings.datadir is Some {
                2int
            } else {
                0
            };
            let m = settings.common_args.len();
            &&& args.len() == f + 8 + m + additional_args@.len()
            &&& settings.use_sudo ==> plan.command.program@ == "sudo"@ && args[0]@ == binary_path@
            &&& !settings.use_sudo ==> plan.command.program@ == binary_path@
            &&& args[o]@ == "node"@
            &&& chain != Chain::Named(1) ==> args[o + 1]@ == "--chain"@
            &&& chain matches Chain::Named(id) ==> id != 1 ==> args[o + 2]@ == chain_name(id)
            &&& chain matches Chain::Id(id) ==> reads_as(args[o + 2]@, 10, id as nat)
            &&& settings.datadir matches Some(dir) ==> args[o + 1 + c]@ == "--datadir"@ && args[o
                + 2 + c]@ == dir
            &&& args[f]@ == "--engine.accept-execution-requests-hash"@
            &&& args[f + 1]@ == "--metrics"@
            &&& args[f + 2]@.len() > 8 && args[f + 2]@.take(8) == "0.0.0.0:"@
            &&& reads_as(args[f + 2]@.skip(8), 10, old(client).port() as nat)
            &&& args[f + 3]@ == "--http"@
            &&& args[f + 4]@ == "--http.api"@ && args[f + 5]@ == "eth"@
            &&& args[f + 6]@ == "--disable-discovery"@
            &&& args[f + 7]@ == "--trusted-only"@
            &&& forall|k: int|
                0 <= k < m ==> args[f + 8 + k]@ == #[trigger] settings.common_args[k]
            &&& forall|k: int|
                0 <= k < additional_args@.len() ==> args[f + 8 + m + k]@ == (
                #[trigger] additional_args@[k])@
        }),
{
    law_start_runs_node(client, binary_path, git_ref, ref_type, additional_args, plan);
    let settings = old(client).known();
    let args = plan.command.args@;
    let line = words_run(plan.command, settings.use_sudo);
    let extra = words(additional_args@);
    let name = settings.chain.name();
    let o: int = if settings.use_sudo {
        1
    } else {
        0
    };
    let f = o + 1 + chain_words(name) + datadir_words(settings);
    let m = settings.common_args.len() as int;
    assert(extra.len() == additional_args@.len());
    assert(line.len() == args.len() + 1 - o);
    assert forall|j: int| 1 <= j < line.len() implies #[trigger] line[j] == args[j - 1 + o]@ by {}
    assert(line[0] == binary_path@);
    if settings.use_sudo {
        assert(line[0] == args[0]@);
    } else {
        assert(line[0] == plan.command.program@);
    }
    assert(line[1] == "node"@);
    assert forall|k: int| 0 <= k < m implies args[f + 8 + k]@
        == #[trigger] settings.common_args[k] by {
        let s = f + 1 - o;
        assert(line.subrange(s + 8, s + 8 + m)[k] == line[s + 8 + k]);
    }
    assert forall|k: int| 0 <= k < additional_args@.len() implies args[f + 8 + m + k]@ == (
    #[trigger] additional_args@[k])@ by {
        let s = f + 1 - o;
        assert(extra[k] == additional_args@[k]@);
        assert(line.skip(s + 8 + m)[k] == line[s + 8 + m + k]);
    }
}

/// The command that takes a node back, spelled out. It runs the binary that was started last, or the
/// one that `make` leaves where none was, behind `sudo` where the client is to use it. Its last word
/// reads as the very block that was given, and `to-block` stands before it.
pub proof fn law_unwind_spells_out_command(client: RethClient, block_number: u64, plan: UnwindPlan)
    requires
        call_ensures(RethClient::unwind_to_block, (&client, block_number), plan),
    ensures
        plan matches UnwindPlan::Run(command) && {
            let settings = client.known();
            let chain = settings.chain;
            let args = command.args@;
            let n = args.len() as int;
            let o: int = if settings.use_sudo {
                1
            } else {
                0
            };
            let c: int = if chain == Chain::Named(1) {
                0
            } else {
                2
            };
            let binary = match settings.binary_path {
                Some(path) => path,
                None => "./target/release/reth"@,
            };
            &&& n == o + 2 + c + (if settings.datadir is Some {
                2int
            } else {
                0
            }) + 2
            &&& settings.use_sudo ==> command.program@ == "sudo"@ && args[0]@ == binary
            &&& !settings.use_sudo ==> command.program@ == binary
            &&& args[o]@ == "stage"@ && args[o + 1]@ == "unwind"@
            &&& chain != Chain::Named(1) ==> args[o + 2]@ == "--chain"@
            &&& chain matches Chain::Named(id) ==> id != 1 ==> args[o + 3]@ == chain_name(id)
            &&& chain matches Chain::Id(id) ==> reads_as(args[o + 3]@, 10, id as nat)
            &&& settings.datadir matches Some(dir) ==> args[o + 2 + c]@ == "--datadir"@ && args[o
                + 3 + c]@ == dir
            &&& args[n - 2]@ == "to-block"@
            &&& reads_as(args[n - 1]@, 10, block_number as nat)
            &&& numeral_value(args[n - 1]@, 10) == block_number
        },
{
    law_unwind_runs_to_block(client, block_number, plan);
    let settings = client.known();
    let command = plan->Run_0;
    let args = command.args@;
    let line = words_run(command, settings.use_sudo);
    let o: int = if settings.use_sudo {
        1
    } else {
        0
    };
    assert(line.len() == args.len() + 1 - o);
    assert forall|j: int| 1 <= j < line.len() implies #[trigger] line[j] == args[j - 1 + o]@ by {}
    if settings.use_sudo {
        assert(line[0] == args[0]@);
    } else {
        assert(line[0] == command.program@);
    }
    assert(line[1] == "stage"@ && line[2] == "unwind"@);
}

/// Two nodes that differ in the arguments of their own alone are started by the same words up to
/// there: what is given for one node changes nothing before it, and all of it is there.
pub proof fn law_own_arguments_only_follow(
    client: RethClient,
    binary: &str,
    none: &[String],
    extra: &[String],
    bare: Vec<String>,
    line: Vec<String>,
)
    requires
        none@.len() == 0,
        call_ensures(RethClient::build_reth_args, (&client, binary, none), bare),
        call_ensures(RethClient::build_reth_args, (&client, binary, extra), line),
    ensures
        line@.len() == bare@.len() + extra@.len(),
        forall|i: int| 0 <= i < bare@.len() ==> (#[trigger] line@[i])@ == bare@[i]@,
        forall|k: int|
            0 <= k < extra@.len() ==> line@[bare@.len() + k]@ == (#[trigger] extra@[k])@,
{
    let (a, b) = (words(bare@), words(line@));
    assert(a.len() == bare@.len() && b.len() == line@.len() && words(extra@).len() == extra@.len());
    assert(words(none@) =~= seq![]);
    assert(b =~= a + words(extra@));
    assert forall|i: int| 0 <= i < bare@.len() implies (#[trigger] line@[i])@ == bare@[i]@ by {
        assert(b[i] == line@[i]@ && a[i] == bare@[i]@);
    }
    assert forall|k: int| 0 <= k < extra@.len() implies line@[bare@.len() + k]@ == (
    #[trigger] extra@[k])@ by {
        assert(b[bare@.len() + k] == words(extra@)[k]);
    }
}

} // verus!
