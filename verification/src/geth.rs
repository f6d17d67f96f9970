//! The geth client.

use crate::chain::Chain;
use crate::client::{datadir_args, push_datadir_args, Args, EthereumClient, Settings};
use crate::command::{direct, lemma_direct_runs, to_direct, words_run, CommandLine};
use crate::compile::{lemma_cached_name, plan_compile, to_cached_path, CompilePlan};
use crate::error::{ClientError, ClientKind};
use crate::launch::{LaunchPlan, LaunchReply, LaunchStep, LaunchView, SecretView};
use crate::path::{join, joined, law_joined_keeps_base_and_leaf, Platform};
use crate::ready::{ReadyPlan, RPC_URL};
use crate::secret::SecretPlan;
use crate::stop::{
    law_running_node_is_interrupted, law_signal_reaches_started_process, signed_id, ProcessStatus,
    SignalResult, SignalTarget, StopPlan, StopReply, StopStep,
};
use crate::text::{
    copy_words, has_short_form, hex_quantity, law_hex_quantity_is_faithful, law_numeral_reads_back,
    law_short_form_spells_eight_bytes, numeral, numeral_value, push_word, push_words, reads_as,
    same_text, short_form, to_hex_quantity, words,
};
use crate::unwind::{RpcCall, RpcCallView, UnwindPlan, UnwindView};
use vstd::prelude::*;
use vstd::utf8::encode_utf8;

verus! {

/// The JSON-RPC method that takes a running node back.
pub const SET_HEAD: &'static str = "debug_setHead";

/// The geth client.
pub struct GethClient {
    platform: Platform,
    repo_root: String,
    output_dir: String,
    datadir: Option<String>,
    chain: Chain,
    use_sudo: bool,
    binary_path: Option<String>,
    /// Arguments that every node gets. They are geth arguments, whatever the name says.
    additional_reth_args: Vec<String>,
}

/// The arguments by which geth selects the network with a given name, where it knows one.
pub open spec fn network_args(name: Seq<char>) -> Option<Seq<Seq<char>>> {
    if name == "mainnet"@ {
        Some(seq![])
    } else if name == "sepolia"@ {
        Some(seq!["--sepolia"@])
    } else if name == "holesky"@ {
        Some(seq!["--holesky"@])
    } else if name == "goerli"@ {
        Some(seq!["--goerli"@])
    } else {
        None
    }
}

/// The arguments by which geth follows a chain. One that it does not know is taken for mainnet,
/// which goes without.
pub open spec fn chain_args(chain: Chain) -> Seq<Seq<char>> {
    match chain {
        Chain::Named(11155111) => seq!["--sepolia"@],
        Chain::Named(17000) => seq!["--holesky"@],
        Chain::Named(5) => seq!["--goerli"@],
        _ => seq![],
    }
}

/// The directory of the JWT secret.
pub open spec fn secret_dir(platform: Platform, datadir: Option<Seq<char>>) -> Seq<char> {
    match datadir {
        Some(datadir) => joined(platform, datadir, "geth"@),
        None => "."@,
    }
}

/// The file with the JWT secret: `geth/jwtsecret` in the directory for the node's data, or
/// `./jwtsecret` without one.
pub open spec fn secret_path(platform: Platform, datadir: Option<Seq<char>>) -> Seq<char> {
    match datadir {
        Some(datadir) => joined(platform, joined(platform, datadir, "geth"@), "jwtsecret"@),
        None => "./jwtsecret"@,
    }
}

/// The arguments that every geth node gets.
pub open spec fn fixed_args(secret_path: Seq<char>) -> Seq<Seq<char>> {
    seq![
        "--authrpc.jwtsecret"@,
        secret_path,
        "--http"@,
        "--http.api"@,
        "eth,debug"@,
        "--nodiscover"@,
        "--maxpeers"@,
        "0"@,
        "--history.transactions"@,
        "0"@,
        "--history.logs.disable"@,
    ]
}

/// The words that run a node.
pub open spec fn node_line(settings: Settings, binary: Seq<char>, extra: Seq<Seq<char>>) -> Seq<
    Seq<char>,
> {
    seq![binary] + chain_args(settings.chain) + datadir_args(settings.datadir) + fixed_args(
        secret_path(settings.platform, settings.datadir),
    ) + settings.common_args + extra
}

/// The arguments by which geth selects the network with a given name, where it knows one.
pub fn to_network_args(name: &str) -> (args: Option<Vec<String>>)
    ensures
        args is Some == network_args(name@) is Some,
        args matches Some(list) ==> words(list@) == network_args(name@)->0,
{
    let mut list: Vec<String> = Vec::new();
    assert(words(list@) =~= seq![]);
    if same_text(name, "mainnet") {
        return Some(list);
    }
    if same_text(name, "sepolia") {
        push_word(&mut list, "--sepolia");
        assert(words(list@) =~= seq!["--sepolia"@]);
    } else if same_text(name, "holesky") {
        push_word(&mut list, "--holesky");
        assert(words(list@) =~= seq!["--holesky"@]);
    } else if same_text(name, "goerli") {
        push_word(&mut list, "--goerli");
        assert(words(list@) =~= seq!["--goerli"@]);
    } else {
        return None;
    }
    Some(list)
}

impl GethClient {
    /// What the client knows.
    pub closed spec fn known(self) -> Settings {
        Settings {
            platform: self.platform,
            repo_root: self.repo_root@,
            output_dir: self.output_dir@,
            datadir: match self.datadir {
                Some(datadir) => Some(datadir@),
                None => None,
            },
            chain: self.chain,
            use_sudo: self.use_sudo,
            binary_path: match self.binary_path {
                Some(path) => Some(path@),
                None => None,
            },
            common_args: words(self.additional_reth_args@),
        }
    }

    /// A client as the command line has it, for the repository at `repo_root`.
    pub fn new(args: &Args, repo_root: String, platform: Platform) -> (client: GethClient)
        ensures
            client.known() == args.settings(repo_root@, platform),
    {
        GethClient {
            platform,
            repo_root,
            output_dir: args.output_dir.clone(),
            datadir: Some(args.datadir.clone()),
            chain: args.chain,
            use_sudo: args.sudo,
            binary_path: None,
            additional_reth_args: copy_words(args.reth_args.as_slice()),
        }
    }

    /// The arguments by which geth follows the client's chain.
    pub fn get_geth_network_args(&self) -> (args: Vec<String>)
        ensures
            words(args@) == chain_args(self.known().chain),
    {
        let name = self.chain.to_text();
        match to_network_args(name.as_str()) {
            Some(list) => list,
            None => {
                let list: Vec<String> = Vec::new();
                assert(words(list@) =~= seq![]);
                list
            },
        }
    }

    /// Whether geth knows the client's chain, so that it need not be taken for mainnet.
    pub fn knows_chain(&self) -> (known: bool)
        ensures
            known == {
                ||| self.known().chain == Chain::Named(1)
                ||| self.known().chain == Chain::Named(11155111)
                ||| self.known().chain == Chain::Named(17000)
                ||| self.known().chain == Chain::Named(5)
            },
    {
        to_network_args(self.chain.to_text().as_str()).is_some()
    }

    /// The file with the JWT secret.
    pub fn get_jwt_secret_path(&self) -> (path: String)
        ensures
            path@ == secret_path(self.known().platform, self.known().datadir),
    {
        proof {
            reveal_strlit("geth");
            reveal_strlit("jwtsecret");
        }
        match &self.datadir {
            Some(datadir) => join(
                self.platform,
                join(self.platform, datadir.as_str(), "geth").as_str(),
                "jwtsecret",
            ),
            None => "./jwtsecret".to_owned(),
        }
    }

    /// Plans to have a JWT secret, which is kept if there is one.
    pub fn ensure_jwt_secret(&self) -> (plan: SecretPlan)
        ensures
            plan.path@ == secret_path(self.known().platform, self.known().datadir),
            plan.parent@ == secret_dir(self.known().platform, self.known().datadir),
    {
        proof {
            reveal_strlit("geth");
        }
        let parent = match &self.datadir {
            Some(datadir) => join(self.platform, datadir.as_str(), "geth"),
            None => ".".to_owned(),
        };
        SecretPlan { path: self.get_jwt_secret_path(), parent }
    }

    /// The words that run a node.
    pub fn build_geth_args(&self, binary_path_str: &str, additional_args: &[String]) -> (line: Vec<
        String,
    >)
        ensures
            words(line@) == node_line(self.known(), binary_path_str@, words(additional_args@)),
    {
        let mut line: Vec<String> = Vec::new();
        push_word(&mut line, binary_path_str);
        assert(words(line@) =~= seq![binary_path_str@]);
        push_words(&mut line, self.get_geth_network_args().as_slice());
        push_datadir_args(&mut line, &self.datadir);
        let ghost before = words(line@);
        let secret = self.get_jwt_secret_path();
        push_word(&mut line, "--authrpc.jwtsecret");
        push_word(&mut line, secret.as_str());
        push_word(&mut line, "--http");
        push_word(&mut line, "--http.api");
        push_word(&mut line, "eth,debug");
        push_word(&mut line, "--nodiscover");
        push_word(&mut line, "--maxpeers");
        push_word(&mut line, "0");
        push_word(&mut line, "--history.transactions");
        push_word(&mut line, "0");
        push_word(&mut line, "--history.logs.disable");
        assert(words(line@) =~= before + fixed_args(secret@));
        push_words(&mut line, self.additional_reth_args.as_slice());
        push_words(&mut line, additional_args);
        line
    }

    /// The command that runs a list of words, by way of `sudo` where the client is to use it.
    pub fn create_direct_command(&self, geth_args: &[String]) -> (command: CommandLine)
        requires
            geth_args@.len() > 0,
        ensures
            command@ == direct(self.known().use_sudo, words(geth_args@)),
    {
        to_direct(self.use_sudo, geth_args)
    }
}

impl EthereumClient for GethClient {
    open spec fn kind(&self) -> ClientKind {
        ClientKind::Geth
    }

    open spec fn settings(&self) -> Settings {
        self.known()
    }

    open spec fn launch(&self, binary: Seq<char>, extra: Seq<Seq<char>>) -> LaunchView {
        LaunchView {
            secret: Some(
                SecretView {
                    path: secret_path(self.known().platform, self.known().datadir),
                    parent: secret_dir(self.known().platform, self.known().datadir),
                },
            ),
            command: direct(self.known().use_sudo, node_line(self.known(), binary, extra)),
            own_group: false,
            kill_on_drop: true,
            log_label: None,
            settle_secs: 0,
        }
    }

    open spec fn unwind(&self, block: nat) -> UnwindView {
        UnwindView::Call(
            RpcCallView { url: RPC_URL@, method: SET_HEAD@, params: seq![hex_quantity(block)] },
        )
    }

    fn compile(&self, git_ref: &str, commit: &str, current_commit: &str) -> (plan: Result<
        CompilePlan,
        ClientError,
    >) {
        plan_compile(
            ClientKind::Geth,
            self.platform,
            self.repo_root.as_str(),
            self.output_dir.as_str(),
            commit,
            current_commit,
        )
    }

    fn start_node(
        &mut self,
        binary_path: &str,
        git_ref: &str,
        ref_type: &str,
        additional_args: &[String],
    ) -> (plan: LaunchPlan) {
        self.binary_path = Some(binary_path.to_owned());
        let line = self.build_geth_args(binary_path, additional_args);
        assert(words(line@).len() == line@.len());
        LaunchPlan {
            secret: Some(self.ensure_jwt_secret()),
            command: self.create_direct_command(line.as_slice()),
            own_group: false,
            kill_on_drop: true,
            log_label: None,
            settle_secs: 0,
        }
    }

    fn wait_for_ready(&self) -> (plan: ReadyPlan) {
        ReadyPlan::new()
    }

    fn stop_node(&self, pid: u32) -> (plan: StopPlan)
        ensures
            plan == (StopPlan {
                pid,
                platform: self.known().platform,
                target: SignalTarget::Process(signed_id(pid)),
            }),
    {
        StopPlan::new(pid, self.platform, false)
    }

    fn unwind_to_block(&self, block_number: u64) -> (plan: UnwindPlan) {
        let mut params: Vec<String> = Vec::new();
        push_word(&mut params, to_hex_quantity(block_number).as_str());
        assert(words(params@) =~= seq![hex_quantity(block_number as nat)]);
        UnwindPlan::Call(RpcCall { url: RPC_URL.to_owned(), method: SET_HEAD.to_owned(), params })
    }

    fn get_cached_binary_path(&self, commit: &str) -> (path: String) {
        to_cached_path(ClientKind::Geth, self.platform, self.output_dir.as_str(), commit)
    }

    fn client_name(&self) -> (name: &'static str) {
        ClientKind::Geth.to_name()
    }

    fn requires_node_for_unwind(&self) -> (required: bool) {
        true
    }
}

/// The words that run a node begin with the binary. Behind the words that the client chooses come
/// the arguments that every node gets, and last those of this node, which change nothing before
/// them.
pub proof fn law_node_line_order(settings: Settings, binary: Seq<char>, extra: Seq<Seq<char>>)
    ensures
        node_line(settings, binary, extra)[0] == binary,
        node_line(settings, binary, extra) == node_line(
            Settings { common_args: seq![], ..settings },
            binary,
            seq![],
        ) + settings.common_args + extra,
{
    let chosen = node_line(Settings { common_args: seq![], ..settings }, binary, seq![]);
    assert(node_line(settings, binary, extra) =~= chosen + settings.common_args + extra);
}

/// A node is told to read the secret from the very file that is seen to before it starts, and that
/// file is `jwtsecret` in the directory that is made for it, or `./jwtsecret` where the client
/// knows no directory for the node's data.
pub proof fn law_node_reads_ensured_secret(
    client: GethClient,
    binary: Seq<char>,
    extra: Seq<Seq<char>>,
)
    ensures
        client.launch(binary, extra).secret matches Some(secret) && {
            &&& client.known().datadir is None ==> secret.path == "./jwtsecret"@ && secret.parent
                == "."@
            &&& client.known().datadir is Some || client.known().platform == Platform::Unix
                ==> secret.path == joined(
                client.known().platform,
                secret.parent,
                "jwtsecret"@,
            )
            &&& exists|i: int|
                0 <= i && #[trigger] names_at(
                    node_line(client.known(), binary, extra),
                    "--authrpc.jwtsecret"@,
                    secret.path,
                    i,
                )
        },
{
    let settings = client.known();
    let line = node_line(settings, binary, extra);
    let path = secret_path(settings.platform, settings.datadir);
    let secret = client.launch(binary, extra).secret->0;
    assert(client.launch(binary, extra).secret is Some);
    assert(secret.path == path);
    assert(secret.parent == secret_dir(settings.platform, settings.datadir));
    let at = lemma_fixed_args_position(settings, binary, extra);
    assert(line[at + 0] == "--authrpc.jwtsecret"@);
    assert(line[at + 1] == path);
    assert(0 <= at && names_at(line, "--authrpc.jwtsecret"@, secret.path, at));
    lemma_default_secret_path();
    match settings.datadir {
        Some(dir) => {
            assert(path == joined(settings.platform, secret.parent, "jwtsecret"@));
        },
        None => {
            assert(path == "./jwtsecret"@ && secret.parent == "."@);
        },
    }
}

proof fn lemma_default_secret_path()
    ensures
        joined(Platform::Unix, "."@, "jwtsecret"@) == "./jwtsecret"@,
{
    reveal_strlit(".");
    reveal_strlit("/");
    reveal_strlit("jwtsecret");
    reveal_strlit("./jwtsecret");
    assert("./jwtsecret"@ =~= "."@ + "/"@ + "jwtsecret"@);
}

/// Among the words that run a node are those that offer the debug API over HTTP, which [`SET_HEAD`]
/// belongs to, and those that turn off the search for peers and allow none.
pub proof fn law_node_is_isolated_and_debuggable(
    settings: Settings,
    binary: Seq<char>,
    extra: Seq<Seq<char>>,
)
    ensures
        node_line(settings, binary, extra).contains("--http"@),
        exists|i: int|
            0 <= i && #[trigger] names_at(
                node_line(settings, binary, extra),
                "--http.api"@,
                "eth,debug"@,
                i,
            ),
        node_line(settings, binary, extra).contains("--nodiscover"@),
        exists|i: int|
            0 <= i && #[trigger] names_at(
                node_line(settings, binary, extra),
                "--maxpeers"@,
                "0"@,
                i,
            ),
{
    let line = node_line(settings, binary, extra);
    let at = lemma_fixed_args_position(settings, binary, extra);
    assert(line[at + 2] == "--http"@);
    assert(line[at + 3] == "--http.api"@);
    assert(line[at + 4] == "eth,debug"@);
    assert(names_at(line, "--http.api"@, "eth,debug"@, at + 3));
    assert(line[at + 5] == "--nodiscover"@);
    assert(line[at + 6] == "--maxpeers"@);
    assert(line[at + 7] == "0"@);
    assert(names_at(line, "--maxpeers"@, "0"@, at + 6));
}

/// Whether a flag with its value stands at a place in a list of words.
pub open spec fn names_at(line: Seq<Seq<char>>, flag: Seq<char>, value: Seq<char>, i: int) -> bool {
    i + 1 < line.len() && line[i] == flag && line[i + 1] == value
}

proof fn lemma_fixed_args_position(
    settings: Settings,
    binary: Seq<char>,
    extra: Seq<Seq<char>>,
) -> (at: int)
    ensures
        0 <= at,
        at + 11 <= node_line(settings, binary, extra).len(),
        forall|k: int|
            0 <= k < 11 ==> #[trigger] node_line(settings, binary, extra)[at + k] == fixed_args(
                secret_path(settings.platform, settings.datadir),
            )[k],
{
    let at = (seq![binary] + chain_args(settings.chain) + datadir_args(
        settings.datadir,
    )).len() as int;
    let line = node_line(settings, binary, extra);
    let fixed = fixed_args(secret_path(settings.platform, settings.datadir));
    assert forall|k: int| 0 <= k < 11 implies #[trigger] line[at + k] == fixed[k] by {}
    at
}

/// A chain that geth does not know is run as mainnet.
pub proof fn law_unknown_chain_is_mainnet(chain: Chain)
    requires
        chain != Chain::Named(11155111),
        chain != Chain::Named(17000),
        chain != Chain::Named(5),
    ensures
        chain_args(chain) == chain_args(Chain::Named(1)),
        chain_args(chain) == Seq::<Seq<char>>::empty(),
{
}

/// The call that takes a node back names the block: its one parameter reads as the block number.
pub proof fn law_set_head_names_block(client: GethClient, block: nat)
    ensures
        client.unwind(block) matches UnwindView::Call(call) && {
            &&& call.params.len() == 1
            &&& call.params[0].take(2) == "0x"@
            &&& numeral_value(call.params[0].skip(2), 16) == block
        },
{
    reveal_strlit("0x");
    let param = hex_quantity(block);
    assert(param.take(2) =~= "0x"@);
    assert(param.skip(2) =~= numeral(block, 16));
    law_numeral_reads_back(block, 16);
}

/// A node that was started as planned is reached by the signal that stops it: a geth node shares
/// the process group of its parent, so the signal goes to the process that was spawned. On Unix a
/// running node gets SIGINT, is awaited, and is stopped then.
pub proof fn law_stop_reaches_started_node(
    client: GethClient,
    binary: Seq<char>,
    extra: Seq<Seq<char>>,
    launch: LaunchPlan,
    replies: Seq<LaunchReply>,
    pid: u32,
)
    requires
        launch@ == client.launch(binary, extra),
        launch.is_run(replies),
        launch.at(replies) == LaunchStep::Running(pid),
    ensures
        replies.contains(LaunchReply::Spawned(Some(pid))),
        ({
            let stop = StopPlan::of(
                pid,
                client.known().platform,
                client.launch(binary, extra).own_group,
            );
            let running = StopReply::Status(ProcessStatus::Running);
            let sent = StopReply::Signalled(SignalResult::Sent);
            &&& stop.target == SignalTarget::Process(signed_id(pid))
            &&& client.known().platform == Platform::Unix ==> {
                &&& stop.at(seq![running]) == StopStep::Interrupt
                &&& stop.at(seq![running, sent]) == StopStep::Await
                &&& stop.at(seq![running, sent, StopReply::Awaited]) == StopStep::Stopped
            }
        }),
{
    let platform = client.known().platform;
    law_signal_reaches_started_process(launch, replies, pid, platform);
    if platform == Platform::Unix {
        law_running_node_is_interrupted(StopPlan::of(pid, platform, launch.own_group));
    }
}

/// How many words select a chain: one for a test network that geth knows, none for mainnet and for
/// what is taken for it.
pub open spec fn network_words(chain: Chain) -> int {
    if chain == Chain::Named(11155111) || chain == Chain::Named(17000) || chain == Chain::Named(
        5,
    ) {
        1
    } else {
        0
    }
}

/// How many words name the directory for the node's data.
pub open spec fn datadir_words(settings: Settings) -> int {
    if settings.datadir is Some {
        2
    } else {
        0
    }
}

/// Whether words run a geth node as the settings say: the binary first; then the test network, where
/// there is one; then the directory for the data, where there is one; then the secret, the HTTP
/// server with the debug API, no search for peers and none allowed, and no history; then the
/// arguments that every node gets, and those of this node.
pub open spec fn runs_node(
    line: Seq<Seq<char>>,
    settings: Settings,
    binary: Seq<char>,
    secret: Seq<char>,
    extra: Seq<Seq<char>>,
) -> bool {
    let c = network_words(settings.chain);
    let f = 1 + c + datadir_words(settings);
    let m = settings.common_args.len();
    &&& line.len() == f + 11 + m + extra.len()
    &&& line[0] == binary
    &&& settings.chain == Chain::Named(11155111) ==> line[1] == "--sepolia"@
    &&& settings.chain == Chain::Named(17000) ==> line[1] == "--holesky"@
    &&& settings.chain == Chain::Named(5) ==> line[1] == "--goerli"@
    &&& settings.datadir matches Some(dir) ==> line[1 + c] == "--datadir"@ && line[2 + c] == dir
    &&& line[f] == "--authrpc.jwtsecret"@ && line[f + 1] == secret
    &&& line[f + 2] == "--http"@
    &&& line[f + 3] == "--http.api"@ && line[f + 4] == "eth,debug"@
    &&& line[f + 5] == "--nodiscover"@
    &&& line[f + 6] == "--maxpeers"@ && line[f + 7] == "0"@
    &&& line[f + 8] == "--history.transactions"@ && line[f + 9] == "0"@
    &&& line[f + 10] == "--history.logs.disable"@
    &&& line.subrange(f + 11, f + 11 + m) == settings.common_args
    &&& line.skip(f + 11 + m) == extra
}

proof fn lemma_node_line_runs_node(settings: Settings, binary: Seq<char>, extra: Seq<Seq<char>>)
    ensures
        runs_node(
            node_line(settings, binary, extra),
            settings,
            binary,
            secret_path(settings.platform, settings.datadir),
            extra,
        ),
{
    let line = node_line(settings, binary, extra);
    let secret = secret_path(settings.platform, settings.datadir);
    let fixed = fixed_args(secret);
    let c = network_words(settings.chain);
    let f = 1 + c + datadir_words(settings);
    let m = settings.common_args.len() as int;
    assert(chain_args(settings.chain).len() == c);
    assert(datadir_args(settings.datadir).len() == datadir_words(settings));
    let head = seq![binary] + chain_args(settings.chain) + datadir_args(settings.datadir);
    assert(head.len() == f);
    assert(line =~= head + fixed + settings.common_args + extra);
    assert(fixed.len() == 11);
    if settings.datadir is Some {
        assert(line[1 + c] == datadir_args(settings.datadir)[0]);
        assert(line[2 + c] == datadir_args(settings.datadir)[1]);
    }
    if c == 1 {
        assert(line[1] == chain_args(settings.chain)[0]);
    }
    assert forall|k: int| 0 <= k < 11 implies #[trigger] line[f + k] == fixed[k] by {}
    assert(line[f + 0] == fixed[0]);
    assert(line.subrange(f + 11, f + 11 + m) =~= settings.common_args);
    assert(line.skip(f + 11 + m) =~= extra);
}

/// Whether a secret is kept where geth looks for it: in `geth/jwtsecret` below the directory for
/// the data, or in `./jwtsecret` without one.
pub open spec fn keeps_secret(plan: SecretPlan, settings: Settings) -> bool {
    match settings.datadir {
        Some(dir) => {
            &&& plan.parent@ == joined(settings.platform, dir, "geth"@)
            &&& plan.path@ == joined(settings.platform, plan.parent@, "jwtsecret"@)
        },
        None => plan.parent@ == "."@ && plan.path@ == "./jwtsecret"@,
    }
}

/// A list of words for a node runs that node, whatever the chain and the directory are.
pub proof fn law_built_words_run_node(
    client: GethClient,
    binary: &str,
    extra: &[String],
    line: Vec<String>,
    secret: String,
    plan: SecretPlan,
)
    requires
        call_ensures(GethClient::build_geth_args, (&client, binary, extra), line),
        call_ensures(GethClient::get_jwt_secret_path, (&client,), secret),
        call_ensures(GethClient::ensure_jwt_secret, (&client,), plan),
    ensures
        runs_node(words(line@), client.known(), binary@, secret@, words(extra@)),
        keeps_secret(plan, client.known()),
        plan.path@ == secret@,
{
    lemma_node_line_runs_node(client.known(), binary@, words(extra@));
}

/// To start a node is to run its words, with `sudo` before them where the client is to use it, once
/// the secret that they name is there. The node shares the process group of its parent, is killed
/// when its handle is dropped, is not logged and not waited for. The client keeps the binary in
/// mind and all else as it was.
pub proof fn law_start_runs_node(
    client: &mut GethClient,
    binary_path: &str,
    git_ref: &str,
    ref_type: &str,
    additional_args: &[String],
    plan: LaunchPlan,
)
    requires
        call_ensures(
            GethClient::start_node,
            (client, binary_path, git_ref, ref_type, additional_args),
            plan,
        ),
    ensures
        ({
            let settings = old(client).known();
            &&& settings.use_sudo ==> plan.command.program@ == "sudo"@
            &&& plan.secret matches Some(secret)
            &&& keeps_secret(secret, settings)
            &&& runs_node(
                words_run(plan.command, settings.use_sudo),
                settings,
                binary_path@,
                secret.path@,
                words(additional_args@),
            )
        }),
        !plan.own_group,
        plan.kill_on_drop,
        plan.log_label is None,
        plan.settle_secs == 0,
        final(client).known().binary_path == Some(binary_path@),
        final(client).known().platform == old(client).known().platform,
        final(client).known().repo_root == old(client).known().repo_root,
        final(client).known().output_dir == old(client).known().output_dir,
        final(client).known().datadir == old(client).known().datadir,
        final(client).known().chain == old(client).known().chain,
        final(client).known().use_sudo == old(client).known().use_sudo,
        final(client).known().common_args == old(client).known().common_args,
{
    let settings = old(client).known();
    let extra = words(additional_args@);
    let view = old(client).launch(binary_path@, extra);
    assert(plan@ == view);
    assert(plan@.secret == view.secret && plan@.command == view.command);
    assert(plan@.own_group == view.own_group && plan@.settle_secs == view.settle_secs);
    assert(plan@.log_label == view.log_label && plan@.kill_on_drop == view.kill_on_drop);
    let line = node_line(settings, binary_path@, extra);
    lemma_node_line_runs_node(settings, binary_path@, extra);
    assert(plan.command@ == direct(settings.use_sudo, line));
    lemma_direct_runs(plan.command, settings.use_sudo, line);
}

/// Geth knows four networks by name, and no other: it takes one word to select each of them but
/// mainnet, which takes none.
pub proof fn law_networks_go_by_name(name: &str, args: Option<Vec<String>>)
    requires
        call_ensures(to_network_args, (name,), args),
    ensures
        args is Some <==> name@ == "mainnet"@ || name@ == "sepolia"@ || name@ == "holesky"@ || name@
            == "goerli"@,
        args matches Some(list) ==> {
            &&& name@ == "mainnet"@ ==> list@.len() == 0
            &&& name@ == "sepolia"@ ==> list@.len() == 1 && list@[0]@ == "--sepolia"@
            &&& name@ == "holesky"@ ==> list@.len() == 1 && list@[0]@ == "--holesky"@
            &&& name@ == "goerli"@ ==> list@.len() == 1 && list@[0]@ == "--goerli"@
        },
{
    reveal_strlit("mainnet");
    reveal_strlit("sepolia");
    reveal_strlit("holesky");
    reveal_strlit("goerli");
    assert("mainnet"@[0] == 'm' && "sepolia"@[0] == 's' && "holesky"@[0] == 'h' && "goerli"@[0]
        == 'g');
    match args {
        Some(list) => {
            assert(words(list@).len() == list@.len());
            if list@.len() > 0 {
                assert(words(list@)[0] == list@[0]@);
            }
        },
        None => {},
    }
}

/// The network is selected by the chain: each test network that geth knows by its own word, and
/// any other chain by none. Geth knows the chain exactly when it is mainnet or one of those.
pub proof fn law_chain_selects_network(client: GethClient, args: Vec<String>, known: bool)
    requires
        call_ensures(GethClient::get_geth_network_args, (&client,), args),
        call_ensures(GethClient::knows_chain, (&client,), known),
    ensures
        ({
            let chain = client.known().chain;
            &&& args@.len() == network_words(chain)
            &&& chain == Chain::Named(11155111) ==> args@[0]@ == "--sepolia"@
            &&& chain == Chain::Named(17000) ==> args@[0]@ == "--holesky"@
            &&& chain == Chain::Named(5) ==> args@[0]@ == "--goerli"@
            &&& known <==> network_words(chain) == 1 || chain == Chain::Named(1)
        }),
{
    assert(words(args@).len() == args@.len());
    if args@.len() > 0 {
        assert(words(args@)[0] == args@[0]@);
    }
}

/// To take a node back is to ask it, on this machine, to set its head to the very block: the one
/// parameter is `0x` and the block number in hexadecimal.
pub proof fn law_unwind_asks_for_block(client: GethClient, block_number: u64, plan: UnwindPlan)
    requires
        call_ensures(GethClient::unwind_to_block, (&client, block_number), plan),
    ensures
        plan matches UnwindPlan::Call(call) && {
            &&& call.url@ == "http://localhost:8545"@
            &&& call.method@ == "debug_setHead"@
            &&& call.params@.len() == 1
            &&& call.params@[0]@.len() > 2 && call.params@[0]@[0] == '0' && call.params@[0]@[1]
                == 'x'
            &&& reads_as(call.params@[0]@.skip(2), 16, block_number as nat)
        },
{
    law_hex_quantity_is_faithful(block_number as nat);
    assert(plan@ == client.unwind(block_number as nat));
    assert(plan is Call);
    let call = plan->Call_0;
    assert(call@ == plan@->Call_0);
    assert(call.url@ == call@.url && call.method@ == call@.method);
    assert(words(call.params@) == call@.params);
    assert(words(call.params@).len() == 1);
    assert(words(call.params@)[0] == call.params@[0]@);
}

/// A new client knows what the command line says, word for word, and no binary yet.
pub proof fn law_new_client_knows_command_line(
    args: Args,
    repo_root: String,
    platform: Platform,
    client: GethClient,
)
    requires
        call_ensures(GethClient::new, (&args, repo_root, platform), client),
    ensures
        client.known().platform == platform,
        client.known().repo_root == repo_root@,
        client.known().output_dir == args.output_dir@,
        client.known().datadir == Some(args.datadir@),
        client.known().chain == args.chain,
        client.known().use_sudo == args.sudo,
        client.known().binary_path is None,
        client.known().common_args.len() == args.reth_args@.len(),
        forall|i: int|
            0 <= i < args.reth_args@.len() ==> #[trigger] client.known().common_args[i]
                == args.reth_args@[i]@,
{
    assert forall|i: int| 0 <= i < args.reth_args@.len() implies #[trigger] client.known().common_args[i]
        == args.reth_args@[i]@ by {
        assert(words(args.reth_args@)[i] == args.reth_args@[i]@);
    }
}

/// To build the client at a commit is planned exactly when the repository is at that commit. The
/// directory that is made is the one that the cached binary stands in, and the cached binary is
/// the one that [`GethClient::get_cached_binary_path`] finds again.
pub proof fn law_build_is_found_again(
    client: GethClient,
    git_ref: &str,
    commit: &str,
    current_commit: &str,
    plan: Result<CompilePlan, ClientError>,
    cached: String,
)
    requires
        has_short_form(commit@),
        commit@ != current_commit@ ==> has_short_form(current_commit@),
        call_ensures(GethClient::compile, (&client, git_ref, commit, current_commit), plan),
        call_ensures(GethClient::get_cached_binary_path, (&client, commit), cached),
    ensures
        plan is Ok <==> commit@ == current_commit@,
        cached@ == joined(
            client.known().platform,
            joined(client.known().platform, client.known().output_dir, "bin"@),
            "geth_"@ + short_form(commit@),
        ),
        encode_utf8(short_form(commit@)) == encode_utf8(commit@).subrange(0, 8),
        plan matches Ok(plan) ==> {
            &&& plan.kind == ClientKind::Geth
            &&& plan.platform == client.known().platform
            &&& plan.repo_root@ == client.known().repo_root
            &&& plan.source_path@ == joined(
                client.known().platform,
                client.known().repo_root,
                "build/bin/geth"@,
            )
            &&& plan.bin_dir@ == joined(client.known().platform, client.known().output_dir, "bin"@)
            &&& plan.cached_path@ == joined(
                client.known().platform,
                plan.bin_dir@,
                "geth_"@ + short_form(commit@),
            )
            &&& plan.cached_path@ == cached@
            &&& !client.known().platform.is_verbatim(plan.bin_dir@) ==> plan.cached_path@.take(
                plan.bin_dir@.len() as int,
            ) == plan.bin_dir@
        },
        plan matches Err(error) ==> (error matches ClientError::CommitMismatch { expected, current }
            && encode_utf8(expected@) == encode_utf8(commit@).subrange(0, 8) && encode_utf8(
            current@,
        ) == encode_utf8(current_commit@).subrange(0, 8)),
{
    let platform = client.known().platform;
    law_short_form_spells_eight_bytes(commit@);
    lemma_cached_name(ClientKind::Geth, commit@);
    match plan {
        Ok(plan) => {
            if !platform.is_verbatim(plan.bin_dir@) {
                reveal_strlit("geth_");
                let name = "geth_"@ + short_form(commit@);
                assert(name[0] == 'g');
                law_joined_keeps_base_and_leaf(platform, plan.bin_dir@, name);
            }
        },
        Err(_) => law_short_form_spells_eight_bytes(current_commit@),
    }
}

/// To stop a node is to stop the process that was named, on the client's own system, by a signal to
/// that process alone.
pub proof fn law_stop_names_process(client: GethClient, pid: u32, plan: StopPlan)
    requires
        call_ensures(GethClient::stop_node, (&client, pid), plan),
    ensures
        plan.pid == pid,
        plan.platform == client.known().platform,
        plan.target matches SignalTarget::Process(id) && (id == pid || id == pid - 0x1_0000_0000),
        pid <= 0x7fff_ffff ==> plan.target == SignalTarget::Process(pid as i32),
{
}

/// A node is waited for on this machine, for two minutes, and asked every two seconds. The client
/// goes by its own name, and has to run while it is taken back.
pub proof fn law_client_has_its_ways(
    client: GethClient,
    plan: ReadyPlan,
    name: &'static str,
    required: bool,
)
    requires
        call_ensures(GethClient::wait_for_ready, (&client,), plan),
        call_ensures(GethClient::client_name, (&client,), name),
        call_ensures(GethClient::requires_node_for_unwind, (&client,), required),
    ensures
        plan.url@ == "http://localhost:8545"@,
        plan.max_wait_secs == 120,
        plan.check_interval_secs == 2,
        name@ == "geth"@,
        required,
{
    let unwound = client.unwind(0);
    assert(unwound is Call);
}

/// The command that is made of a list of words runs those words, by way of `sudo` where the client
/// is to use it.
pub proof fn law_direct_command_runs_words(client: GethClient, list: &[String], command: CommandLine)
    requires
        list@.len() > 0,
        call_ensures(GethClient::create_direct_command, (&client, list), command),
    ensures
        words_run(command, client.known().use_sudo).len() == list@.len(),
        forall|i: int|
            0 <= i < list@.len() ==> #[trigger] words_run(command, client.known().use_sudo)[i]
                == list@[i]@,
        client.known().use_sudo ==> command.program@ == "sudo"@,
{
    let use_sudo = client.known().use_sudo;
    lemma_direct_runs(command, use_sudo, words(list@));
    assert forall|i: int| 0 <= i < list@.len() implies #[trigger] words_run(command, use_sudo)[i]
        == list@[i]@ by {
        assert(words(list@)[i] == list@[i]@);
    }
}

/// The command that starts a node, spelled out. Without `sudo` the binary is the program, and the
/// rest are its arguments; with `sudo` the binary is the first argument. The test network follows,
/// then `--datadir` and the very directory, whatever the chain is, then the secret that was seen to
/// and the other words that every geth node gets, then the arguments that every node gets, and last
/// exactly those that were given for this node.
pub proof fn law_start_spells_out_command(
    client: &mut GethClient,
    binary_path: &str,
    git_ref: &str,
    ref_type: &str,
    additional_args: &[String],
    plan: LaunchPlan,
)
    requires
        call_ensures(
            GethClient::start_node,
            (client, binary_path, git_ref, ref_type, additional_args),
            plan,
        ),
    ensures
        ({
            let settings = old(client).known();
            let chain = settings.chain;
            let args = plan.command.args@;
            let o: int = if settings.use_sudo {
                1
            } else {
                0
            };
            let c: int = if chain == Chain::Named(11155111) || chain == Chain::Named(17000) || chain
                == Chain::Named(5) {
                1
            } else {
                0
            };
            let f: int = o + c + if settings.datadir is Some {
                2int
            } else {
                0
            };
            let m = settings.common_args.len();
            &&& args.len() == f + 11 + m + additional_args@.len()
            &&& settings.use_sudo ==> plan.command.program@ == "sudo"@ && args[0]@ == binary_path@
            &&& !settings.use_sudo ==> plan.command.program@ == binary_path@
            &&& chain == Chain::Named(11155111) ==> args[o]@ == "--sepolia"@
            &&& chain == Chain::Named(17000) ==> args[o]@ == "--holesky"@
            &&& chain == Chain::Named(5) ==> args[o]@ == "--goerli"@
            &&& settings.datadir matches Some(dir) ==> args[o + c]@ == "--datadir"@ && args[o + c
                + 1]@ == dir
            &&& args[f]@ == "--authrpc.jwtsecret"@
            &&& plan.secret matches Some(secret)
            &&& args[f + 1]@ == secret.path@
            &&& args[f + 2]@ == "--http"@
            &&& args[f + 3]@ == "--http.api"@ && args[f + 4]@ == "eth,debug"@
            &&& args[f + 5]@ == "--nodiscover"@
            &&& args[f + 6]@ == "--maxpeers"@ && args[f + 7]@ == "0"@
            &&& args[f + 8]@ == "--history.transactions"@ && args[f + 9]@ == "0"@
            &&& args[f + 10]@ == "--history.logs.disable"@
            &&& forall|k: int|
                0 <= k < m ==> args[f + 11 + k]@ == #[trigger] settings.common_args[k]
            &&& forall|k: int|
                0 <= k < additional_args@.len() ==> args[f + 11 + m + k]@ == (
                #[trigger] additional_args@[k])@
            &&& settings.datadir matches Some(dir) ==> {
                &&& secret.parent@ == joined(settings.platform, dir, "geth"@)
                &&& secret.path@ == joined(settings.platform, secret.parent@, "jwtsecret"@)
            }
            &&& settings.datadir is None ==> secret.parent@ == "."@ && secret.path@
                == "./jwtsecret"@
        }),
{
    law_start_runs_node(client, binary_path, git_ref, ref_type, additional_args, plan);
    let settings = old(client).known();
    let args = plan.command.args@;
    let line = words_run(plan.command, settings.use_sudo);
    let extra = words(additional_args@);
    let o: int = if settings.use_sudo {
        1
    } else {
        0
    };
    let f = o + network_words(settings.chain) + datadir_words(settings);
    let m = settings.common_args.len() as int;
    assert(extra.len() == additional_args@.len());
    assert(line.len() == args.len() + 1 - o);
    assert forall|j: int| 1 <= j < line.len() implies #[trigger] line[j] == args[j - 1 + o]@ by {}
    assert(line[0] == binary_path@);
    if settings.use_sudo {
        assert(line[0] == args[0]@);
    } else {
        assert(line[0] == plan.command.program@);
    }
    assert forall|k: int| 0 <= k < m implies args[f + 11 + k]@
        == #[trigger] settings.common_args[k] by {
        let s = f + 1 - o;
        assert(line.subrange(s + 11, s + 11 + m)[k] == line[s + 11 + k]);
    }
    assert forall|k: int| 0 <= k < additional_args@.len() implies args[f + 11 + m + k]@ == (
    #[trigger] additional_args@[k])@ by {
        let s = f + 1 - o;
        assert(extra[k] == additional_args@[k]@);
        assert(line.skip(s + 11 + m)[k] == line[s + 11 + m + k]);
    }
}

/// A node of any chain is told where its data is: whenever the client knows a directory, the
/// arguments of the command hold `--datadir` with that directory right behind it, before the
/// arguments that every node gets and those of this node.
pub proof fn law_node_is_told_its_directory(
    client: &mut GethClient,
    binary_path: &str,
    git_ref: &str,
    ref_type: &str,
    additional_args: &[String],
    plan: LaunchPlan,
    dir: Seq<char>,
)
    requires
        old(client).known().datadir == Some(dir),
        call_ensures(
            GethClient::start_node,
            (client, binary_path, git_ref, ref_type, additional_args),
            plan,
        ),
    ensures
        exists|i: int|
            {
                &&& 0 <= i
                &&& i + 2 <= plan.command.args@.len() - additional_args@.len() - old(
                    client,
                ).known().common_args.len()
                &&& (#[trigger] plan.command.args@[i])@ == "--datadir"@
                &&& plan.command.args@[i + 1]@ == dir
            },
{
    law_start_spells_out_command(client, binary_path, git_ref, ref_type, additional_args, plan);
    let settings = old(client).known();
    let i: int = network_words(settings.chain) + if settings.use_sudo {
        1int
    } else {
        0
    };
    assert(plan.command.args@[i]@ == "--datadir"@);
}

} // verus!
