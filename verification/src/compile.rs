//! Building a client at a commit, with a cache of the binaries that were built.
//!
//! The caller performs each step and hands back what came of it; [`CompilePlan::next`] says what
//! is to be done then.

use crate::command::{CommandLine, CommandLineView};
use crate::error::{ClientError, ClientKind};
use crate::log::{labelled_lines, lines, log_lines, MAKE_LABEL};
use crate::outside::{from_utf8_lossy, lossy_text};
use crate::path::{
    join, joined, law_joined_keeps_base_and_leaf, law_joined_tells_leaves_apart, Platform,
};
use crate::text::{
    has_short_form, law_short_form_spells_eight_bytes, push_word, same_text, short_form, shorten,
    words,
};
use crate::verbatim::{base_parts, descended, divides, is_dots, lemma_name_is_one_part, parts};
use vstd::prelude::*;
use vstd::utf8::encode_utf8;

verus! {

/// The permissions of a cached binary: all for its owner, reading and running for the rest.
pub const EXECUTABLE_MODE: u32 = 0o755;

/// The directory for cached binaries.
pub open spec fn bin_dir(platform: Platform, output_dir: Seq<char>) -> Seq<char> {
    joined(platform, output_dir, "bin"@)
}

/// The file name of a cached binary: the client's name and the short form of the commit.
pub open spec fn cached_name(kind: ClientKind, commit: Seq<char>) -> Seq<char> {
    kind.name() + "_"@ + short_form(commit)
}

/// Where the binary that was built at a commit is kept.
pub open spec fn cached_path(
    kind: ClientKind,
    platform: Platform,
    output_dir: Seq<char>,
    commit: Seq<char>,
) -> Seq<char> {
    joined(platform, bin_dir(platform, output_dir), cached_name(kind, commit))
}

/// A cached binary has a plain file name.
proof fn lemma_cached_name_is_relative(kind: ClientKind, platform: Platform, commit: Seq<char>)
    ensures
        platform.is_relative(cached_name(kind, commit)),
{
    reveal_strlit("geth");
    reveal_strlit("reth");
    let name = cached_name(kind, commit);
    assert(name[0] == kind.name()[0] && name[1] == kind.name()[1]);
}

fn to_bin_dir(platform: Platform, output_dir: &str) -> (path: String)
    ensures
        path@ == bin_dir(platform, output_dir@),
{
    proof {
        reveal_strlit("bin");
    }
    join(platform, output_dir, "bin")
}

/// Where the binary that was built at a commit is kept.
pub fn to_cached_path(
    kind: ClientKind,
    platform: Platform,
    output_dir: &str,
    commit: &str,
) -> (path: String)
    requires
        has_short_form(commit@),
    ensures
        path@ == cached_path(kind, platform, output_dir@, commit@),
{
    proof {
        lemma_cached_name_is_relative(kind, platform, commit@);
    }
    let name = kind.to_name().to_owned().concat("_").concat(shorten(commit));
    join(platform, to_bin_dir(platform, output_dir).as_str(), name.as_str())
}

/// What is to be built, and where the binary goes.
#[derive(Debug)]
pub struct CompilePlan {
    pub kind: ClientKind,
    pub platform: Platform,
    /// The directory to run `make` in.
    pub repo_root: String,
    /// Where `make` puts the binary.
    pub source_path: String,
    /// The directory for cached binaries.
    pub bin_dir: String,
    /// Where the binary is kept.
    pub cached_path: String,
}

/// What is to be done next.
pub enum CompileStep {
    /// Look whether a file stands at `cached_path`.
    FindCached,
    /// Run the command that builds the client in `repo_root`.
    RunMake,
    /// Look whether a file stands at `source_path`.
    FindBuilt,
    /// Make the directory `bin_dir`, with its parents, unless it is there.
    CreateBinDir,
    /// Copy the file at `source_path` to `cached_path`.
    CopyBinary,
    /// Set the permissions of the file at `cached_path` to `EXECUTABLE_MODE`.
    SetExecutable,
    /// Nothing: the binary stands at `cached_path`.
    Done,
    /// Nothing: there is no binary.
    Failed(ClientError),
}

/// What came of running `make`.
pub enum MakeResult {
    NotRun,
    Exited { success: bool, code: Option<i32> },
}

/// What came of a step.
pub enum CompileReply {
    /// Whether the file is there.
    Found(bool),
    /// What came of `make`.
    Ran(MakeResult),
    /// Whether the change to the file system was made.
    Performed(bool),
}

impl CompileReply {
    /// Whether this is a reply to the step.
    pub open spec fn answers(self, step: CompileStep) -> bool {
        match step {
            CompileStep::FindCached | CompileStep::FindBuilt => self is Found,
            CompileStep::RunMake => self is Ran,
            CompileStep::CreateBinDir
            | CompileStep::CopyBinary
            | CompileStep::SetExecutable => self is Performed,
            CompileStep::Done | CompileStep::Failed(_) => false,
        }
    }
}

impl CompilePlan {
    /// Whether this is the plan to build a client of some kind at `commit`.
    pub open spec fn builds(
        self,
        kind: ClientKind,
        platform: Platform,
        repo_root: Seq<char>,
        output_dir: Seq<char>,
        commit: Seq<char>,
    ) -> bool {
        &&& self.kind == kind
        &&& self.platform == platform
        &&& self.repo_root@ == repo_root
        &&& self.source_path@ == joined(platform, repo_root, kind.built_binary())
        &&& self.bin_dir@ == bin_dir(platform, output_dir)
        &&& self.cached_path@ == cached_path(kind, platform, output_dir, commit)
    }

    /// The command that builds the client, to be run in `repo_root`.
    pub fn make_command(&self) -> (command: CommandLine)
        ensures
            command@ == (CommandLineView { program: "make"@, args: seq![self.kind.target()] }),
    {
        let mut args: Vec<String> = Vec::new();
        assert(words(args@) =~= seq![]);
        push_word(&mut args, self.kind.to_target());
        assert(words(args@) =~= seq![self.kind.target()]);
        CommandLine { program: "make".to_owned(), args }
    }

    /// The step that follows a reply.
    pub open spec fn following(self, step: CompileStep, reply: CompileReply) -> CompileStep {
        match (step, reply) {
            (CompileStep::FindCached, CompileReply::Found(there)) => if there {
                CompileStep::Done
            } else {
                CompileStep::RunMake
            },
            (CompileStep::RunMake, CompileReply::Ran(result)) => match result {
                MakeResult::NotRun => CompileStep::Failed(ClientError::MakeNotRun),
                MakeResult::Exited { success, code } => if success {
                    CompileStep::FindBuilt
                } else {
                    CompileStep::Failed(ClientError::CompilationFailed { code })
                },
            },
            (CompileStep::FindBuilt, CompileReply::Found(there)) => if there {
                CompileStep::CreateBinDir
            } else {
                CompileStep::Failed(ClientError::BinaryNotFound { path: self.source_path })
            },
            (CompileStep::CreateBinDir, CompileReply::Performed(ok)) => if ok {
                CompileStep::CopyBinary
            } else {
                CompileStep::Failed(ClientError::BinDirNotCreated)
            },
            (CompileStep::CopyBinary, CompileReply::Performed(ok)) => if !ok {
                CompileStep::Failed(ClientError::BinaryNotCopied)
            } else if self.platform == Platform::Unix {
                CompileStep::SetExecutable
            } else {
                CompileStep::Done
            },
            (CompileStep::SetExecutable, CompileReply::Performed(ok)) => if ok {
                CompileStep::Done
            } else {
                CompileStep::Failed(ClientError::PermissionsNotSet)
            },
            _ => step,
        }
    }

    /// The step to begin with.
    pub fn first(&self) -> (step: CompileStep)
        ensures
            step == CompileStep::FindCached,
    {
        CompileStep::FindCached
    }

    /// The step that follows a reply.
    pub fn next(&self, step: CompileStep, reply: CompileReply) -> (following: CompileStep)
        requires
            reply.answers(step),
        ensures
            following == self.following(step, reply),
    {
        match (step, reply) {
            (CompileStep::FindCached, CompileReply::Found(there)) => {
                if there {
                    CompileStep::Done
                } else {
                    CompileStep::RunMake
                }
            },
            (CompileStep::RunMake, CompileReply::Ran(result)) => {
                match result {
                    MakeResult::NotRun => CompileStep::Failed(ClientError::MakeNotRun),
                    MakeResult::Exited { success, code } => {
                        if success {
                            CompileStep::FindBuilt
                        } else {
                            CompileStep::Failed(ClientError::CompilationFailed { code })
                        }
                    },
                }
            },
            (CompileStep::FindBuilt, CompileReply::Found(there)) => {
                if there {
                    CompileStep::CreateBinDir
                } else {
                    CompileStep::Failed(
                        ClientError::BinaryNotFound { path: self.source_path.clone() },
                    )
                }
            },
            (CompileStep::CreateBinDir, CompileReply::Performed(ok)) => {
                if ok {
                    CompileStep::CopyBinary
                } else {
                    CompileStep::Failed(ClientError::BinDirNotCreated)
                }
            },
            (CompileStep::CopyBinary, CompileReply::Performed(ok)) => {
                if !ok {
                    CompileStep::Failed(ClientError::BinaryNotCopied)
                } else if self.platform == Platform::Unix {
                    CompileStep::SetExecutable
                } else {
                    CompileStep::Done
                }
            },
            (CompileStep::SetExecutable, CompileReply::Performed(ok)) => {
                if ok {
                    CompileStep::Done
                } else {
                    CompileStep::Failed(ClientError::PermissionsNotSet)
                }
            },
            (step, _) => step,
        }
    }

    /// The step that a run is at after some replies.
    pub open spec fn at(self, replies: Seq<CompileReply>) -> CompileStep
        decreases replies.len(),
    {
        if replies.len() == 0 {
            CompileStep::FindCached
        } else {
            self.following(self.at(replies.drop_last()), replies.last())
        }
    }

    /// Whether each reply of a run answers the step that the run was at.
    pub open spec fn is_run(self, replies: Seq<CompileReply>) -> bool {
        forall|i: int|
            0 <= i < replies.len() ==> (#[trigger] replies[i]).answers(self.at(replies.take(i)))
    }
}

/// Checks that the repository is at the commit to build, and plans the build.
pub fn plan_compile(
    kind: ClientKind,
    platform: Platform,
    repo_root: &str,
    output_dir: &str,
    commit: &str,
    current_commit: &str,
) -> (plan: Result<CompilePlan, ClientError>)
    requires
        has_short_form(commit@),
        commit@ != current_commit@ ==> has_short_form(current_commit@),
    ensures
        plan is Ok == (commit@ == current_commit@),
        plan matches Ok(plan) ==> plan.builds(kind, platform, repo_root@, output_dir@, commit@),
        plan matches Err(error) ==> (error matches ClientError::CommitMismatch { expected, current }
            && expected@ == short_form(commit@) && current@ == short_form(current_commit@)),
{
    if !same_text(current_commit, commit) {
        return Err(
            ClientError::CommitMismatch {
                expected: shorten(commit).to_owned(),
                current: shorten(current_commit).to_owned(),
            },
        );
    }
    proof {
        reveal_strlit("build/bin/geth");
        reveal_strlit("target/release/reth");
    }
    Ok(
        CompilePlan {
            kind,
            platform,
            repo_root: repo_root.to_owned(),
            source_path: join(platform, repo_root, kind.to_built_binary()),
            bin_dir: to_bin_dir(platform, output_dir),
            cached_path: to_cached_path(kind, platform, output_dir, commit),
        },
    )
}

/// The log lines for what `make` printed on one of its streams.
pub fn make_log(printed: &[u8]) -> (entries: Vec<String>)
    ensures
        words(entries@) == labelled_lines(MAKE_LABEL@, lines(lossy_text(printed@))),
{
    log_lines(MAKE_LABEL, from_utf8_lossy(printed).as_str())
}

/// In one output directory two builds share a cached binary exactly when they are of the same
/// client and their commits have the same short form. Below a directory that begins with `\\?\`
/// this is so of commits whose short forms hold no separator, as those of all commit hashes; with
/// other commits two builds also share a binary where the names lead to the same parts.
pub proof fn law_cached_path_identifies_build(
    platform: Platform,
    output_dir: Seq<char>,
    kind: ClientKind,
    commit: Seq<char>,
    other_kind: ClientKind,
    other_commit: Seq<char>,
)
    ensures
        ({
            let base = bin_dir(platform, output_dir);
            let share = cached_path(kind, platform, output_dir, commit) == cached_path(
                other_kind,
                platform,
                output_dir,
                other_commit,
            );
            let same = kind == other_kind && short_form(commit) == short_form(other_commit);
            let hashes = is_undivided(short_form(commit)) && is_undivided(short_form(other_commit));
            &&& !platform.is_verbatim(base) || hashes ==> (share <==> same)
            &&& share <==> {
                ||| same
                ||| platform.is_verbatim(base) && descended(
                    base_parts(base),
                    parts(cached_name(kind, commit), true),
                ) == descended(
                    base_parts(base),
                    parts(cached_name(other_kind, other_commit), true),
                )
            }
        }),
{
    let a = cached_name(kind, commit);
    let b = cached_name(other_kind, other_commit);
    let base = bin_dir(platform, output_dir);
    lemma_cached_name_is_relative(kind, platform, commit);
    lemma_cached_name_is_relative(other_kind, platform, other_commit);
    assert(a == b <==> kind == other_kind && short_form(commit) == short_form(other_commit)) by {
        reveal_strlit("geth");
        reveal_strlit("reth");
        assert(a[0] == kind.name()[0] && b[0] == other_kind.name()[0]);
        let head = (kind.name() + "_"@).len() as int;
        assert(a.skip(head) =~= short_form(commit));
        if a == b {
            assert(b.skip(head) =~= short_form(other_commit));
        }
    }
    assert(a.len() > 0 && b.len() > 0) by {
        reveal_strlit("geth");
        reveal_strlit("reth");
    }
    law_joined_tells_leaves_apart(platform, base, a, b);
    if platform.is_verbatim(base) && is_undivided(short_form(commit)) && is_undivided(
        short_form(other_commit),
    ) {
        lemma_cached_name_is_one_part(kind, commit, base_parts(base));
        lemma_cached_name_is_one_part(other_kind, other_commit, base_parts(base));
        assert(base_parts(base).push(a).last() == a);
        assert(base_parts(base).push(b).last() == b);
    }
}

/// Whether no character of a text separates the parts of a path.
pub open spec fn is_undivided(text: Seq<char>) -> bool {
    forall|i: int| 0 <= i < text.len() ==> !divides(#[trigger] text[i], true)
}

proof fn lemma_cached_name_is_one_part(
    kind: ClientKind,
    commit: Seq<char>,
    from: Seq<Seq<char>>,
)
    requires
        is_undivided(short_form(commit)),
    ensures
        descended(from, parts(cached_name(kind, commit), true)) == from.push(
            cached_name(kind, commit),
        ),
{
    reveal_strlit("geth");
    reveal_strlit("reth");
    reveal_strlit("_");
    reveal_strlit(".");
    reveal_strlit("..");
    let name = cached_name(kind, commit);
    assert forall|i: int| 0 <= i < name.len() implies !divides(#[trigger] name[i], true) by {
        if i >= 5 {
            assert(name[i] == short_form(commit)[i - 5]);
        }
    }
    lemma_name_is_one_part(name);
    assert(name[0] == kind.name()[0]);
    assert(!is_dots(name));
    let way = seq![name];
    assert(way.drop_last() =~= seq![]);
    assert(descended(from, way.drop_last()) == from);
    assert(way.last() == name);
}

/// A build that succeeds found the binary in the cache, or else had every step succeed: `make`,
/// the search for its binary, the directory, the copy and, on Unix, the permissions. A run that
/// had these replies succeeds.
pub proof fn law_compile_done(plan: CompilePlan, replies: Seq<CompileReply>)
    requires
        plan.is_run(replies),
    ensures
        plan.at(replies) is Done <==> {
            ||| replies == seq![CompileReply::Found(true)]
            ||| {
                &&& replies.len() == if plan.platform == Platform::Unix { 6int } else { 5 }
                &&& replies[0] == CompileReply::Found(false)
                &&& replies[1] matches CompileReply::Ran(MakeResult::Exited { success, .. })
                &&& success
                &&& replies[2] == CompileReply::Found(true)
                &&& forall|i: int|
                    3 <= i < replies.len() ==> #[trigger] replies[i] == CompileReply::Performed(true)
            }
        },
{
    law_compile_ends(plan, replies);
    assert(replies.take(replies.len() as int) =~= replies);
    if replies.len() >= 1 {
        lemma_compile_advances(plan, replies, 0);
    }
    if replies.len() >= 2 {
        lemma_compile_advances(plan, replies, 1);
    }
    if replies.len() >= 3 {
        lemma_compile_advances(plan, replies, 2);
    }
    if replies.len() >= 4 {
        lemma_compile_advances(plan, replies, 3);
    }
    if replies.len() >= 5 {
        lemma_compile_advances(plan, replies, 4);
    }
    if replies.len() >= 6 {
        lemma_compile_advances(plan, replies, 5);
    }
    if replies.len() == 1 && replies[0] == CompileReply::Found(true) {
        assert(replies =~= seq![CompileReply::Found(true)]);
    }
}

/// A build ends: no run has more than six replies.
pub proof fn law_compile_ends(plan: CompilePlan, replies: Seq<CompileReply>)
    requires
        plan.is_run(replies),
    ensures
        replies.len() <= 6,
{
    lemma_compile_steps_left(plan, replies, replies.len() as int);
}

/// How many replies may still come at a step, at most.
spec fn steps_left(step: CompileStep) -> int {
    match step {
        CompileStep::FindCached => 6,
        CompileStep::RunMake => 5,
        CompileStep::FindBuilt => 4,
        CompileStep::CreateBinDir => 3,
        CompileStep::CopyBinary => 2,
        CompileStep::SetExecutable => 1,
        CompileStep::Done | CompileStep::Failed(_) => 0,
    }
}

proof fn lemma_compile_steps_left(plan: CompilePlan, replies: Seq<CompileReply>, i: int)
    requires
        plan.is_run(replies),
        0 <= i <= replies.len(),
    ensures
        i + steps_left(plan.at(replies.take(i))) <= 6,
    decreases i,
{
    if i > 0 {
        lemma_compile_steps_left(plan, replies, i - 1);
        lemma_compile_advances(plan, replies, i - 1);
    }
}

/// The first reply that reports a failure ends the run with the error for it, and an error comes
/// from no other reply.
pub proof fn law_compile_fails_on_failure(plan: CompilePlan, step: CompileStep, reply: CompileReply)
    requires
        reply.answers(step),
    ensures
        plan.following(step, reply) is Failed <==> {
            ||| step is FindBuilt && reply == CompileReply::Found(false)
            ||| reply == CompileReply::Ran(MakeResult::NotRun)
            ||| (reply matches CompileReply::Ran(MakeResult::Exited { success, .. }) && !success)
            ||| reply == CompileReply::Performed(false)
        },
{
}

/// One reply takes a run from one step to the next.
proof fn lemma_compile_advances(plan: CompilePlan, replies: Seq<CompileReply>, i: int)
    requires
        plan.is_run(replies),
        0 <= i < replies.len(),
    ensures
        replies[i].answers(plan.at(replies.take(i))),
        plan.at(replies.take(i + 1)) == plan.following(plan.at(replies.take(i)), replies[i]),
{
    assert(replies.take(i + 1).drop_last() =~= replies.take(i));
    assert(replies.take(i + 1).last() == replies[i]);
}

/// The steps of a build come in one order, each after one reply: the search of the cache, `make`,
/// the search for its binary, the directory, the copy and, on Unix, the permissions.
pub proof fn law_compile_steps_in_order(plan: CompilePlan, replies: Seq<CompileReply>)
    requires
        plan.is_run(replies),
    ensures
        plan.at(replies) is FindCached ==> replies.len() == 0,
        plan.at(replies) is RunMake ==> replies.len() == 1,
        plan.at(replies) is FindBuilt ==> replies.len() == 2,
        plan.at(replies) is CreateBinDir ==> replies.len() == 3,
        plan.at(replies) is CopyBinary ==> replies.len() == 4,
        plan.at(replies) is SetExecutable ==> replies.len() == 5 && plan.platform == Platform::Unix,
        replies.len() == 0 ==> plan.at(replies) is FindCached,
{
    assert(replies.take(replies.len() as int) =~= replies);
    lemma_compile_step_number(plan, replies, replies.len() as int);
}

spec fn step_number(plan: CompilePlan, step: CompileStep, n: int) -> bool {
    match step {
        CompileStep::FindCached => n == 0,
        CompileStep::RunMake => n == 1,
        CompileStep::FindBuilt => n == 2,
        CompileStep::CreateBinDir => n == 3,
        CompileStep::CopyBinary => n == 4,
        CompileStep::SetExecutable => n == 5 && plan.platform == Platform::Unix,
        CompileStep::Done | CompileStep::Failed(_) => n > 0,
    }
}

proof fn lemma_compile_step_number(plan: CompilePlan, replies: Seq<CompileReply>, i: int)
    requires
        plan.is_run(replies),
        0 <= i <= replies.len(),
    ensures
        step_number(plan, plan.at(replies.take(i)), i),
    decreases i,
{
    if i > 0 {
        lemma_compile_step_number(plan, replies, i - 1);
        lemma_compile_advances(plan, replies, i - 1);
    }
}

/// A build fails with the error for what failed last, and by nothing else: `make` was not run or
/// did not succeed, its binary is not there, or the directory, the copy or the permissions were
/// not made.
pub proof fn law_compile_failure_names_cause(
    plan: CompilePlan,
    replies: Seq<CompileReply>,
    error: ClientError,
)
    requires
        plan.is_run(replies),
    ensures
        plan.at(replies) == CompileStep::Failed(error) <==> {
            ||| replies.len() == 2 && replies[1] == CompileReply::Ran(MakeResult::NotRun) && error
                == ClientError::MakeNotRun
            ||| {
                &&& replies.len() == 2
                &&& replies[1] matches CompileReply::Ran(MakeResult::Exited { success, code })
                &&& !success
                &&& error == (ClientError::CompilationFailed { code })
            }
            ||| replies.len() == 3 && replies[2] == CompileReply::Found(false) && error == (
            ClientError::BinaryNotFound { path: plan.source_path })
            ||| replies.len() == 4 && replies[3] == CompileReply::Performed(false) && error
                == ClientError::BinDirNotCreated
            ||| replies.len() == 5 && replies[4] == CompileReply::Performed(false) && error
                == ClientError::BinaryNotCopied
            ||| replies.len() == 6 && replies[5] == CompileReply::Performed(false) && error
                == ClientError::PermissionsNotSet
        },
{
    let n = replies.len() as int;
    assert(replies.take(n) =~= replies);
    if n > 0 {
        lemma_compile_step_number(plan, replies, n - 1);
        lemma_compile_advances(plan, replies, n - 1);
    }
}

/// A run goes on as [`CompilePlan::next`] says, from the step that [`CompilePlan::first`] says.
pub proof fn law_compile_run_is_what_next_says(
    plan: CompilePlan,
    replies: Seq<CompileReply>,
    reply: CompileReply,
    begun: CompileStep,
    following: CompileStep,
)
    requires
        plan.is_run(replies.push(reply)),
        call_ensures(CompilePlan::first, (&plan,), begun),
        call_ensures(CompilePlan::next, (&plan, plan.at(replies), reply), following),
    ensures
        begun == plan.at(seq![]),
        following == plan.at(replies.push(reply)),
{
    let all = replies.push(reply);
    let n = replies.len() as int;
    lemma_compile_advances(plan, all, n);
    assert(all.take(n) =~= replies);
    assert(all.take(n + 1) =~= all);
    assert(all[n] == reply);
}

/// A build runs `make` with the target of the client: `geth` for geth, `release` for reth.
pub proof fn law_make_command_names_target(plan: CompilePlan, command: CommandLine)
    requires
        call_ensures(CompilePlan::make_command, (&plan,), command),
    ensures
        command.program@ == "make"@,
        command.args@.len() == 1,
        plan.kind == ClientKind::Geth ==> command.args@[0]@ == "geth"@,
        plan.kind == ClientKind::Reth ==> command.args@[0]@ == "release"@,
{
    assert(command.program@ == command@.program);
    assert(words(command.args@) == command@.args);
    assert(words(command.args@).len() == 1);
    assert(words(command.args@)[0] == command.args@[0]@);
}

/// What is logged of `make` are the lines of its output as text, behind the label of `make`.
pub proof fn law_make_log_holds_output(printed: &[u8], entries: Vec<String>)
    requires
        call_ensures(make_log, (printed,), entries),
    ensures
        entries@.len() == labelled_lines("[MAKE]"@, lines(lossy_text(printed@))).len(),
        forall|i: int|
            0 <= i < entries@.len() ==> (#[trigger] entries@[i])@ == labelled_lines(
                "[MAKE]"@,
                lines(lossy_text(printed@)),
            )[i],
{
    assert(words(entries@).len() == entries@.len());
    assert forall|i: int| 0 <= i < entries@.len() implies (#[trigger] entries@[i])@
        == labelled_lines("[MAKE]"@, lines(lossy_text(printed@)))[i] by {
        assert(words(entries@)[i] == entries@[i]@);
    }
}

/// The owner of a cached binary may read, write and run it, all others may read and run it.
pub proof fn law_cached_binary_can_be_run()
    ensures
        EXECUTABLE_MODE == 7 * 64 + 5 * 8 + 5,
{
}

/// A cached binary stands in the directory `bin` below the output directory, under the name of the
/// client and the first eight bytes of the commit.
pub proof fn law_cached_path_is_below_bin(
    kind: ClientKind,
    platform: Platform,
    output_dir: &str,
    commit: &str,
    path: String,
)
    requires
        has_short_form(commit@),
        call_ensures(to_cached_path, (kind, platform, output_dir, commit), path),
    ensures
        encode_utf8(short_form(commit@)) == encode_utf8(commit@).subrange(0, 8),
        kind == ClientKind::Geth ==> path@ == joined(
            platform,
            joined(platform, output_dir@, "bin"@),
            "geth_"@ + short_form(commit@),
        ),
        kind == ClientKind::Reth ==> path@ == joined(
            platform,
            joined(platform, output_dir@, "bin"@),
            "reth_"@ + short_form(commit@),
        ),
{
    law_short_form_spells_eight_bytes(commit@);
    lemma_cached_name(kind, commit@);
}

/// The file name of a cached binary, spelled out.
pub proof fn lemma_cached_name(kind: ClientKind, commit: Seq<char>)
    ensures
        kind == ClientKind::Geth ==> cached_name(kind, commit) == "geth_"@ + short_form(commit),
        kind == ClientKind::Reth ==> cached_name(kind, commit) == "reth_"@ + short_form(commit),
{
    reveal_strlit("geth");
    reveal_strlit("reth");
    reveal_strlit("_");
    reveal_strlit("geth_");
    reveal_strlit("reth_");
    assert("geth_"@ =~= "geth"@ + "_"@);
    assert("reth_"@ =~= "reth"@ + "_"@);
}

/// A build is planned exactly when the repository is at the commit. `make` runs in the repository,
/// its binary is looked for where the client's sources put it, and the directory that is made is
/// the one that the cached binary stands in: `bin` below the output directory. A refusal names the
/// first eight bytes of both commits.
pub proof fn law_plan_fits_together(
    kind: ClientKind,
    platform: Platform,
    repo_root: &str,
    output_dir: &str,
    commit: &str,
    current_commit: &str,
    plan: Result<CompilePlan, ClientError>,
)
    requires
        has_short_form(commit@),
        commit@ != current_commit@ ==> has_short_form(current_commit@),
        call_ensures(
            plan_compile,
            (kind, platform, repo_root, output_dir, commit, current_commit),
            plan,
        ),
    ensures
        plan is Ok <==> commit@ == current_commit@,
        plan matches Ok(plan) ==> {
            let name = match kind {
                ClientKind::Geth => "geth_"@,
                ClientKind::Reth => "reth_"@,
            } + short_form(commit@);
            &&& plan.kind == kind
            &&& plan.platform == platform
            &&& plan.repo_root@ == repo_root@
            &&& kind == ClientKind::Geth ==> plan.source_path@ == joined(
                platform,
                repo_root@,
                "build/bin/geth"@,
            )
            &&& kind == ClientKind::Reth ==> plan.source_path@ == joined(
                platform,
                repo_root@,
                "target/release/reth"@,
            )
            &&& plan.bin_dir@ == joined(platform, output_dir@, "bin"@)
            &&& plan.cached_path@ == joined(platform, plan.bin_dir@, name)
            &&& !platform.is_verbatim(plan.bin_dir@) ==> {
                &&& plan.cached_path@.take(plan.bin_dir@.len() as int) == plan.bin_dir@
                &&& plan.cached_path@.skip(plan.cached_path@.len() - name.len()) == name
                &&& plan.cached_path@.len() <= plan.bin_dir@.len() + 1 + name.len()
            }
        },
        encode_utf8(short_form(commit@)) == encode_utf8(commit@).subrange(0, 8),
        plan matches Err(error) ==> (error matches ClientError::CommitMismatch { expected, current }
            && encode_utf8(expected@) == encode_utf8(commit@).subrange(0, 8) && encode_utf8(
            current@,
        ) == encode_utf8(current_commit@).subrange(0, 8)),
{
    law_short_form_spells_eight_bytes(commit@);
    lemma_cached_name(kind, commit@);
    match plan {
        Ok(plan) => {
            let name = cached_name(kind, commit@);
            assert(plan.bin_dir@ == joined(platform, output_dir@, "bin"@));
            assert(plan.cached_path@ == joined(platform, plan.bin_dir@, name));
            if !platform.is_verbatim(plan.bin_dir@) {
                reveal_strlit("geth");
                reveal_strlit("reth");
                assert(name[0] == kind.name()[0]);
                law_joined_keeps_base_and_leaf(platform, plan.bin_dir@, name);
            }
        },
        Err(_) => law_short_form_spells_eight_bytes(current_commit@),
    }
}

/// Every outcome of a step can be told: whether a file is there or not, whatever came of `make`, and
/// whether a change was made or not. Nothing is asked once a build is over.
pub proof fn law_compile_hears_every_outcome(step: CompileStep, reply: CompileReply)
    ensures
        step is FindCached || step is FindBuilt ==> (reply.answers(step) <==> reply is Found),
        step is RunMake ==> (reply.answers(step) <==> reply is Ran),
        step is CreateBinDir || step is CopyBinary || step is SetExecutable ==> (reply.answers(step)
            <==> reply is Performed),
        step is Done || step is Failed ==> !reply.answers(step),
{
}

/// Nothing said yet is a run, and a run goes on with every reply that answers the step it is at, and
/// with no other.
pub proof fn law_compile_run_goes_on_by_answers(
    plan: CompilePlan,
    replies: Seq<CompileReply>,
    reply: CompileReply,
)
    ensures
        plan.is_run(Seq::<CompileReply>::empty()),
        plan.is_run(replies.push(reply)) <==> plan.is_run(replies) && reply.answers(
            plan.at(replies),
        ),
{
    let all = replies.push(reply);
    let n = replies.len() as int;
    assert(all.take(n) =~= replies);
    assert(all[n] == reply);
    if plan.is_run(all) {
        assert forall|i: int| 0 <= i < replies.len() implies (#[trigger] replies[i]).answers(
            plan.at(replies.take(i)),
        ) by {
            assert(all[i] == replies[i]);
            assert(all.take(i) =~= replies.take(i));
        }
        assert(all[n].answers(plan.at(all.take(n))));
    }
    if plan.is_run(replies) && reply.answers(plan.at(replies)) {
        assert forall|i: int| 0 <= i < all.len() implies (#[trigger] all[i]).answers(
            plan.at(all.take(i)),
        ) by {
            if i < n {
                assert(all[i] == replies[i]);
                assert(all.take(i) =~= replies.take(i));
            }
        }
    }
}

} // verus!
