//! Stopping a node.
//!
//! The caller performs each step and hands back what came of it; [`StopPlan::next`] says what is
//! to be done then.

use crate::command::{CommandLine, CommandLineView};
use crate::error::ClientError;
use crate::launch::{law_running_means_spawned, LaunchPlan, LaunchReply, LaunchStep};
use crate::outside::{from_utf8_lossy, lossy_text};
use crate::path::Platform;
use crate::text::{
    contains, decimal, law_decimal_is_faithful, occurs, occurs_at, push_word, reads_as, to_decimal,
    words,
};
use vstd::prelude::*;

verus! {

/// Whom a signal goes to.
#[derive(Clone, Copy, Debug, PartialEq, Eq, Structural)]
pub enum SignalTarget {
    /// All processes of the group with this id.
    Group(i32),
    /// The process with this id.
    Process(i32),
}

/// Which process is to be stopped, and on what system.
#[derive(Clone, Copy, Debug)]
pub struct StopPlan {
    pub pid: u32,
    pub platform: Platform,
    /// Whom to signal, where there are signals.
    pub target: SignalTarget,
}

/// What is to be done next.
pub enum StopStep {
    /// Look whether the process has exited, without waiting.
    CheckStatus,
    /// Send SIGINT to `target`.
    Interrupt,
    /// Run `taskkill`.
    RunTaskkill,
    /// Wait until the process exits.
    Await,
    /// Nothing: the node is stopped.
    Stopped,
    /// Nothing: the node could not be stopped.
    Failed(ClientError),
}

/// What can be told of a process without waiting.
pub enum ProcessStatus {
    Exited,
    Running,
    Unknown { reason: String },
}

/// What came of sending a signal.
pub enum SignalResult {
    Sent,
    /// There is no such process or group any more.
    NoSuchTarget,
    Refused { reason: String },
}

/// What `taskkill` reported.
pub struct TaskkillReport {
    pub success: bool,
    /// What it printed as an error.
    pub stderr: String,
}

impl TaskkillReport {
    /// The report that an exit status and the bytes on the error stream make.
    pub fn new(success: bool, stderr: &[u8]) -> (report: TaskkillReport)
        ensures
            report.success == success,
            report.stderr@ == lossy_text(stderr@),
    {
        TaskkillReport { success, stderr: from_utf8_lossy(stderr) }
    }

    /// Whether the process is gone, be it killed or not found.
    pub open spec fn is_gone(self) -> bool {
        ||| self.success
        ||| occurs(self.stderr@, "not found"@)
        ||| occurs(self.stderr@, "not exist"@)
    }

    /// Whether the process is gone, be it killed or not found.
    pub fn gone(&self) -> (gone: bool)
        ensures
            gone == self.is_gone(),
    {
        self.success || contains(self.stderr.as_str(), "not found") || contains(
            self.stderr.as_str(),
            "not exist",
        )
    }
}

/// What came of a step.
pub enum StopReply {
    Status(ProcessStatus),
    Signalled(SignalResult),
    /// The report of `taskkill`, unless it could not be run.
    Taskkill(Option<TaskkillReport>),
    /// The wait is over, with or without the exit status of the process.
    Awaited,
}

impl StopReply {
    /// Whether this is a reply to the step.
    pub open spec fn answers(self, step: StopStep) -> bool {
        match step {
            StopStep::CheckStatus => self is Status,
            StopStep::Interrupt => self is Signalled,
            StopStep::RunTaskkill => self is Taskkill,
            StopStep::Await => self is Awaited,
            StopStep::Stopped | StopStep::Failed(_) => false,
        }
    }
}

/// A process id as the system takes it: the same 32 bits, read as a signed number.
pub open spec fn signed_id(pid: u32) -> i32 {
    if pid < 0x8000_0000 {
        pid as i32
    } else {
        (pid - 0x1_0000_0000) as i32
    }
}

/// A process id as the system takes it.
pub fn to_signed_id(pid: u32) -> (id: i32)
    ensures
        id == signed_id(pid),
{
    if pid < 0x8000_0000 {
        pid as i32
    } else {
        (pid as i64 - 0x1_0000_0000) as i32
    }
}

impl StopPlan {
    /// The plan to stop a process. One that leads a process group of its own is signalled together
    /// with that group, any other alone.
    pub open spec fn of(pid: u32, platform: Platform, own_group: bool) -> StopPlan {
        StopPlan {
            pid,
            platform,
            target: if own_group {
                SignalTarget::Group(signed_id(pid))
            } else {
                SignalTarget::Process(signed_id(pid))
            },
        }
    }

    /// The plan to stop a process.
    pub fn new(pid: u32, platform: Platform, own_group: bool) -> (plan: StopPlan)
        ensures
            plan == StopPlan::of(pid, platform, own_group),
    {
        let id: i32 = to_signed_id(pid);
        let target = if own_group {
            SignalTarget::Group(id)
        } else {
            SignalTarget::Process(id)
        };
        StopPlan { pid, platform, target }
    }

    /// The step that follows a reply.
    pub open spec fn following(self, step: StopStep, reply: StopReply) -> StopStep {
        match reply {
            StopReply::Status(status) => match status {
                ProcessStatus::Exited => StopStep::Stopped,
                ProcessStatus::Running => if self.platform == Platform::Unix {
                    StopStep::Interrupt
                } else {
                    StopStep::RunTaskkill
                },
                ProcessStatus::Unknown { reason } => StopStep::Failed(
                    ClientError::StatusUnknown { reason },
                ),
            },
            StopReply::Signalled(result) => match result {
                SignalResult::Sent | SignalResult::NoSuchTarget => StopStep::Await,
                SignalResult::Refused { reason } => StopStep::Failed(
                    ClientError::SignalNotSent { pid: self.pid, reason },
                ),
            },
            StopReply::Taskkill(None) => StopStep::Failed(ClientError::TaskkillNotRun),
            StopReply::Taskkill(Some(report)) => if report.is_gone() {
                StopStep::Await
            } else {
                StopStep::Failed(ClientError::NotKilled { pid: self.pid, stderr: report.stderr })
            },
            StopReply::Awaited => StopStep::Stopped,
        }
    }

    /// The step to begin with.
    pub fn first(&self) -> (step: StopStep)
        ensures
            step == StopStep::CheckStatus,
    {
        StopStep::CheckStatus
    }

    /// The step that follows a reply.
    pub fn next(&self, step: StopStep, reply: StopReply) -> (following: StopStep)
        requires
            reply.answers(step),
        ensures
            following == self.following(step, reply),
    {
        match reply {
            StopReply::Status(status) => match status {
                ProcessStatus::Exited => StopStep::Stopped,
                ProcessStatus::Running => {
                    if self.platform == Platform::Unix {
                        StopStep::Interrupt
                    } else {
                        StopStep::RunTaskkill
                    }
                },
                ProcessStatus::Unknown { reason } => StopStep::Failed(
                    ClientError::StatusUnknown { reason },
                ),
            },
            StopReply::Signalled(result) => match result {
                SignalResult::Sent | SignalResult::NoSuchTarget => StopStep::Await,
                SignalResult::Refused { reason } => StopStep::Failed(
                    ClientError::SignalNotSent { pid: self.pid, reason },
                ),
            },
            StopReply::Taskkill(None) => StopStep::Failed(ClientError::TaskkillNotRun),
            StopReply::Taskkill(Some(report)) => {
                if report.gone() {
                    StopStep::Await
                } else {
                    StopStep::Failed(
                        ClientError::NotKilled { pid: self.pid, stderr: report.stderr },
                    )
                }
            },
            StopReply::Awaited => StopStep::Stopped,
        }
    }

    /// The command that kills the process where there are no signals.
    pub fn taskkill(&self) -> (command: CommandLine)
        ensures
            command@ == (CommandLineView {
                program: "taskkill"@,
                args: seq!["/PID"@, decimal(self.pid as nat), "/F"@],
            }),
    {
        let mut args: Vec<String> = Vec::new();
        assert(words(args@) =~= seq![]);
        push_word(&mut args, "/PID");
        push_word(&mut args, to_decimal(self.pid as u64).as_str());
        push_word(&mut args, "/F");
        assert(words(args@) =~= seq!["/PID"@, decimal(self.pid as nat), "/F"@]);
        CommandLine { program: "taskkill".to_owned(), args }
    }

    /// The step that a run is at after some replies.
    pub open spec fn at(self, replies: Seq<StopReply>) -> StopStep
        decreases replies.len(),
    {
        if replies.len() == 0 {
            StopStep::CheckStatus
        } else {
            self.following(self.at(replies.drop_last()), replies.last())
        }
    }

    /// Whether each reply of a run answers the step that the run was at.
    pub open spec fn is_run(self, replies: Seq<StopReply>) -> bool {
        forall|i: int|
            0 <= i < replies.len() ==> (#[trigger] replies[i]).answers(self.at(replies.take(i)))
    }
}

proof fn lemma_stop_advances(plan: StopPlan, replies: Seq<StopReply>, i: int)
    requires
        plan.is_run(replies),
        0 <= i < replies.len(),
    ensures
        replies[i].answers(plan.at(replies.take(i))),
        plan.at(replies.take(i + 1)) == plan.following(plan.at(replies.take(i)), replies[i]),
{
    assert(replies.take(i + 1).drop_last() =~= replies.take(i));
    assert(replies.take(i + 1).last() == replies[i]);
}

/// A node counts as stopped exactly when it had exited before anything was done, or was running,
/// was signalled (or found gone) and was then awaited. Stopping takes three replies at most.
pub proof fn law_stopped_means_exited_or_awaited(plan: StopPlan, replies: Seq<StopReply>)
    requires
        plan.is_run(replies),
    ensures
        replies.len() <= 3,
        plan.at(replies) is Stopped <==> {
            ||| replies.len() == 1 && replies[0] == StopReply::Status(ProcessStatus::Exited)
            ||| {
                &&& replies.len() == 3
                &&& replies[0] == StopReply::Status(ProcessStatus::Running)
                &&& {
                    ||| replies[1] == StopReply::Signalled(SignalResult::Sent)
                    ||| replies[1] == StopReply::Signalled(SignalResult::NoSuchTarget)
                    ||| (replies[1] matches StopReply::Taskkill(Some(report)) && report.is_gone())
                }
            }
        },
{
    let n = replies.len() as int;
    assert(replies.take(n) =~= replies);
    if n >= 1 {
        lemma_stop_advances(plan, replies, 0);
    }
    if n >= 2 {
        lemma_stop_advances(plan, replies, 1);
    }
    if n >= 3 {
        lemma_stop_advances(plan, replies, 2);
    }
    if n >= 4 {
        lemma_stop_advances(plan, replies, 3);
    }
}

/// Signals go out on Unix only, and `taskkill` runs only elsewhere; neither is used on a process
/// that was found to have exited.
pub proof fn law_kill_fits_platform(plan: StopPlan, replies: Seq<StopReply>)
    requires
        plan.is_run(replies),
    ensures
        plan.at(replies) is Interrupt ==> plan.platform == Platform::Unix,
        plan.at(replies) is RunTaskkill ==> plan.platform == Platform::Other,
        (plan.at(replies) is Interrupt || plan.at(replies) is RunTaskkill) ==> replies.len() == 1
            && replies[0] == StopReply::Status(ProcessStatus::Running),
{
    let n = replies.len() as int;
    assert(replies.take(n) =~= replies);
    law_stopped_means_exited_or_awaited(plan, replies);
    if n >= 1 {
        lemma_stop_advances(plan, replies, 0);
    }
    if n >= 2 {
        lemma_stop_advances(plan, replies, 1);
    }
    if n >= 3 {
        lemma_stop_advances(plan, replies, 2);
    }
}

/// On Unix a running node is sent SIGINT, is awaited once that is done, and counts as stopped
/// after the wait.
pub proof fn law_running_node_is_interrupted(plan: StopPlan)
    requires
        plan.platform == Platform::Unix,
    ensures
        ({
            let running = StopReply::Status(ProcessStatus::Running);
            let sent = StopReply::Signalled(SignalResult::Sent);
            &&& plan.at(seq![]) == StopStep::CheckStatus
            &&& plan.at(seq![running]) == StopStep::Interrupt
            &&& plan.at(seq![running, sent]) == StopStep::Await
            &&& plan.at(seq![running, sent, StopReply::Awaited]) == StopStep::Stopped
        }),
{
    let running = StopReply::Status(ProcessStatus::Running);
    let sent = StopReply::Signalled(SignalResult::Sent);
    let one = seq![running];
    let two = seq![running, sent];
    let three = seq![running, sent, StopReply::Awaited];
    assert(one.drop_last() =~= seq![]);
    assert(two.drop_last() =~= one);
    assert(three.drop_last() =~= two);
    assert(plan.at(one) == StopStep::Interrupt);
    assert(plan.at(two) == StopStep::Await);
}

/// The signal reaches the process that was started: the plan to stop a node that runs under an id
/// names the process that was spawned with that id, or the group which that process leads where
/// it was started as the leader of one.
pub proof fn law_signal_reaches_started_process(
    launch: LaunchPlan,
    replies: Seq<LaunchReply>,
    pid: u32,
    platform: Platform,
)
    requires
        launch.is_run(replies),
        launch.at(replies) == LaunchStep::Running(pid),
    ensures
        replies.contains(LaunchReply::Spawned(Some(pid))),
        launch.own_group ==> StopPlan::of(pid, platform, launch.own_group).target
            == SignalTarget::Group(signed_id(pid)),
        !launch.own_group ==> StopPlan::of(pid, platform, launch.own_group).target
            == SignalTarget::Process(signed_id(pid)),
        pid < 0x8000_0000 ==> signed_id(pid) == pid,
{
    law_running_means_spawned(launch, replies, pid);
    assert(replies.len() > 0);
    if launch.settle_secs == 0 {
        assert(replies[replies.len() - 1] == LaunchReply::Spawned(Some(pid)));
    } else {
        assert(replies[replies.len() - 2] == LaunchReply::Spawned(Some(pid)));
    }
}

/// Whether the words of `taskkill` say that there is no such process, as they hold `not found` or
/// `not exist`.
pub open spec fn says_gone(stderr: Seq<char>) -> bool {
    ||| exists|a: Seq<char>, b: Seq<char>| stderr == #[trigger] (a + "not found"@ + b)
    ||| exists|a: Seq<char>, b: Seq<char>| stderr == #[trigger] (a + "not exist"@ + b)
}

/// `taskkill` leaves no process exactly when it succeeded or says that there is none.
pub proof fn law_gone_means_killed_or_not_there(report: TaskkillReport, gone: bool)
    requires
        call_ensures(TaskkillReport::gone, (&report,), gone),
    ensures
        gone <==> report.success || says_gone(report.stderr@),
        report.is_gone() == gone,
{
    lemma_occurs_in_between(report.stderr@, "not found"@);
    lemma_occurs_in_between(report.stderr@, "not exist"@);
}

proof fn lemma_occurs_in_between(text: Seq<char>, needle: Seq<char>)
    ensures
        occurs(text, needle) <==> exists|a: Seq<char>, b: Seq<char>|
            text == #[trigger] (a + needle + b),
{
    if occurs(text, needle) {
        let at = choose|at: int| occurs_at(text, needle, at);
        let (a, b) = (text.take(at), text.skip(at + needle.len()));
        assert(text =~= a + needle + b);
    }
    if exists|a: Seq<char>, b: Seq<char>| text == #[trigger] (a + needle + b) {
        let (a, b) = choose|a: Seq<char>, b: Seq<char>| text == #[trigger] (a + needle + b);
        let at = a.len() as int;
        assert(text.subrange(at, at + needle.len()) =~= needle);
        assert(occurs_at(text, needle, at));
    }
}

/// A report of `taskkill` holds what it was made of: the verdict, and the words as text.
pub proof fn law_report_holds_words(success: bool, stderr: &[u8], report: TaskkillReport)
    requires
        call_ensures(TaskkillReport::new, (success, stderr), report),
    ensures
        report.success == success,
        report.stderr@ == lossy_text(stderr@),
{
}

/// `taskkill` is told the very process, and to kill it by force.
pub proof fn law_taskkill_names_process(plan: StopPlan, command: CommandLine)
    requires
        call_ensures(StopPlan::taskkill, (&plan,), command),
    ensures
        command.program@ == "taskkill"@,
        command.args@.len() == 3,
        command.args@[0]@ == "/PID"@,
        reads_as(command.args@[1]@, 10, plan.pid as nat),
        command.args@[2]@ == "/F"@,
{
    law_decimal_is_faithful(plan.pid as nat, 0);
    assert(command.program@ == command@.program);
    assert(words(command.args@) == command@.args);
    assert(words(command.args@).len() == 3);
    assert(words(command.args@)[0] == command.args@[0]@);
    assert(words(command.args@)[1] == command.args@[1]@);
    assert(words(command.args@)[2] == command.args@[2]@);
}

/// The plan to stop a process names that process. The signal goes to the group of the same number
/// where the process leads one, and to the process itself where it does not.
pub proof fn law_plan_names_process(pid: u32, platform: Platform, own_group: bool, plan: StopPlan)
    requires
        call_ensures(StopPlan::new, (pid, platform, own_group), plan),
    ensures
        plan.pid == pid,
        plan.platform == platform,
        own_group <==> plan.target is Group,
        ({
            let id = match plan.target {
                SignalTarget::Group(id) => id as int,
                SignalTarget::Process(id) => id as int,
            };
            id == pid || id == pid - 0x1_0000_0000
        }),
        pid <= 0x7fff_ffff ==> (plan.target == SignalTarget::Group(pid as i32) || plan.target
            == SignalTarget::Process(pid as i32)),
{
}

/// What is done to stop a node follows from the replies alone. First its status is looked at. A
/// running node is interrupted on Unix, and killed by `taskkill` elsewhere. It is awaited once that
/// reached it or found it gone, and not otherwise.
pub proof fn law_stop_steps_follow_replies(plan: StopPlan, replies: Seq<StopReply>)
    requires
        plan.is_run(replies),
    ensures
        plan.at(replies) is CheckStatus <==> replies.len() == 0,
        plan.at(replies) is Interrupt <==> replies.len() == 1 && plan.platform == Platform::Unix
            && replies[0] == StopReply::Status(ProcessStatus::Running),
        plan.at(replies) is RunTaskkill <==> replies.len() == 1 && plan.platform == Platform::Other
            && replies[0] == StopReply::Status(ProcessStatus::Running),
        plan.at(replies) is Await <==> {
            &&& replies.len() == 2
            &&& {
                ||| replies[1] == StopReply::Signalled(SignalResult::Sent)
                ||| replies[1] == StopReply::Signalled(SignalResult::NoSuchTarget)
                ||| (replies[1] matches StopReply::Taskkill(Some(report)) && (report.success
                    || says_gone(report.stderr@)))
            }
        },
        plan.at(replies) is Stopped <==> {
            ||| replies.len() == 1 && replies[0] == StopReply::Status(ProcessStatus::Exited)
            ||| replies.len() == 3
        },
{
    lemma_stop_run(plan, replies);
}

/// A node is not stopped, and why, follows from the last reply: its status is unknown, the signal
/// was refused, or `taskkill` could not be run or killed nothing that was there.
pub proof fn law_stop_failure_names_cause(
    plan: StopPlan,
    replies: Seq<StopReply>,
    error: ClientError,
)
    requires
        plan.is_run(replies),
    ensures
        plan.at(replies) == StopStep::Failed(error) <==> {
            ||| {
                &&& replies.len() == 1
                &&& replies[0] matches StopReply::Status(ProcessStatus::Unknown { reason })
                &&& error == (ClientError::StatusUnknown { reason })
            }
            ||| {
                &&& replies.len() == 2
                &&& replies[1] matches StopReply::Signalled(SignalResult::Refused { reason })
                &&& error == (ClientError::SignalNotSent { pid: plan.pid, reason })
            }
            ||| replies.len() == 2 && replies[1] == StopReply::Taskkill(None) && error
                == ClientError::TaskkillNotRun
            ||| {
                &&& replies.len() == 2
                &&& replies[1] matches StopReply::Taskkill(Some(report))
                &&& !report.success && !says_gone(report.stderr@)
                &&& error == (ClientError::NotKilled { pid: plan.pid, stderr: report.stderr })
            }
        },
{
    lemma_stop_run(plan, replies);
}

/// All that a run of at most three replies is made of.
proof fn lemma_stop_run(plan: StopPlan, replies: Seq<StopReply>)
    requires
        plan.is_run(replies),
    ensures
        replies.len() <= 3,
        replies.len() == 0 ==> plan.at(replies) == StopStep::CheckStatus,
        replies.len() >= 1 ==> replies[0] is Status,
        replies.len() >= 2 ==> replies[0] == StopReply::Status(ProcessStatus::Running),
        replies.len() >= 2 && plan.platform == Platform::Unix ==> replies[1] is Signalled,
        replies.len() >= 2 && plan.platform == Platform::Other ==> replies[1] is Taskkill,
        replies.len() >= 1 ==> plan.at(replies) == plan.following(
            StopStep::CheckStatus,
            replies.last(),
        ),
        replies.len() == 3 ==> replies[2] is Awaited,
        forall|report: TaskkillReport| #[trigger]
            report.is_gone() <==> report.success || says_gone(report.stderr@),
{
    law_stopped_means_exited_or_awaited(plan, replies);
    let n = replies.len() as int;
    assert(replies.take(n) =~= replies);
    if n >= 1 {
        lemma_stop_advances(plan, replies, 0);
    }
    if n >= 2 {
        lemma_stop_advances(plan, replies, 1);
    }
    if n >= 3 {
        lemma_stop_advances(plan, replies, 2);
    }
    assert forall|report: TaskkillReport| #[trigger] report.is_gone() <==> report.success
        || says_gone(report.stderr@) by {
        lemma_occurs_in_between(report.stderr@, "not found"@);
        lemma_occurs_in_between(report.stderr@, "not exist"@);
    }
}

/// A run goes on as [`StopPlan::next`] says, from the step that [`StopPlan::first`] says.
pub proof fn law_stop_run_is_what_next_says(
    plan: StopPlan,
    replies: Seq<StopReply>,
    reply: StopReply,
    begun: StopStep,
    following: StopStep,
)
    requires
        plan.is_run(replies.push(reply)),
        call_ensures(StopPlan::first, (&plan,), begun),
        call_ensures(StopPlan::next, (&plan, plan.at(replies), reply), following),
    ensures
        begun == plan.at(seq![]),
        following == plan.at(replies.push(reply)),
{
    let all = replies.push(reply);
    let n = replies.len() as int;
    lemma_stop_advances(plan, all, n);
    assert(all.take(n) =~= replies);
    assert(all.take(n + 1) =~= all);
    assert(all[n] == reply);
}

/// Every outcome of a step can be told, and nothing is asked once a node is stopped or could not be.
pub proof fn law_stop_hears_every_outcome(step: StopStep, reply: StopReply)
    ensures
        step is CheckStatus ==> (reply.answers(step) <==> reply is Status),
        step is Interrupt ==> (reply.answers(step) <==> reply is Signalled),
        step is RunTaskkill ==> (reply.answers(step) <==> reply is Taskkill),
        step is Await ==> (reply.answers(step) <==> reply is Awaited),
        step is Stopped || step is Failed ==> !reply.answers(step),
{
}

/// Nothing said yet is a run, and a run goes on with every reply that answers the step it is at, and
/// with no other.
pub proof fn law_stop_run_goes_on_by_answers(
    plan: StopPlan,
    replies: Seq<StopReply>,
    reply: StopReply,
)
    ensures
        plan.is_run(Seq::<StopReply>::empty()),
        plan.is_run(replies.push(reply)) <==> plan.is_run(replies) && reply.answers(
            plan.at(replies),
        ),
{
    let all = replies.push(reply);
    let n = replies.len() as int;
    assert(all.take(n) =~= replies);
    assert(all[n] == reply);
    if plan.is_run(all) {
        assert forall|i: int| 0 <= i < replies.len() implies (#[trigger] replies[i]).answers(
            plan.at(replies.take(i)),
        ) by {
            assert(all[i] == replies[i]);
            assert(all.take(i) =~= replies.take(i));
        }
        assert(all[n].answers(plan.at(all.take(n))));
    }
    if plan.is_run(replies) && reply.answers(plan.at(replies)) {
        assert forall|i: int| 0 <= i < all.len() implies (#[trigger] all[i]).answers(
            plan.at(all.take(i)),
        ) by {
            if i < n {
                assert(all[i] == replies[i]);
                assert(all.take(i) =~= replies.take(i));
            }
        }
    }
}

/// A process id is handed to the system bit for bit: as it is, or less two to the thirty-second
/// where it is too large for a signed number.
pub proof fn law_signed_id_keeps_bits(pid: u32, id: i32)
    requires
        call_ensures(to_signed_id, (pid,), id),
    ensures
        pid <= 0x7fff_ffff ==> id == pid,
        pid > 0x7fff_ffff ==> id == pid - 0x1_0000_0000,
        id == signed_id(pid),
{
}

} // verus!
