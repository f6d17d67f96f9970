//! Taking a node back to an earlier block.
//!
//! The caller performs each step and hands back what came of it; [`UnwindPlan::next`] says what
//! is to be done then.

use crate::command::{CommandLine, CommandLineView};
use crate::error::ClientError;
use crate::log::RETH_UNWIND_LABEL;
use crate::text::words;
use vstd::prelude::*;

verus! {

/// A call of a JSON-RPC method whose parameters are texts.
#[derive(Debug)]
pub struct RpcCall {
    pub url: String,
    pub method: String,
    pub params: Vec<String>,
}

/// What a JSON-RPC call holds.
pub struct RpcCallView {
    pub url: Seq<char>,
    pub method: Seq<char>,
    pub params: Seq<Seq<char>>,
}

impl View for RpcCall {
    type V = RpcCallView;

    open spec fn view(&self) -> RpcCallView {
        RpcCallView { url: self.url@, method: self.method@, params: words(self.params@) }
    }
}

/// How a node is taken back.
#[derive(Debug)]
pub enum UnwindPlan {
    /// By a call to the running node.
    Call(RpcCall),
    /// By a command that runs while the node does not.
    Run(CommandLine),
}

/// How a node is taken back.
pub enum UnwindView {
    Call(RpcCallView),
    Run(CommandLineView),
}

impl View for UnwindPlan {
    type V = UnwindView;

    open spec fn view(&self) -> UnwindView {
        match self {
            UnwindPlan::Call(call) => UnwindView::Call(call@),
            UnwindPlan::Run(command) => UnwindView::Run(command@),
        }
    }
}

/// What is to be done next.
pub enum UnwindStep {
    /// Call the node.
    Call,
    /// Start the command.
    Spawn,
    /// Wait until the command exits.
    Await,
    /// Nothing: the node is at the block.
    Unwound,
    /// Nothing: the node was not taken back.
    Failed(ClientError),
}

/// How a command ended.
pub struct ExitReport {
    pub success: bool,
    pub code: Option<i32>,
}

/// What came of a step.
pub enum UnwindReply {
    /// Whether the node accepted the call.
    Called(bool),
    /// Whether the command could be started.
    Spawned(bool),
    /// How the command ended, unless that could not be awaited.
    Exited(Option<ExitReport>),
}

impl UnwindReply {
    /// Whether this is a reply to the step.
    pub open spec fn answers(self, step: UnwindStep) -> bool {
        match step {
            UnwindStep::Call => self is Called,
            UnwindStep::Spawn => self is Spawned,
            UnwindStep::Await => self is Exited,
            UnwindStep::Unwound | UnwindStep::Failed(_) => false,
        }
    }
}

impl UnwindPlan {
    /// The step to begin with.
    pub open spec fn beginning(self) -> UnwindStep {
        match self {
            UnwindPlan::Call(_) => UnwindStep::Call,
            UnwindPlan::Run(_) => UnwindStep::Spawn,
        }
    }

    /// The step that follows a reply.
    pub open spec fn following(self, step: UnwindStep, reply: UnwindReply) -> UnwindStep {
        match reply {
            UnwindReply::Called(accepted) => if accepted {
                UnwindStep::Unwound
            } else {
                UnwindStep::Failed(ClientError::SetHeadFailed)
            },
            UnwindReply::Spawned(started) => if started {
                UnwindStep::Await
            } else {
                UnwindStep::Failed(ClientError::UnwindNotStarted)
            },
            UnwindReply::Exited(None) => UnwindStep::Failed(ClientError::UnwindNotAwaited),
            UnwindReply::Exited(Some(report)) => if report.success {
                UnwindStep::Unwound
            } else {
                UnwindStep::Failed(ClientError::UnwindFailed { code: report.code })
            },
        }
    }

    /// The label under which the output of the command is logged. A call has no output.
    pub fn log_label(&self) -> (label: Option<&'static str>)
        ensures
            *self is Run ==> label == Some(RETH_UNWIND_LABEL),
            *self is Call ==> label is None,
    {
        match self {
            UnwindPlan::Call(_) => None,
            UnwindPlan::Run(_) => Some(RETH_UNWIND_LABEL),
        }
    }

    /// The step to begin with.
    pub fn first(&self) -> (step: UnwindStep)
        ensures
            step == self.beginning(),
    {
        match self {
            UnwindPlan::Call(_) => UnwindStep::Call,
            UnwindPlan::Run(_) => UnwindStep::Spawn,
        }
    }

    /// The step that follows a reply.
    pub fn next(&self, step: UnwindStep, reply: UnwindReply) -> (following: UnwindStep)
        requires
            reply.answers(step),
        ensures
            following == self.following(step, reply),
    {
        match reply {
            UnwindReply::Called(accepted) => {
                if accepted {
                    UnwindStep::Unwound
                } else {
                    UnwindStep::Failed(ClientError::SetHeadFailed)
                }
            },
            UnwindReply::Spawned(started) => {
                if started {
                    UnwindStep::Await
                } else {
                    UnwindStep::Failed(ClientError::UnwindNotStarted)
                }
            },
            UnwindReply::Exited(None) => UnwindStep::Failed(ClientError::UnwindNotAwaited),
            UnwindReply::Exited(Some(report)) => {
                if report.success {
                    UnwindStep::Unwound
                } else {
                    UnwindStep::Failed(ClientError::UnwindFailed { code: report.code })
                }
            },
        }
    }

    /// The step that a run is at after some replies.
    pub open spec fn at(self, replies: Seq<UnwindReply>) -> UnwindStep
        decreases replies.len(),
    {
        if replies.len() == 0 {
            self.beginning()
        } else {
            self.following(self.at(replies.drop_last()), replies.last())
        }
    }

    /// Whether each reply of a run answers the step that the run was at.
    pub open spec fn is_run(self, replies: Seq<UnwindReply>) -> bool {
        forall|i: int|
            0 <= i < replies.len() ==> (#[trigger] replies[i]).answers(self.at(replies.take(i)))
    }
}

proof fn lemma_unwind_advances(plan: UnwindPlan, replies: Seq<UnwindReply>, i: int)
    requires
        plan.is_run(replies),
        0 <= i < replies.len(),
    ensures
        replies[i].answers(plan.at(replies.take(i))),
        plan.at(replies.take(i + 1)) == plan.following(plan.at(replies.take(i)), replies[i]),
{
    assert(replies.take(i + 1).drop_last() =~= replies.take(i));
    assert(replies.take(i + 1).last() == replies[i]);
}

/// A node counts as taken back exactly when it accepted the call, or when the command was
/// started and exited with success.
pub proof fn law_unwound_means_success(plan: UnwindPlan, replies: Seq<UnwindReply>)
    requires
        plan.is_run(replies),
    ensures
        replies.len() <= 2,
        plan.at(replies) is Unwound <==> match plan {
            UnwindPlan::Call(_) => replies.len() == 1 && replies[0] == UnwindReply::Called(true),
            UnwindPlan::Run(_) => {
                &&& replies.len() == 2
                &&& replies[0] == UnwindReply::Spawned(true)
                &&& replies[1] matches UnwindReply::Exited(Some(report))
                &&& report.success
            },
        },
{
    let n = replies.len() as int;
    assert(replies.take(n) =~= replies);
    assert(replies.take(0) =~= seq![]);
    if n >= 1 {
        lemma_unwind_advances(plan, replies, 0);
    }
    if n >= 2 {
        lemma_unwind_advances(plan, replies, 1);
    }
    if n >= 3 {
        lemma_unwind_advances(plan, replies, 2);
    }
}

/// What is done to take a node back follows from the replies alone: a plan with a call makes it,
/// and one with a command starts it and awaits it.
pub proof fn law_unwind_steps_follow_replies(plan: UnwindPlan, replies: Seq<UnwindReply>)
    requires
        plan.is_run(replies),
    ensures
        plan.at(replies) is Call <==> plan is Call && replies.len() == 0,
        plan.at(replies) is Spawn <==> plan is Run && replies.len() == 0,
        plan.at(replies) is Await <==> plan is Run && replies.len() == 1 && replies[0]
            == UnwindReply::Spawned(true),
{
    lemma_unwind_run(plan, replies);
}

/// A node is not taken back, and why, follows from the last reply: it did not accept the call, or
/// the command could not be started, could not be awaited or exited without success.
pub proof fn law_unwind_failure_names_cause(
    plan: UnwindPlan,
    replies: Seq<UnwindReply>,
    error: ClientError,
)
    requires
        plan.is_run(replies),
    ensures
        plan.at(replies) == UnwindStep::Failed(error) <==> {
            ||| plan is Call && replies.len() == 1 && replies[0] == UnwindReply::Called(false)
                && error == ClientError::SetHeadFailed
            ||| plan is Run && replies.len() == 1 && replies[0] == UnwindReply::Spawned(false)
                && error == ClientError::UnwindNotStarted
            ||| plan is Run && replies.len() == 2 && replies[1] == UnwindReply::Exited(None)
                && error == ClientError::UnwindNotAwaited
            ||| {
                &&& plan is Run && replies.len() == 2
                &&& replies[1] matches UnwindReply::Exited(Some(report))
                &&& !report.success
                &&& error == (ClientError::UnwindFailed { code: report.code })
            }
        },
{
    lemma_unwind_run(plan, replies);
}

/// All that a run of at most two replies is made of.
proof fn lemma_unwind_run(plan: UnwindPlan, replies: Seq<UnwindReply>)
    requires
        plan.is_run(replies),
    ensures
        replies.len() <= 2,
        replies.len() == 0 ==> plan.at(replies) == plan.beginning(),
        replies.len() >= 1 ==> plan.at(replies) == plan.following(
            UnwindStep::Await,
            replies.last(),
        ),
        replies.len() >= 1 && plan is Call ==> replies[0] is Called && replies.len() == 1,
        replies.len() >= 1 && plan is Run ==> replies[0] is Spawned,
        replies.len() == 2 ==> replies[0] == UnwindReply::Spawned(true) && replies[1] is Exited,
{
    law_unwound_means_success(plan, replies);
    let n = replies.len() as int;
    assert(replies.take(n) =~= replies);
    assert(replies.take(0) =~= seq![]);
    if n >= 1 {
        lemma_unwind_advances(plan, replies, 0);
    }
    if n >= 2 {
        lemma_unwind_advances(plan, replies, 1);
    }
}

/// The output of the unwind command is logged under a label of its own; a call has none.
pub proof fn law_unwind_output_is_labelled(plan: UnwindPlan, label: Option<&'static str>)
    requires
        call_ensures(UnwindPlan::log_label, (&plan,), label),
    ensures
        label is Some <==> plan is Run,
        label matches Some(label) ==> label@ == "[RETH-UNWIND]"@,
{
}

/// A run goes on as [`UnwindPlan::next`] says, from the step that [`UnwindPlan::first`] says.
pub proof fn law_unwind_run_is_what_next_says(
    plan: UnwindPlan,
    replies: Seq<UnwindReply>,
    reply: UnwindReply,
    begun: UnwindStep,
    following: UnwindStep,
)
    requires
        plan.is_run(replies.push(reply)),
        call_ensures(UnwindPlan::first, (&plan,), begun),
        call_ensures(UnwindPlan::next, (&plan, plan.at(replies), reply), following),
    ensures
        begun == plan.at(seq![]),
        following == plan.at(replies.push(reply)),
{
    let all = replies.push(reply);
    let n = replies.len() as int;
    lemma_unwind_advances(plan, all, n);
    assert(all.take(n) =~= replies);
    assert(all.take(n + 1) =~= all);
    assert(all[n] == reply);
}

/// Every outcome of a step can be told, and nothing is asked once a node is taken back or could not
/// be.
pub proof fn law_unwind_hears_every_outcome(step: UnwindStep, reply: UnwindReply)
    ensures
        step is Call ==> (reply.answers(step) <==> reply is Called),
        step is Spawn ==> (reply.answers(step) <==> reply is Spawned),
        step is Await ==> (reply.answers(step) <==> reply is Exited),
        step is Unwound || step is Failed ==> !reply.answers(step),
{
}

/// Nothing said yet is a run, and a run goes on with every reply that answers the step it is at, and
/// with no other.
pub proof fn law_unwind_run_goes_on_by_answers(
    plan: UnwindPlan,
    replies: Seq<UnwindReply>,
    reply: UnwindReply,
)
    ensures
        plan.is_run(Seq::<UnwindReply>::empty()),
        plan.is_run(replies.push(reply)) <==> plan.is_run(replies) && reply.answers(
            plan.at(replies),
        ),
{
    let all = replies.push(reply);
    let n = replies.len() as int;
    assert(all.take(n) =~= replies);
    assert(all[n] == reply);
    if plan.is_run(all) {
        assert forall|i: int| 0 <= i < replies.len() implies (#[trigger] replies[i]).answers(
            plan.at(replies.take(i)),
        ) by {
            assert(all[i] == replies[i]);
            assert(all.take(i) =~= replies.take(i));
        }
        assert(all[n].answers(plan.at(all.take(n))));
    }
    if plan.is_run(replies) && reply.answers(plan.at(replies)) {
        assert forall|i: int| 0 <= i < all.len() implies (#[trigger] all[i]).answers(
            plan.at(all.take(i)),
        ) by {
            if i < n {
                assert(all[i] == replies[i]);
                assert(all.take(i) =~= replies.take(i));
            }
        }
    }
}

} // verus!
