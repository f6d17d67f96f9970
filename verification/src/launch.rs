//! Starting a node.
//!
//! The caller performs each step and hands back what came of it; [`LaunchPlan::next`] says what
//! is to be done then.

use crate::command::{CommandLine, CommandLineView};
use crate::error::ClientError;
use crate::secret::SecretPlan;
use vstd::prelude::*;

verus! {

/// How a node is started.
#[derive(Debug)]
pub struct LaunchPlan {
    /// The secret that has to be there before the node starts.
    pub secret: Option<SecretPlan>,
    /// The command that runs the node.
    pub command: CommandLine,
    /// Whether the node leads a process group of its own, where there are process groups.
    pub own_group: bool,
    /// Whether the node is killed when the handle of its process is dropped.
    pub kill_on_drop: bool,
    /// The label under which the node's output is logged. Without one the output is dropped.
    pub log_label: Option<&'static str>,
    /// How long to wait before the node counts as started, in seconds.
    pub settle_secs: u64,
}

/// Where a secret is kept.
pub struct SecretView {
    pub path: Seq<char>,
    pub parent: Seq<char>,
}

/// How a node is started.
pub struct LaunchView {
    pub secret: Option<SecretView>,
    pub command: CommandLineView,
    pub own_group: bool,
    pub kill_on_drop: bool,
    pub log_label: Option<Seq<char>>,
    pub settle_secs: nat,
}

impl View for LaunchPlan {
    type V = LaunchView;

    open spec fn view(&self) -> LaunchView {
        LaunchView {
            secret: match self.secret {
                Some(plan) => Some(SecretView { path: plan.path@, parent: plan.parent@ }),
                None => None,
            },
            command: self.command@,
            own_group: self.own_group,
            kill_on_drop: self.kill_on_drop,
            log_label: match self.log_label {
                Some(label) => Some(label@),
                None => None,
            },
            settle_secs: self.settle_secs as nat,
        }
    }
}

/// What is to be done next.
pub enum LaunchStep {
    /// Follow the plan for the secret.
    EnsureSecret,
    /// Start the command.
    Spawn,
    /// Wait for `settle_secs` while the process with this id starts up.
    Settle(u32),
    /// Nothing: the node runs, as the process with this id.
    Running(u32),
    /// Nothing: there is no node.
    Failed(ClientError),
}

/// What came of a step.
pub enum LaunchReply {
    /// The secret is there, unless this error came.
    Secured(Option<ClientError>),
    /// The process could not be started.
    NotSpawned,
    /// The process was started. It has an id as long as it runs.
    Spawned(Option<u32>),
    /// The wait is over.
    Settled,
}

impl LaunchReply {
    /// Whether this is a reply to the step.
    pub open spec fn answers(self, step: LaunchStep) -> bool {
        match step {
            LaunchStep::EnsureSecret => self is Secured,
            LaunchStep::Spawn => self is NotSpawned || self is Spawned,
            LaunchStep::Settle(_) => self is Settled,
            LaunchStep::Running(_) | LaunchStep::Failed(_) => false,
        }
    }
}

impl LaunchPlan {
    /// The step to begin with.
    pub open spec fn beginning(self) -> LaunchStep {
        if self.secret is Some {
            LaunchStep::EnsureSecret
        } else {
            LaunchStep::Spawn
        }
    }

    /// The step that follows a reply.
    pub open spec fn following(self, step: LaunchStep, reply: LaunchReply) -> LaunchStep {
        match (step, reply) {
            (LaunchStep::EnsureSecret, LaunchReply::Secured(None)) => LaunchStep::Spawn,
            (LaunchStep::EnsureSecret, LaunchReply::Secured(Some(error))) => LaunchStep::Failed(
                error,
            ),
            (LaunchStep::Spawn, LaunchReply::NotSpawned) => LaunchStep::Failed(
                ClientError::NodeNotStarted,
            ),
            (LaunchStep::Spawn, LaunchReply::Spawned(None)) => LaunchStep::Failed(
                ClientError::NodeNotRunning,
            ),
            (LaunchStep::Spawn, LaunchReply::Spawned(Some(pid))) => if self.settle_secs > 0 {
                LaunchStep::Settle(pid)
            } else {
                LaunchStep::Running(pid)
            },
            (LaunchStep::Settle(pid), LaunchReply::Settled) => LaunchStep::Running(pid),
            _ => step,
        }
    }

    /// The step to begin with.
    pub fn first(&self) -> (step: LaunchStep)
        ensures
            step == self.beginning(),
    {
        if self.secret.is_some() {
            LaunchStep::EnsureSecret
        } else {
            LaunchStep::Spawn
        }
    }

    /// The step that follows a reply.
    pub fn next(&self, step: LaunchStep, reply: LaunchReply) -> (following: LaunchStep)
        requires
            reply.answers(step),
        ensures
            following == self.following(step, reply),
    {
        match (step, reply) {
            (LaunchStep::EnsureSecret, LaunchReply::Secured(None)) => LaunchStep::Spawn,
            (LaunchStep::EnsureSecret, LaunchReply::Secured(Some(error))) => LaunchStep::Failed(
                error,
            ),
            (LaunchStep::Spawn, LaunchReply::NotSpawned) => LaunchStep::Failed(
                ClientError::NodeNotStarted,
            ),
            (LaunchStep::Spawn, LaunchReply::Spawned(None)) => LaunchStep::Failed(
                ClientError::NodeNotRunning,
            ),
            (LaunchStep::Spawn, LaunchReply::Spawned(Some(pid))) => {
                if self.settle_secs > 0 {
                    LaunchStep::Settle(pid)
                } else {
                    LaunchStep::Running(pid)
                }
            },
            (LaunchStep::Settle(pid), LaunchReply::Settled) => LaunchStep::Running(pid),
            (step, _) => step,
        }
    }

    /// The step that a run is at after some replies.
    pub open spec fn at(self, replies: Seq<LaunchReply>) -> LaunchStep
        decreases replies.len(),
    {
        if replies.len() == 0 {
            self.beginning()
        } else {
            self.following(self.at(replies.drop_last()), replies.last())
        }
    }

    /// Whether each reply of a run answers the step that the run was at.
    pub open spec fn is_run(self, replies: Seq<LaunchReply>) -> bool {
        forall|i: int|
            0 <= i < replies.len() ==> (#[trigger] replies[i]).answers(self.at(replies.take(i)))
    }
}

proof fn lemma_launch_advances(plan: LaunchPlan, replies: Seq<LaunchReply>, i: int)
    requires
        plan.is_run(replies),
        0 <= i < replies.len(),
    ensures
        replies[i].answers(plan.at(replies.take(i))),
        plan.at(replies.take(i + 1)) == plan.following(plan.at(replies.take(i)), replies[i]),
{
    assert(replies.take(i + 1).drop_last() =~= replies.take(i));
    assert(replies.take(i + 1).last() == replies[i]);
}

/// A node that needs a secret is started only once the secret is there; one that needs none is
/// started at once.
pub proof fn law_spawns_after_secret(plan: LaunchPlan, replies: Seq<LaunchReply>)
    requires
        plan.is_run(replies),
    ensures
        plan.at(replies) is Spawn <==> {
            ||| plan.secret is None && replies.len() == 0
            ||| {
                &&& plan.secret is Some
                &&& replies.len() == 1
                &&& replies[0] == LaunchReply::Secured(None)
            }
        },
{
    let n = replies.len() as int;
    assert(replies.take(n) =~= replies);
    assert(replies.take(0) =~= seq![]);
    if n >= 1 {
        lemma_launch_advances(plan, replies, 0);
        lemma_launch_advances(plan, replies, n - 1);
    }
    if n >= 2 {
        lemma_launch_advances(plan, replies, n - 2);
        assert(!(plan.at(replies.take(n - 1)) is EnsureSecret));
    }
}

/// A node counts as running only under the id of the process that was started, which had an id
/// then; where the plan has a wait, the wait is over.
pub proof fn law_running_means_spawned(plan: LaunchPlan, replies: Seq<LaunchReply>, pid: u32)
    requires
        plan.is_run(replies),
        plan.at(replies) == LaunchStep::Running(pid),
    ensures
        plan.settle_secs == 0 ==> replies.last() == LaunchReply::Spawned(Some(pid)),
        plan.settle_secs > 0 ==> {
            &&& replies.len() >= 2
            &&& replies.last() is Settled
            &&& replies[replies.len() - 2] == LaunchReply::Spawned(Some(pid))
        },
{
    let n = replies.len() as int;
    assert(replies.take(n) =~= replies);
    assert(replies.take(0) =~= seq![]);
    lemma_launch_advances(plan, replies, n - 1);
    if n >= 2 {
        lemma_launch_advances(plan, replies, n - 2);
    }
}

/// How many replies come before the process is started: one for the secret, where there is one.
pub open spec fn replies_before_spawn(plan: LaunchPlan) -> int {
    if plan.secret is Some {
        1
    } else {
        0
    }
}

/// What is done to start a node follows from the replies alone. A secret is seen to first, where
/// the plan has one. Then the process is started, and once it has an id it is given time, where
/// the plan has some, and counts as running under that id.
pub proof fn law_launch_steps_follow_replies(plan: LaunchPlan, replies: Seq<LaunchReply>, pid: u32)
    requires
        plan.is_run(replies),
    ensures
        ({
            let k = replies_before_spawn(plan);
            let n = replies.len();
            &&& n <= k + 2
            &&& plan.at(replies) is EnsureSecret <==> plan.secret is Some && n == 0
            &&& plan.at(replies) is Spawn <==> n == k && (k == 1 ==> replies[0]
                == LaunchReply::Secured(None))
            &&& plan.at(replies) == LaunchStep::Settle(pid) <==> n == k + 1 && plan.settle_secs > 0
                && replies[k] == LaunchReply::Spawned(Some(pid))
            &&& plan.at(replies) == LaunchStep::Running(pid) <==> {
                &&& n == if plan.settle_secs > 0 {
                    k + 2
                } else {
                    k + 1
                }
                &&& replies[k] == LaunchReply::Spawned(Some(pid))
            }
        }),
{
    lemma_launch_run(plan, replies);
}

/// A node is not started, and why, follows from the last reply: the secret failed, with the very
/// error that came of it; the process could not be started; or it was gone at once.
pub proof fn law_launch_failure_names_cause(
    plan: LaunchPlan,
    replies: Seq<LaunchReply>,
    error: ClientError,
)
    requires
        plan.is_run(replies),
    ensures
        ({
            let k = replies_before_spawn(plan);
            let n = replies.len();
            plan.at(replies) == LaunchStep::Failed(error) <==> {
                ||| n == 1 && replies[0] == LaunchReply::Secured(Some(error))
                ||| n == k + 1 && replies[k] == LaunchReply::NotSpawned && error
                    == ClientError::NodeNotStarted
                ||| n == k + 1 && replies[k] == LaunchReply::Spawned(None) && error
                    == ClientError::NodeNotRunning
            }
        }),
{
    lemma_launch_run(plan, replies);
}

/// All that a run of at most three replies is made of.
proof fn lemma_launch_run(plan: LaunchPlan, replies: Seq<LaunchReply>)
    requires
        plan.is_run(replies),
    ensures
        ({
            let k = replies_before_spawn(plan);
            let n = replies.len();
            &&& n <= k + 2
            &&& n == 0 ==> plan.at(replies) == plan.beginning()
            &&& n >= 1 && k == 1 ==> replies[0] is Secured
            &&& n > k && k == 1 ==> replies[0] == LaunchReply::Secured(None)
            &&& n > k ==> replies[k] is Spawned || replies[k] is NotSpawned
            &&& n == 1 && k == 1 ==> plan.at(replies) == plan.following(
                LaunchStep::EnsureSecret,
                replies[0],
            )
            &&& n == k + 1 ==> plan.at(replies) == plan.following(LaunchStep::Spawn, replies[k])
            &&& n == k + 2 ==> plan.settle_secs > 0 && (replies[k] matches LaunchReply::Spawned(
                Some(pid),
            ) && plan.at(replies) == LaunchStep::Running(pid))
        }),
{
    let n = replies.len() as int;
    assert(replies.take(n) =~= replies);
    assert(replies.take(0) =~= seq![]);
    if n >= 1 {
        lemma_launch_advances(plan, replies, 0);
    }
    if n >= 2 {
        lemma_launch_advances(plan, replies, 1);
    }
    if n >= 3 {
        lemma_launch_advances(plan, replies, 2);
    }
    if n >= 4 {
        lemma_launch_advances(plan, replies, 3);
    }
}

/// A run goes on as [`LaunchPlan::next`] says, from the step that [`LaunchPlan::first`] says.
pub proof fn law_launch_run_is_what_next_says(
    plan: LaunchPlan,
    replies: Seq<LaunchReply>,
    reply: LaunchReply,
    begun: LaunchStep,
    following: LaunchStep,
)
    requires
        plan.is_run(replies.push(reply)),
        call_ensures(LaunchPlan::first, (&plan,), begun),
        call_ensures(LaunchPlan::next, (&plan, plan.at(replies), reply), following),
    ensures
        begun == plan.at(seq![]),
        following == plan.at(replies.push(reply)),
{
    let all = replies.push(reply);
    let n = replies.len() as int;
    lemma_launch_advances(plan, all, n);
    assert(all.take(n) =~= replies);
    assert(all.take(n + 1) =~= all);
    assert(all[n] == reply);
}

/// Every outcome of a step can be told, and nothing is asked once a node runs or could not be
/// started.
pub proof fn law_launch_hears_every_outcome(step: LaunchStep, reply: LaunchReply)
    ensures
        step is EnsureSecret ==> (reply.answers(step) <==> reply is Secured),
        step is Spawn ==> (reply.answers(step) <==> reply is NotSpawned || reply is Spawned),
        step is Settle ==> (reply.answers(step) <==> reply is Settled),
        step is Running || step is Failed ==> !reply.answers(step),
{
}

/// Nothing said yet is a run, and a run goes on with every reply that answers the step it is at, and
/// with no other.
pub proof fn law_launch_run_goes_on_by_answers(
    plan: LaunchPlan,
    replies: Seq<LaunchReply>,
    reply: LaunchReply,
)
    ensures
        plan.is_run(Seq::<LaunchReply>::empty()),
        plan.is_run(replies.push(reply)) <==> plan.is_run(replies) && reply.answers(
            plan.at(replies),
        ),
{
    let all = replies.push(reply);
    let n = replies.len() as int;
    assert(all.take(n) =~= replies);
    assert(all[n] == reply);
    if plan.is_run(all) {
        assert forall|i: int| 0 <= i < replies.len() implies (#[trigger] replies[i]).answers(
            plan.at(replies.take(i)),
        ) by {
            assert(all[i] == replies[i]);
            assert(all.take(i) =~= replies.take(i));
        }
        assert(all[n].answers(plan.at(all.take(n))));
    }
    if plan.is_run(replies) && reply.answers(plan.at(replies)) {
        assert forall|i: int| 0 <= i < all.len() implies (#[trigger] all[i]).answers(
            plan.at(all.take(i)),
        ) by {
            if i < n {
                assert(all[i] == replies[i]);
                assert(all.take(i) =~= replies.take(i));
            }
        }
    }
}

} // verus!
