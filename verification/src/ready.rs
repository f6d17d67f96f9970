//! Waiting until a node answers and has caught up with its chain.
//!
//! The caller asks the node and hands back what it said; [`next`] says what is to be done then.

use crate::error::ClientError;
use vstd::prelude::*;

verus! {

/// The address of the node's RPC server.
pub const RPC_URL: &'static str = "http://localhost:8545";

/// How long to wait for the node, in seconds.
pub const MAX_WAIT_SECS: u64 = 120;

/// How long to wait between two questions to the node, in seconds.
pub const CHECK_INTERVAL_SECS: u64 = 2;

/// Where a node is asked, and how often and how long, until it is ready.
#[derive(Clone, Copy, Debug)]
pub struct ReadyPlan {
    /// The address of the node's RPC server.
    pub url: &'static str,
    /// How long to wait for the node, in seconds.
    pub max_wait_secs: u64,
    /// How long to wait between two questions to the node, in seconds.
    pub check_interval_secs: u64,
}

impl ReadyPlan {
    /// The plan for every node.
    pub open spec fn standard() -> ReadyPlan {
        ReadyPlan {
            url: RPC_URL,
            max_wait_secs: MAX_WAIT_SECS,
            check_interval_secs: CHECK_INTERVAL_SECS,
        }
    }

    /// The plan for every node.
    pub fn new() -> (plan: ReadyPlan)
        ensures
            plan == ReadyPlan::standard(),
    {
        ReadyPlan {
            url: RPC_URL,
            max_wait_secs: MAX_WAIT_SECS,
            check_interval_secs: CHECK_INTERVAL_SECS,
        }
    }
}

/// A block number as a syncing node reports it: 256 bits, in four limbs, the lowest first.
#[derive(Clone, Copy, Debug, PartialEq, Eq, Structural)]
pub struct BlockHeight {
    pub limb0: u64,
    pub limb1: u64,
    pub limb2: u64,
    pub limb3: u64,
}

impl BlockHeight {
    /// The block number.
    pub open spec fn number(self) -> nat {
        self.limb0 as nat + 0x1_0000_0000_0000_0000 * (self.limb1 as nat + 0x1_0000_0000_0000_0000
            * (self.limb2 as nat + 0x1_0000_0000_0000_0000 * self.limb3 as nat))
    }

    /// Two heights are equal exactly when the block numbers are.
    pub proof fn lemma_number_is_injective(self, other: BlockHeight)
        ensures
            (self == other) == (self.number() == other.number()),
    {
    }
}

/// What a node says of its synchronisation.
#[derive(Clone, Copy, Debug, PartialEq, Eq, Structural)]
pub enum SyncStatus {
    /// It is working towards a block.
    Info { current_block: BlockHeight, highest_block: BlockHeight },
    /// It is not synchronising.
    Idle,
}

impl SyncStatus {
    /// Whether the node is still behind the highest block that it knows of.
    pub open spec fn is_behind(self) -> bool {
        match self {
            SyncStatus::Info { current_block, highest_block } => current_block.number()
                != highest_block.number(),
            SyncStatus::Idle => false,
        }
    }

    /// Whether the node is still behind the highest block that it knows of.
    pub fn behind(&self) -> (behind: bool)
        ensures
            behind == self.is_behind(),
    {
        match self {
            SyncStatus::Info { current_block, highest_block } => {
                proof {
                    current_block.lemma_number_is_injective(*highest_block);
                }
                *current_block != *highest_block
            },
            SyncStatus::Idle => false,
        }
    }
}

/// What is to be done next.
pub enum ReadyStep {
    /// Ask the node for its synchronisation status.
    QuerySync,
    /// Ask the node for the number of its latest block.
    QueryTip,
    /// Wait for `CHECK_INTERVAL_SECS`.
    Sleep,
    /// Nothing: the node is ready, and this is the number of its latest block.
    Ready(u64),
    /// Nothing: the node was not ready in time.
    Failed(ClientError),
}

/// What came of a step.
pub enum ReadyReply {
    /// The status, unless the node did not answer.
    Sync(Option<SyncStatus>),
    /// The block number, unless the node did not answer.
    Tip(Option<u64>),
    /// The wait is over.
    Slept,
    /// `MAX_WAIT_SECS` went by since the beginning, before the step was done.
    TimedOut,
}

impl ReadyReply {
    /// Whether this is a reply to the step.
    pub open spec fn answers(self, step: ReadyStep) -> bool {
        match step {
            ReadyStep::QuerySync => self is Sync || self is TimedOut,
            ReadyStep::QueryTip => self is Tip || self is TimedOut,
            ReadyStep::Sleep => self is Slept || self is TimedOut,
            ReadyStep::Ready(_) | ReadyStep::Failed(_) => false,
        }
    }
}

/// The step that follows a reply.
pub open spec fn following(step: ReadyStep, reply: ReadyReply) -> ReadyStep {
    match reply {
        ReadyReply::TimedOut => ReadyStep::Failed(ClientError::ReadyTimeout),
        ReadyReply::Sync(Some(status)) => if status.is_behind() {
            ReadyStep::Sleep
        } else {
            ReadyStep::QueryTip
        },
        ReadyReply::Tip(Some(tip)) => ReadyStep::Ready(tip),
        ReadyReply::Sync(None) | ReadyReply::Tip(None) => ReadyStep::Sleep,
        ReadyReply::Slept => ReadyStep::QuerySync,
    }
}

/// The step to begin with.
pub fn first() -> (step: ReadyStep)
    ensures
        step == ReadyStep::QuerySync,
{
    ReadyStep::QuerySync
}

/// The step that follows a reply.
pub fn next(step: ReadyStep, reply: ReadyReply) -> (following_step: ReadyStep)
    requires
        reply.answers(step),
    ensures
        following_step == following(step, reply),
{
    match reply {
        ReadyReply::TimedOut => ReadyStep::Failed(ClientError::ReadyTimeout),
        ReadyReply::Sync(Some(status)) => {
            if status.behind() {
                ReadyStep::Sleep
            } else {
                ReadyStep::QueryTip
            }
        },
        ReadyReply::Tip(Some(tip)) => ReadyStep::Ready(tip),
        ReadyReply::Sync(None) | ReadyReply::Tip(None) => ReadyStep::Sleep,
        ReadyReply::Slept => ReadyStep::QuerySync,
    }
}

/// The step that a wait is at after some replies.
pub open spec fn at(replies: Seq<ReadyReply>) -> ReadyStep
    decreases replies.len(),
{
    if replies.len() == 0 {
        ReadyStep::QuerySync
    } else {
        following(at(replies.drop_last()), replies.last())
    }
}

/// Whether each reply of a wait answers the step that the wait was at.
pub open spec fn is_run(replies: Seq<ReadyReply>) -> bool {
    forall|i: int| 0 <= i < replies.len() ==> (#[trigger] replies[i]).answers(at(replies.take(i)))
}

/// Whether the node answered, and is not behind.
pub open spec fn caught_up(reply: ReadyReply) -> bool {
    reply matches ReadyReply::Sync(Some(status)) && !status.is_behind()
}

proof fn lemma_advances(replies: Seq<ReadyReply>, i: int)
    requires
        is_run(replies),
        0 <= i < replies.len(),
    ensures
        replies[i].answers(at(replies.take(i))),
        at(replies.take(i + 1)) == following(at(replies.take(i)), replies[i]),
{
    assert(replies.take(i + 1).drop_last() =~= replies.take(i));
    assert(replies.take(i + 1).last() == replies[i]);
}

/// A wait that ends with a block number had that number as the node's last reply, and right
/// before it the node's word that it is not behind. With such an end a wait is over.
pub proof fn law_ready_means_caught_up(replies: Seq<ReadyReply>, tip: u64)
    requires
        is_run(replies),
    ensures
        at(replies) == ReadyStep::Ready(tip) <==> {
            &&& replies.len() >= 2
            &&& caught_up(replies[replies.len() - 2])
            &&& replies.last() == ReadyReply::Tip(Some(tip))
        },
{
    let n = replies.len() as int;
    assert(replies.take(n) =~= replies);
    if n >= 1 {
        lemma_advances(replies, n - 1);
    }
    if n >= 2 {
        lemma_advances(replies, n - 2);
    }
}

/// A node that is behind, or silent, each time it is asked is never taken for ready.
pub proof fn law_never_ready_while_behind(replies: Seq<ReadyReply>)
    requires
        is_run(replies),
        forall|i: int| 0 <= i < replies.len() ==> !caught_up(#[trigger] replies[i]),
    ensures
        !(at(replies) is Ready),
        !(at(replies) is QueryTip),
{
    let n = replies.len() as int;
    assert(replies.take(n) =~= replies);
    if n >= 1 {
        lemma_advances(replies, n - 1);
    }
    if n >= 2 {
        lemma_advances(replies, n - 2);
    }
}

/// Between two questions after the status there is a wait of `CHECK_INTERVAL_SECS`.
pub proof fn law_sleeps_between_checks(replies: Seq<ReadyReply>)
    requires
        is_run(replies),
        replies.len() > 0,
        at(replies) is QuerySync,
    ensures
        replies.last() is Slept,
        at(replies.drop_last()) is Sleep,
{
    let n = replies.len() as int;
    assert(replies.take(n) =~= replies);
    lemma_advances(replies, n - 1);
    assert(replies.take(n - 1) =~= replies.drop_last());
}

/// The deadline ends the wait, whatever it was at, and nothing else makes it fail.
pub proof fn law_fails_on_deadline_only(step: ReadyStep, reply: ReadyReply)
    requires
        reply.answers(step),
    ensures
        following(step, reply) is Failed <==> reply is TimedOut,
        following(step, reply) matches ReadyStep::Failed(error) ==> error
            == ClientError::ReadyTimeout,
{
}

/// A node that works towards a block is behind exactly when it is at another block than that one,
/// whatever the two numbers are; one that does not is not.
pub proof fn law_behind_compares_blocks(status: SyncStatus, behind: bool)
    requires
        call_ensures(SyncStatus::behind, (&status,), behind),
    ensures
        behind == status.is_behind(),
        status is Idle ==> !behind,
        status matches SyncStatus::Info { current_block, highest_block } ==> {
            &&& behind <==> current_block.number() != highest_block.number()
            &&& behind <==> {
                ||| current_block.limb0 != highest_block.limb0
                ||| current_block.limb1 != highest_block.limb1
                ||| current_block.limb2 != highest_block.limb2
                ||| current_block.limb3 != highest_block.limb3
            }
        },
{
    match status {
        SyncStatus::Info { current_block, highest_block } => {
            current_block.lemma_number_is_injective(highest_block);
        },
        SyncStatus::Idle => {},
    }
}

/// A block number is made of its limbs, each worth two to the sixty-fourth of the one below.
pub proof fn law_limbs_make_number(height: BlockHeight)
    ensures
        height.number() % 0x1_0000_0000_0000_0000 == height.limb0,
        height.number() / 0x1_0000_0000_0000_0000 % 0x1_0000_0000_0000_0000 == height.limb1,
        height.limb1 == 0 && height.limb2 == 0 && height.limb3 == 0 ==> height.number()
            == height.limb0,
        height.number() / 0x1_0000_0000_0000_0000 / 0x1_0000_0000_0000_0000
            % 0x1_0000_0000_0000_0000 == height.limb2,
        height.number() / 0x1_0000_0000_0000_0000 / 0x1_0000_0000_0000_0000
            / 0x1_0000_0000_0000_0000 == height.limb3,
{
}

/// What a node said decides what comes next: if it is at another block than the one it works
/// towards, or was silent, there is a wait; if it is at that block, or works towards none, it is
/// asked for its latest block, and is ready with the number that it gives. After a wait it is asked
/// again, and the deadline ends it all.
pub proof fn law_reply_decides_next_step(step: ReadyStep, reply: ReadyReply, following: ReadyStep)
    requires
        reply.answers(step),
        call_ensures(next, (step, reply), following),
    ensures
        reply matches ReadyReply::Sync(Some(SyncStatus::Info { current_block, highest_block }))
            ==> {
            &&& current_block.number() != highest_block.number() ==> following is Sleep
            &&& current_block.number() == highest_block.number() ==> following is QueryTip
        },
        reply == ReadyReply::Sync(Some(SyncStatus::Idle)) ==> following is QueryTip,
        reply == ReadyReply::Sync(None) || reply == ReadyReply::Tip(None) ==> following is Sleep,
        reply matches ReadyReply::Tip(Some(tip)) ==> following == ReadyStep::Ready(tip),
        reply is Slept ==> following is QuerySync,
        reply is TimedOut ==> following == ReadyStep::Failed(ClientError::ReadyTimeout),
{
}

/// Whether a reply says that the node is at the block that it works towards, or works towards none.
pub open spec fn says_synced(reply: ReadyReply) -> bool {
    ||| reply == ReadyReply::Sync(Some(SyncStatus::Idle))
    ||| (reply matches ReadyReply::Sync(Some(SyncStatus::Info { current_block, highest_block }))
        && current_block.number() == highest_block.number())
}

/// A wait ends with a block number exactly when the node last gave that number, right after it had
/// said that it is at the block it works towards, or works towards none. It is asked for that
/// number only then, and is asked whether it works towards a block at first and after each pause.
pub proof fn law_ready_means_same_block(replies: Seq<ReadyReply>, tip: u64)
    requires
        is_run(replies),
    ensures
        at(replies) == ReadyStep::Ready(tip) <==> {
            &&& replies.len() >= 2
            &&& says_synced(replies[replies.len() - 2])
            &&& replies.last() == ReadyReply::Tip(Some(tip))
        },
        at(replies) is QueryTip <==> replies.len() >= 1 && says_synced(replies.last()),
        at(replies) is QuerySync <==> replies.len() == 0 || replies.last() is Slept,
        at(replies) is Sleep <==> replies.len() >= 1 && {
            ||| replies.last() is Sync && !says_synced(replies.last())
            ||| replies.last() == ReadyReply::Tip(None)
        },
        at(replies) is Failed <==> replies.len() >= 1 && replies.last() is TimedOut,
{
    let n = replies.len() as int;
    assert(replies.take(n) =~= replies);
    if n >= 1 {
        lemma_advances(replies, n - 1);
    }
    if n >= 2 {
        lemma_advances(replies, n - 2);
    }
}

/// A wait goes on as [`next`] says, from the step that [`first`] says.
pub proof fn law_wait_is_what_next_says(
    replies: Seq<ReadyReply>,
    reply: ReadyReply,
    begun: ReadyStep,
    following_step: ReadyStep,
)
    requires
        is_run(replies.push(reply)),
        call_ensures(first, (), begun),
        call_ensures(next, (at(replies), reply), following_step),
    ensures
        begun == at(seq![]),
        following_step == at(replies.push(reply)),
{
    let all = replies.push(reply);
    let n = replies.len() as int;
    lemma_advances(all, n);
    assert(all.take(n) =~= replies);
    assert(all.take(n + 1) =~= all);
    assert(all[n] == reply);
}

/// Every node is asked on its own machine, every two seconds, for two minutes at most.
pub proof fn law_wait_is_two_minutes(plan: ReadyPlan)
    requires
        call_ensures(ReadyPlan::new, (), plan),
    ensures
        plan.url@ == "http://localhost:8545"@,
        plan.max_wait_secs == 120,
        plan.check_interval_secs == 2,
{
}

/// Whatever a node says, and that it says nothing, can be told, and so can the deadline at any time;
/// nothing is asked once the wait is over.
pub proof fn law_wait_hears_every_outcome(step: ReadyStep, reply: ReadyReply)
    ensures
        step is QuerySync ==> (reply.answers(step) <==> reply is Sync || reply is TimedOut),
        step is QueryTip ==> (reply.answers(step) <==> reply is Tip || reply is TimedOut),
        step is Sleep ==> (reply.answers(step) <==> reply is Slept || reply is TimedOut),
        step is Ready || step is Failed ==> !reply.answers(step),
{
}

/// Nothing said yet is a run, and a run goes on with every reply that answers the step it is at, and
/// with no other.
pub proof fn law_wait_run_goes_on_by_answers(
    replies: Seq<ReadyReply>,
    reply: ReadyReply,
)
    ensures
        is_run(Seq::<ReadyReply>::empty()),
        is_run(replies.push(reply)) <==> is_run(replies) && reply.answers(
            at(replies),
        ),
{
    let all = replies.push(reply);
    let n = replies.len() as int;
    assert(all.take(n) =~= replies);
    assert(all[n] == reply);
    if is_run(all) {
        assert forall|i: int| 0 <= i < replies.len() implies (#[trigger] replies[i]).answers(
            at(replies.take(i)),
        ) by {
            assert(all[i] == replies[i]);
            assert(all.take(i) =~= replies.take(i));
        }
        assert(all[n].answers(at(all.take(n))));
    }
    if is_run(replies) && reply.answers(at(replies)) {
        assert forall|i: int| 0 <= i < all.len() implies (#[trigger] all[i]).answers(
            at(all.take(i)),
        ) by {
            if i < n {
                assert(all[i] == replies[i]);
                assert(all.take(i) =~= replies.take(i));
            }
        }
    }
}

} // verus!
