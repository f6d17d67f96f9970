//! The secret that a node and the callers of its engine API share.
//!
//! The caller performs each step and hands back what came of it; [`SecretPlan::next`] says what
//! is to be done then.

use crate::entropy::random_bytes;
use crate::error::ClientError;
use crate::outside::{hex_digits, hex_encode};
use crate::text::{digit, digit_value};
use vstd::prelude::*;

verus! {

/// Whether a text is the hexadecimal form of thirty-two bytes.
pub open spec fn is_secret(text: Seq<char>) -> bool {
    exists|bytes: Seq<u8>| bytes.len() == 32 && text == #[trigger] hex_digits(bytes)
}

/// Whether a text is the hexadecimal form of bytes that were drawn at random.
pub open spec fn is_drawn(text: Seq<char>) -> bool {
    exists|drawn: [u8; 32]| #[trigger]
        call_ensures(random_bytes, (), drawn) && text == hex_digits(drawn@)
}

/// The hexadecimal form of a secret.
pub fn encode_secret(secret: &[u8; 32]) -> (text: String)
    ensures
        text@ == hex_digits(secret@),
        is_secret(text@),
{
    hex_encode(secret)
}

/// A new random secret, in hexadecimal.
pub fn generate_secret() -> (text: String)
    ensures
        is_secret(text@),
        is_drawn(text@),
{
    encode_secret(&random_bytes())
}

/// A secret is sixty-four characters long, each of them a digit or one of `a` to `f`.
pub proof fn law_secret_is_lower_hex(text: Seq<char>)
    requires
        is_secret(text),
    ensures
        text.len() == 64,
        forall|i: int|
            0 <= i < text.len() ==> '0' <= #[trigger] text[i] <= '9' || 'a' <= text[i] <= 'f',
{
}

/// No two secrets have the same hexadecimal form.
pub proof fn law_hex_digits_are_injective(a: Seq<u8>, b: Seq<u8>)
    requires
        hex_digits(a) == hex_digits(b),
    ensures
        a == b,
{
    assert(hex_digits(a).len() == 2 * a.len() && hex_digits(b).len() == 2 * b.len());
    assert forall|i: int| 0 <= i < a.len() implies a[i] == b[i] by {
        let j = 2 * i;
        let high = hex_digits(a)[j];
        let low = hex_digits(a)[j + 1];
        assert(high == hex_digits(b)[j]);
        assert(low == hex_digits(b)[j + 1]);
        assert(j / 2 == i && j % 2 == 0);
        assert((j + 1) / 2 == i && (j + 1) % 2 == 1);
        assert(high == digit(a[i] as nat / 16) && high == digit(b[i] as nat / 16));
        assert(low == digit(a[i] as nat % 16) && low == digit(b[i] as nat % 16));
        assert(digit_value(high) == a[i] as nat / 16 && digit_value(high) == b[i] as nat / 16);
        assert(digit_value(low) == a[i] as nat % 16 && digit_value(low) == b[i] as nat % 16);
    }
    assert(a =~= b);
}

/// Where the secret is kept.
#[derive(Debug)]
pub struct SecretPlan {
    /// The file that holds the secret.
    pub path: String,
    /// The directory of that file.
    pub parent: String,
}

/// What is to be done next.
pub enum SecretStep {
    /// Look whether a file stands at `path`.
    Find,
    /// Make the directory `parent`, with its parents, unless it is there.
    CreateDir,
    /// Write this text to the file at `path`.
    Write(String),
    /// Nothing: there is a secret.
    Present,
    /// Nothing: there is no secret.
    Failed(ClientError),
}

/// What came of a step.
pub enum SecretReply {
    /// Whether the file is there.
    Found(bool),
    /// Whether the change to the file system was made.
    Performed(bool),
}

impl SecretReply {
    /// Whether this is a reply to the step.
    pub open spec fn answers(self, step: SecretStep) -> bool {
        match step {
            SecretStep::Find => self is Found,
            SecretStep::CreateDir | SecretStep::Write(_) => self is Performed,
            SecretStep::Present | SecretStep::Failed(_) => false,
        }
    }
}

impl SecretPlan {
    /// The step that follows a reply, where `secret` is the one to be written if there is none.
    pub open spec fn following(
        self,
        step: SecretStep,
        reply: SecretReply,
        secret: String,
    ) -> SecretStep {
        match (step, reply) {
            (SecretStep::Find, SecretReply::Found(there)) => if there {
                SecretStep::Present
            } else {
                SecretStep::CreateDir
            },
            (SecretStep::CreateDir, SecretReply::Performed(ok)) => if ok {
                SecretStep::Write(secret)
            } else {
                SecretStep::Failed(ClientError::SecretDirNotCreated)
            },
            (SecretStep::Write(_), SecretReply::Performed(ok)) => if ok {
                SecretStep::Present
            } else {
                SecretStep::Failed(ClientError::SecretNotWritten)
            },
            _ => step,
        }
    }

    /// The step to begin with.
    pub fn first(&self) -> (step: SecretStep)
        ensures
            step == SecretStep::Find,
    {
        SecretStep::Find
    }

    /// The step that follows a reply, with a new random secret if one is to be written.
    pub fn next(&self, step: SecretStep, reply: SecretReply) -> (following: SecretStep)
        requires
            reply.answers(step),
        ensures
            step is CreateDir && reply == SecretReply::Performed(true) ==> (following matches
                SecretStep::Write(secret) && is_secret(secret@) && is_drawn(secret@)),
            !(step is CreateDir && reply == SecretReply::Performed(true)) ==> forall|secret: String|
                #![trigger self.following(step, reply, secret)]
                following == self.following(step, reply, secret),
            step is Find && reply == SecretReply::Found(true) ==> following is Present,
            step is Find && reply == SecretReply::Found(false) ==> following is CreateDir,
            step is CreateDir && reply == SecretReply::Performed(false) ==> following
                == SecretStep::Failed(ClientError::SecretDirNotCreated),
            step is Write && reply == SecretReply::Performed(true) ==> following is Present,
            step is Write && reply == SecretReply::Performed(false) ==> following
                == SecretStep::Failed(ClientError::SecretNotWritten),
    {
        let secret = match (&step, &reply) {
            (SecretStep::CreateDir, SecretReply::Performed(true)) => generate_secret(),
            _ => String::new(),
        };
        self.next_with(step, reply, secret)
    }

    /// The step that follows a reply, where `secret` is the one to be written if there is none.
    pub fn next_with(&self, step: SecretStep, reply: SecretReply, secret: String) -> (following:
        SecretStep)
        requires
            reply.answers(step),
        ensures
            following == self.following(step, reply, secret),
    {
        match (step, reply) {
            (SecretStep::Find, SecretReply::Found(there)) => {
                if there {
                    SecretStep::Present
                } else {
                    SecretStep::CreateDir
                }
            },
            (SecretStep::CreateDir, SecretReply::Performed(ok)) => {
                if ok {
                    SecretStep::Write(secret)
                } else {
                    SecretStep::Failed(ClientError::SecretDirNotCreated)
                }
            },
            (SecretStep::Write(_), SecretReply::Performed(ok)) => {
                if ok {
                    SecretStep::Present
                } else {
                    SecretStep::Failed(ClientError::SecretNotWritten)
                }
            },
            (step, _) => step,
        }
    }

    /// The step that a run is at after some replies.
    pub open spec fn at(self, replies: Seq<SecretReply>, secret: String) -> SecretStep
        decreases replies.len(),
    {
        if replies.len() == 0 {
            SecretStep::Find
        } else {
            self.following(self.at(replies.drop_last(), secret), replies.last(), secret)
        }
    }

    /// Whether each reply of a run answers the step that the run was at.
    pub open spec fn is_run(self, replies: Seq<SecretReply>, secret: String) -> bool {
        forall|i: int|
            0 <= i < replies.len() ==> (#[trigger] replies[i]).answers(
                self.at(replies.take(i), secret),
            )
    }
}

proof fn lemma_secret_advances(
    plan: SecretPlan,
    replies: Seq<SecretReply>,
    secret: String,
    i: int,
)
    requires
        plan.is_run(replies, secret),
        0 <= i < replies.len(),
    ensures
        replies[i].answers(plan.at(replies.take(i), secret)),
        plan.at(replies.take(i + 1), secret) == plan.following(
            plan.at(replies.take(i), secret),
            replies[i],
            secret,
        ),
{
    assert(replies.take(i + 1).drop_last() =~= replies.take(i));
    assert(replies.take(i + 1).last() == replies[i]);
}

/// A secret that is there is never written over: writing comes only after the file was not found
/// and its directory was made, and what is written is the new secret.
pub proof fn law_existing_secret_is_kept(
    plan: SecretPlan,
    replies: Seq<SecretReply>,
    secret: String,
)
    requires
        plan.is_run(replies, secret),
    ensures
        plan.at(replies, secret) is Write ==> {
            &&& plan.at(replies, secret) == SecretStep::Write(secret)
            &&& replies.len() == 2
            &&& replies[0] == SecretReply::Found(false)
            &&& replies[1] == SecretReply::Performed(true)
        },
{
    let n = replies.len() as int;
    assert(replies.take(n) =~= replies);
    law_secret_present(plan, replies, secret);
    if n >= 1 {
        lemma_secret_advances(plan, replies, secret, 0);
        assert(replies.take(0) =~= seq![]);
    }
    if n >= 2 {
        lemma_secret_advances(plan, replies, secret, 1);
    }
    if n >= 3 {
        lemma_secret_advances(plan, replies, secret, 2);
        assert(!(plan.at(replies, secret) is Write));
    }
}

/// There is a secret in the end exactly when there was one, or when its directory was made and it
/// was written. This takes three replies at most.
pub proof fn law_secret_present(plan: SecretPlan, replies: Seq<SecretReply>, secret: String)
    requires
        plan.is_run(replies, secret),
    ensures
        replies.len() <= 3,
        plan.at(replies, secret) is Present <==> {
            ||| replies.len() == 1 && replies[0] == SecretReply::Found(true)
            ||| {
                &&& replies.len() == 3
                &&& replies[0] == SecretReply::Found(false)
                &&& replies[1] == SecretReply::Performed(true)
                &&& replies[2] == SecretReply::Performed(true)
            }
        },
{
    let n = replies.len() as int;
    assert(replies.take(n) =~= replies);
    if n >= 1 {
        lemma_secret_advances(plan, replies, secret, 0);
    }
    if n >= 2 {
        lemma_secret_advances(plan, replies, secret, 1);
    }
    if n >= 3 {
        lemma_secret_advances(plan, replies, secret, 2);
    }
    if n >= 4 {
        lemma_secret_advances(plan, replies, secret, 3);
    }
}

/// Whether a text holds two hexadecimal digits for each byte, the high one first: digits that read
/// as the two halves of the byte.
pub open spec fn reads_as_bytes(text: Seq<char>, bytes: Seq<u8>) -> bool {
    &&& text.len() == 2 * bytes.len()
    &&& forall|i: int|
        0 <= i < text.len() ==> '0' <= #[trigger] text[i] <= '9' || 'a' <= text[i] <= 'f'
    &&& forall|i: int|
        0 <= i < bytes.len() ==> 16 * digit_value(text[2 * i]) + digit_value(text[2 * i + 1])
            == #[trigger] bytes[i]
}

proof fn lemma_hex_digits_read_as_bytes(bytes: Seq<u8>)
    ensures
        reads_as_bytes(hex_digits(bytes), bytes),
{
    let text = hex_digits(bytes);
    assert forall|i: int| 0 <= i < bytes.len() implies 16 * digit_value(text[2 * i]) + digit_value(
        text[2 * i + 1],
    ) == #[trigger] bytes[i] by {
        let j = 2 * i;
        assert(j / 2 == i && j % 2 == 0);
        assert((j + 1) / 2 == i && (j + 1) % 2 == 1);
        assert(text[j] == digit(bytes[i] as nat / 16));
        assert(text[j + 1] == digit(bytes[i] as nat % 16));
    }
}

/// A secret is written so that each byte reads back.
pub proof fn law_encoded_secret_reads_back(secret: [u8; 32], text: String)
    requires
        call_ensures(encode_secret, (&secret,), text),
    ensures
        text@.len() == 64,
        reads_as_bytes(text@, secret@),
{
    lemma_hex_digits_read_as_bytes(secret@);
}

/// A new secret reads as thirty-two bytes that were drawn at random.
pub proof fn law_generated_secret_was_drawn(text: String)
    requires
        call_ensures(generate_secret, (), text),
    ensures
        text@.len() == 64,
        exists|drawn: [u8; 32]| #[trigger]
            call_ensures(random_bytes, (), drawn) && reads_as_bytes(text@, drawn@),
{
    let drawn = choose|drawn: [u8; 32]| #[trigger]
        call_ensures(random_bytes, (), drawn) && text@ == hex_digits(drawn@);
    lemma_hex_digits_read_as_bytes(drawn@);
}

/// A secret that [`SecretPlan::next`] has written reads as thirty-two bytes that were drawn at
/// random, and it comes only after the directory was made.
pub proof fn law_written_secret_was_drawn(
    plan: SecretPlan,
    reply: SecretReply,
    following: SecretStep,
)
    requires
        reply.answers(SecretStep::CreateDir),
        call_ensures(SecretPlan::next, (&plan, SecretStep::CreateDir, reply), following),
    ensures
        following is Write <==> reply == SecretReply::Performed(true),
        following matches SecretStep::Write(text) ==> text@.len() == 64 && exists|drawn: [u8; 32]|
            #[trigger]
            call_ensures(random_bytes, (), drawn) && reads_as_bytes(text@, drawn@),
        reply == SecretReply::Performed(false) ==> following == SecretStep::Failed(
            ClientError::SecretDirNotCreated,
        ),
{
    if reply == SecretReply::Performed(true) {
        let text = following->Write_0;
        let drawn = choose|drawn: [u8; 32]| #[trigger]
            call_ensures(random_bytes, (), drawn) && text@ == hex_digits(drawn@);
        lemma_hex_digits_read_as_bytes(drawn@);
    }
}

/// What is done to have a secret follows from the replies alone: the file is looked for, and if it
/// is not there its directory is made and the secret is written.
pub proof fn law_secret_steps_follow_replies(
    plan: SecretPlan,
    replies: Seq<SecretReply>,
    secret: String,
)
    requires
        plan.is_run(replies, secret),
    ensures
        plan.at(replies, secret) is Find <==> replies.len() == 0,
        plan.at(replies, secret) is CreateDir <==> replies.len() == 1 && replies[0]
            == SecretReply::Found(false),
        plan.at(replies, secret) is Write <==> replies.len() == 2 && replies[1]
            == SecretReply::Performed(true),
        plan.at(replies, secret) is Write ==> plan.at(replies, secret) == SecretStep::Write(secret),
{
    lemma_secret_run(plan, replies, secret);
}

/// There is no secret, and why, follows from the last reply: its directory was not made, or it was
/// not written.
pub proof fn law_secret_failure_names_cause(
    plan: SecretPlan,
    replies: Seq<SecretReply>,
    secret: String,
    error: ClientError,
)
    requires
        plan.is_run(replies, secret),
    ensures
        plan.at(replies, secret) == SecretStep::Failed(error) <==> {
            ||| replies.len() == 2 && replies[1] == SecretReply::Performed(false) && error
                == ClientError::SecretDirNotCreated
            ||| replies.len() == 3 && replies[2] == SecretReply::Performed(false) && error
                == ClientError::SecretNotWritten
        },
{
    lemma_secret_run(plan, replies, secret);
}

/// All that a run of at most three replies is made of.
proof fn lemma_secret_run(plan: SecretPlan, replies: Seq<SecretReply>, secret: String)
    requires
        plan.is_run(replies, secret),
    ensures
        replies.len() <= 3,
        replies.len() == 0 ==> plan.at(replies, secret) == SecretStep::Find,
        replies.len() >= 1 ==> replies[0] is Found,
        replies.len() == 1 ==> plan.at(replies, secret) == plan.following(
            SecretStep::Find,
            replies[0],
            secret,
        ),
        replies.len() >= 2 ==> replies[0] == SecretReply::Found(false) && replies[1] is Performed,
        replies.len() == 2 ==> plan.at(replies, secret) == plan.following(
            SecretStep::CreateDir,
            replies[1],
            secret,
        ),
        replies.len() == 3 ==> replies[1] == SecretReply::Performed(true) && replies[2] is Performed
            && plan.at(replies, secret) == plan.following(
            SecretStep::Write(secret),
            replies[2],
            secret,
        ),
{
    law_secret_present(plan, replies, secret);
    let n = replies.len() as int;
    assert(replies.take(n) =~= replies);
    if n >= 1 {
        lemma_secret_advances(plan, replies, secret, 0);
        assert(replies.take(0) =~= seq![]);
    }
    if n >= 2 {
        lemma_secret_advances(plan, replies, secret, 1);
    }
    if n >= 3 {
        lemma_secret_advances(plan, replies, secret, 2);
    }
}

/// A run goes on as [`SecretPlan::next_with`] says, and as [`SecretPlan::next`] says wherever no
/// secret is made, from the step that [`SecretPlan::first`] says.
pub proof fn law_secret_run_is_what_next_says(
    plan: SecretPlan,
    replies: Seq<SecretReply>,
    secret: String,
    reply: SecretReply,
    begun: SecretStep,
    with: SecretStep,
    following: SecretStep,
)
    requires
        plan.is_run(replies.push(reply), secret),
        call_ensures(SecretPlan::first, (&plan,), begun),
        call_ensures(
            SecretPlan::next_with,
            (&plan, plan.at(replies, secret), reply, secret),
            with,
        ),
        call_ensures(SecretPlan::next, (&plan, plan.at(replies, secret), reply), following),
    ensures
        begun == plan.at(seq![], secret),
        with == plan.at(replies.push(reply), secret),
        following == with || following is Write && with is Write,
{
    let all = replies.push(reply);
    let n = replies.len() as int;
    lemma_secret_advances(plan, all, secret, n);
    assert(all.take(n) =~= replies);
    assert(all.take(n + 1) =~= all);
    assert(all[n] == reply);
}

/// Every outcome of a step can be told, and nothing is asked once there is a secret or there can be
/// none.
pub proof fn law_secret_hears_every_outcome(step: SecretStep, reply: SecretReply)
    ensures
        step is Find ==> (reply.answers(step) <==> reply is Found),
        step is CreateDir || step is Write ==> (reply.answers(step) <==> reply is Performed),
        step is Present || step is Failed ==> !reply.answers(step),
{
}

/// Nothing said yet is a run, and a run goes on with every reply that answers the step it is at, and
/// with no other.
pub proof fn law_secret_run_goes_on_by_answers(
    plan: SecretPlan,
    replies: Seq<SecretReply>,
    secret: String,
    reply: SecretReply,
)
    ensures
        plan.is_run(Seq::<SecretReply>::empty(), secret),
        plan.is_run(replies.push(reply), secret) <==> plan.is_run(replies, secret) && reply.answers(
            plan.at(replies, secret),
        ),
{
    let all = replies.push(reply);
    let n = replies.len() as int;
    assert(all.take(n) =~= replies);
    assert(all[n] == reply);
    if plan.is_run(all, secret) {
        assert forall|i: int| 0 <= i < replies.len() implies (#[trigger] replies[i]).answers(
            plan.at(replies.take(i), secret),
        ) by {
            assert(all[i] == replies[i]);
            assert(all.take(i) =~= replies.take(i));
        }
        assert(all[n].answers(plan.at(all.take(n), secret)));
    }
    if plan.is_run(replies, secret) && reply.answers(plan.at(replies, secret)) {
        assert forall|i: int| 0 <= i < all.len() implies (#[trigger] all[i]).answers(
            plan.at(all.take(i), secret),
        ) by {
            if i < n {
                assert(all[i] == replies[i]);
                assert(all.take(i) =~= replies.take(i));
            }
        }
    }
}

} // verus!
