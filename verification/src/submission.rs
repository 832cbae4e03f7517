//! The vote submission coordinator's decision logic: per-identity retry
//! policy and classification of adapter replies into submission outcomes.
//!
//! One intent yields one submission per identity, in the intent's identity
//! order. Each identity's attempts are decided from that identity's replies
//! alone, so a failure for one identity never blocks or rolls back another's
//! submission.

use vstd::prelude::*;
use crate::model::AdapterReply;
use crate::model::OutcomeView;
use crate::model::ReplyView;
use crate::model::SubmissionOutcome;
use crate::model::VoteIntent;

verus! {

/// The bounded number of attempts made for one identity before a
/// network-level failure is surfaced as the outcome.
pub const MAX_SUBMISSION_ATTEMPTS: u64 = 3;

/// The outcome decided by the sequence of replies one identity's attempts
/// received, in order: the first terminal reply decides; if every reply was
/// a transient network failure, the outcome is a network error.
pub open spec fn outcome_of(t: Seq<ReplyView>) -> OutcomeView
    decreases t.len(),
{
    if t.len() == 0 {
        OutcomeView::NetworkError
    } else {
        match t[0] {
            ReplyView::Accepted => OutcomeView::Accepted,
            ReplyView::Rejected(reason) => OutcomeView::Rejected(reason),
            ReplyView::NetworkError => outcome_of(t.drop_first()),
        }
    }
}

/// The mathematical image of one identity's reply transcript.
pub open spec fn transcript_views(t: Seq<AdapterReply>) -> Seq<ReplyView> {
    t.map_values(|x: AdapterReply| x@)
}

/// A transcript the retry policy can produce: at most the bounded number of
/// attempts, every reply before the last a transient network failure, and
/// stopped early only by a terminal reply.
pub open spec fn valid_transcript(t: Seq<ReplyView>) -> bool {
    &&& 1 <= t.len() <= MAX_SUBMISSION_ATTEMPTS
    &&& forall|i: int| 0 <= i < t.len() - 1 ==> t[i] is NetworkError
    &&& (t.last() is NetworkError ==> t.len() == MAX_SUBMISSION_ATTEMPTS)
}

/// Decides whether one identity's submission is attempted again after its
/// latest reply: only a transient network failure is retried, and only
/// while fewer than [`MAX_SUBMISSION_ATTEMPTS`] attempts have been made.
/// A terminal platform rejection is never retried.
pub fn should_retry(attempts_made: u64, reply: &AdapterReply) -> (r: bool)
    ensures
        r == (reply@ is NetworkError && attempts_made < MAX_SUBMISSION_ATTEMPTS),
{
    match reply {
        AdapterReply::NetworkError => attempts_made < MAX_SUBMISSION_ATTEMPTS,
        _ => false,
    }
}

/// Classifies one identity's reply transcript into its submission outcome.
pub fn classify_transcript(replies: &Vec<AdapterReply>) -> (r: SubmissionOutcome)
    ensures
        r@ == outcome_of(transcript_views(replies@)),
{
    let ghost full = transcript_views(replies@);
    let mut i: usize = 0;
    proof {
        assert(full.skip(0) =~= full);
    }
    loop
        invariant
            i <= replies@.len(),
            full == transcript_views(replies@),
            outcome_of(full) == outcome_of(full.skip(i as int)),
        decreases replies@.len() - i,
    {
        if i >= replies.len() {
            proof {
                assert(full.skip(i as int) =~= Seq::<ReplyView>::empty());
            }
            return SubmissionOutcome::NetworkError;
        }
        proof {
            assert(full.skip(i as int)[0] == full[i as int]);
            assert(full.skip(i as int).drop_first() =~= full.skip(i as int + 1));
        }
        match &replies[i] {
            AdapterReply::Accepted => {
                return SubmissionOutcome::Accepted;
            },
            AdapterReply::Rejected(reason) => {
                return SubmissionOutcome::Rejected(reason.clone());
            },
            AdapterReply::NetworkError => {
                i = i + 1;
            },
        }
    }
}

/// Turns the reply transcripts of one intent into the outcome sequence the
/// surrounding application surfaces: one outcome per identity, in the
/// intent's identity order, each a function of that identity's transcript
/// alone.
pub fn submit_outcomes(intent: &VoteIntent, transcripts: &Vec<Vec<AdapterReply>>) -> (r: Vec<
    SubmissionOutcome,
>)
    requires
        transcripts@.len() == intent.voter_ids@.len(),
    ensures
        r@.len() == intent.voter_ids@.len(),
        forall|i: int|
            0 <= i < r@.len() ==> r@[i]@ == outcome_of(
                transcript_views(#[trigger] transcripts@[i]@),
            ),
{
    let mut out: Vec<SubmissionOutcome> = Vec::new();
    let mut i: usize = 0;
    while i < transcripts.len()
        invariant
            i <= transcripts@.len(),
            out@.len() == i as int,
            forall|j: int|
                0 <= j < i ==> out@[j]@ == outcome_of(
                    transcript_views(#[trigger] transcripts@[j]@),
                ),
        decreases transcripts@.len() - i,
    {
        out.push(classify_transcript(&transcripts[i]));
        i = i + 1;
    }
    out
}

/// Law: submissions within one intent are independent. An identity's
/// outcome is decided by that identity's reply transcript alone, so two
/// submission rounds whose transcripts agree for one identity agree on that
/// identity's outcome, whatever happened to every other identity.
pub proof fn lemma_submission_independence(
    t1: Seq<Seq<ReplyView>>,
    t2: Seq<Seq<ReplyView>>,
    i: int,
)
    requires
        0 <= i < t1.len(),
        0 <= i < t2.len(),
        t1[i] == t2[i],
    ensures
        outcome_of(t1[i]) == outcome_of(t2[i]),
{
}

/// Law: the retry policy is bounded and selective. A transcript it can
/// produce never exceeds the attempt bound, its outcome is a network error
/// exactly when every reply was one, and a terminal reply is always the
/// last — nothing is retried past it.
pub proof fn lemma_retry_policy_bounded(t: Seq<ReplyView>)
    requires
        valid_transcript(t),
    ensures
        t.len() <= MAX_SUBMISSION_ATTEMPTS,
        outcome_of(t) is NetworkError <==> (forall|i: int| 0 <= i < t.len() ==> t[i] is NetworkError),
        !(t.last() is NetworkError) ==> outcome_of(t) == reply_outcome(t.last()),
{
    lemma_outcome_all_network(t);
    if !(t.last() is NetworkError) {
        lemma_outcome_terminal_last(t);
    }
}

/// The outcome is a network error exactly when every reply was one.
proof fn lemma_outcome_all_network(t: Seq<ReplyView>)
    ensures
        outcome_of(t) is NetworkError <==> (forall|i: int| 0 <= i < t.len() ==> t[i] is NetworkError),
    decreases t.len(),
{
    if t.len() > 0 && t[0] is NetworkError {
        lemma_outcome_all_network(t.drop_first());
        assert(forall|i: int| 1 <= i < t.len() ==> t[i] == t.drop_first()[i - 1]);
    }
}

/// With every earlier reply transient, the last reply decides the outcome.
proof fn lemma_outcome_terminal_last(t: Seq<ReplyView>)
    requires
        t.len() >= 1,
        forall|i: int| 0 <= i < t.len() - 1 ==> t[i] is NetworkError,
        !(t.last() is NetworkError),
    ensures
        outcome_of(t) == reply_outcome(t.last()),
    decreases t.len(),
{
    if t.len() > 1 {
        let u = t.drop_first();
        assert(forall|i: int| 0 <= i < u.len() ==> u[i] == t[i + 1]);
        lemma_outcome_terminal_last(u);
    }
}

/// The outcome a single terminal reply maps to.
pub open spec fn reply_outcome(r: ReplyView) -> OutcomeView {
    match r {
        ReplyView::Accepted => OutcomeView::Accepted,
        ReplyView::Rejected(reason) => OutcomeView::Rejected(reason),
        ReplyView::NetworkError => OutcomeView::NetworkError,
    }
}

} // verus!
