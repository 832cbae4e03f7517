//! The entity graph: contests, contestants, identities, intents and
//! submission outcomes, together with their mathematical views.

use vstd::prelude::*;

verus! {

/// Severity of a user-facing status message.
#[derive(Clone, Copy, PartialEq, Eq, Structural, Debug)]
pub enum Severity {
    Error,
    Info,
    Success,
}

/// Role of a locally held identity. Masternodes and evonodes may vote on
/// contests; plain user identities may register new names instead.
#[derive(Clone, Copy, PartialEq, Eq, Structural, Debug)]
pub enum IdentityKind {
    Masternode,
    Evonode,
    User,
}

/// True for the role classes that are eligible to cast votes.
pub open spec fn can_vote(kind: IdentityKind) -> bool {
    kind == IdentityKind::Masternode || kind == IdentityKind::Evonode
}

/// True for the role class that is eligible to register new names.
pub open spec fn can_register(kind: IdentityKind) -> bool {
    kind == IdentityKind::User
}

/// One claimant competing for a contested name.
#[derive(Clone, Debug, PartialEq, Eq)]
pub struct Contestant {
    /// Identifier of the claimant identity, in display form.
    pub identity_id: String,
    /// Display name of the claimant.
    pub name: String,
    /// Current vote tally for this claimant, replaced wholesale on sync.
    pub votes: u64,
}

/// Mathematical image of a [`Contestant`].
#[verifier::ext_equal]
pub ghost struct ContestantView {
    pub identity_id: Seq<char>,
    pub name: Seq<char>,
    pub votes: u64,
}

impl View for Contestant {
    type V = ContestantView;

    open spec fn view(&self) -> ContestantView {
        ContestantView {
            identity_id: self.identity_id@,
            name: self.name@,
            votes: self.votes,
        }
    }
}

/// One in-progress contest over a single normalized name.
#[derive(Clone, Debug, PartialEq, Eq)]
pub struct ContestedResource {
    /// Canonical, normalized form of the contested name; unique per contest.
    pub normalized_name: String,
    /// Votes to lock the name, unknown until first fetched.
    pub locked_votes: Option<u64>,
    /// Votes to abstain, unknown until first fetched.
    pub abstain_votes: Option<u64>,
    /// Contest end time in epoch milliseconds, unknown until first fetched.
    pub end_time: Option<u64>,
    /// Time of the last successful synchronization, in epoch seconds.
    pub last_updated: Option<u64>,
    /// Claimants for this name, in the order the platform reported them.
    pub contestants: Vec<Contestant>,
}

/// Mathematical image of a [`ContestedResource`].
#[verifier::ext_equal]
pub ghost struct ContestView {
    pub normalized_name: Seq<char>,
    pub locked_votes: Option<u64>,
    pub abstain_votes: Option<u64>,
    pub end_time: Option<u64>,
    pub last_updated: Option<u64>,
    pub contestants: Seq<ContestantView>,
}

impl View for ContestedResource {
    type V = ContestView;

    open spec fn view(&self) -> ContestView {
        ContestView {
            normalized_name: self.normalized_name@,
            locked_votes: self.locked_votes,
            abstain_votes: self.abstain_votes,
            end_time: self.end_time,
            last_updated: self.last_updated,
            contestants: self.contestants@.map_values(|c: Contestant| c@),
        }
    }
}

/// A locally held identity, possibly eligible to vote on contests.
#[derive(Clone, Debug, PartialEq, Eq)]
pub struct VotingIdentity {
    /// Identifier of the identity, in display form.
    pub identity_id: String,
    /// Human-readable label shown when picking a voter.
    pub label: String,
    /// Role class, which decides voting and registration eligibility.
    pub kind: IdentityKind,
}

/// Mathematical image of a [`VotingIdentity`].
#[verifier::ext_equal]
pub ghost struct IdentityView {
    pub identity_id: Seq<char>,
    pub label: Seq<char>,
    pub kind: IdentityKind,
}

impl View for VotingIdentity {
    type V = IdentityView;

    open spec fn view(&self) -> IdentityView {
        IdentityView {
            identity_id: self.identity_id@,
            label: self.label@,
            kind: self.kind,
        }
    }
}

/// The outcome a user asks for on one contest.
#[derive(Clone, Debug, PartialEq, Eq)]
pub enum VoteChoice {
    /// Assign the name to the contestant with this identity identifier.
    TowardContestant(String),
    /// Permanently lock the name instead of assigning it.
    Lock,
    /// Decline to choose among contestants or locking.
    Abstain,
}

/// Mathematical image of a [`VoteChoice`].
pub ghost enum ChoiceView {
    TowardContestant(Seq<char>),
    Lock,
    Abstain,
}

impl View for VoteChoice {
    type V = ChoiceView;

    open spec fn view(&self) -> ChoiceView {
        match self {
            VoteChoice::TowardContestant(id) => ChoiceView::TowardContestant(id@),
            VoteChoice::Lock => ChoiceView::Lock,
            VoteChoice::Abstain => ChoiceView::Abstain,
        }
    }
}

/// An ephemeral, user-confirmed request to vote on one contest with an
/// ordered set of identities. Consumed immediately by submission; never
/// persisted.
#[derive(Clone, Debug, PartialEq, Eq)]
pub struct VoteIntent {
    /// Key of the targeted contest.
    pub contest_key: String,
    /// The chosen outcome.
    pub choice: VoteChoice,
    /// Identifiers of the identities to vote with, in submission order.
    pub voter_ids: Vec<String>,
}

/// Mathematical image of a [`VoteIntent`].
#[verifier::ext_equal]
pub ghost struct IntentView {
    pub contest_key: Seq<char>,
    pub choice: ChoiceView,
    pub voter_ids: Seq<Seq<char>>,
}

impl View for VoteIntent {
    type V = IntentView;

    open spec fn view(&self) -> IntentView {
        IntentView {
            contest_key: self.contest_key@,
            choice: self.choice@,
            voter_ids: self.voter_ids@.map_values(|s: String| s@),
        }
    }
}

/// What the platform answered to a single submission attempt.
#[derive(Clone, Debug, PartialEq, Eq)]
pub enum AdapterReply {
    /// The vote was accepted by the platform.
    Accepted,
    /// The platform rejected the vote terminally, with a reason.
    Rejected(String),
    /// A transient network-level failure; the attempt may be retried.
    NetworkError,
}

/// Mathematical image of an [`AdapterReply`].
pub ghost enum ReplyView {
    Accepted,
    Rejected(Seq<char>),
    NetworkError,
}

impl View for AdapterReply {
    type V = ReplyView;

    open spec fn view(&self) -> ReplyView {
        match self {
            AdapterReply::Accepted => ReplyView::Accepted,
            AdapterReply::Rejected(r) => ReplyView::Rejected(r@),
            AdapterReply::NetworkError => ReplyView::NetworkError,
        }
    }
}

/// Final outcome of one (intent, identity) submission.
#[derive(Clone, Debug, PartialEq, Eq)]
pub enum SubmissionOutcome {
    /// The platform accepted this identity's vote.
    Accepted,
    /// The platform rejected this identity's vote terminally, with a reason.
    Rejected(String),
    /// Every permitted attempt failed at the network level.
    NetworkError,
}

/// Mathematical image of a [`SubmissionOutcome`].
pub ghost enum OutcomeView {
    Accepted,
    Rejected(Seq<char>),
    NetworkError,
}

impl View for SubmissionOutcome {
    type V = OutcomeView;

    open spec fn view(&self) -> OutcomeView {
        match self {
            SubmissionOutcome::Accepted => OutcomeView::Accepted,
            SubmissionOutcome::Rejected(r) => OutcomeView::Rejected(r@),
            SubmissionOutcome::NetworkError => OutcomeView::NetworkError,
        }
    }
}

/// Why a refresh could not be served by the platform adapter.
#[derive(Clone, Copy, PartialEq, Eq, Structural, Debug)]
pub enum SyncError {
    /// The query timed out.
    Timeout,
    /// The connection failed or was reset.
    Connection,
    /// The platform answered with data that could not be understood.
    Malformed,
}

impl SyncError {
    /// The user-facing text for this failure; every variant is transient
    /// or recoverable, so cached values stay on display beside it.
    pub fn message(&self) -> (r: String)
        ensures
            *self is Timeout ==> r@ == "The platform query timed out"@,
            *self is Connection ==> r@ == "The platform could not be reached"@,
            *self is Malformed ==> r@ == "The platform answered with malformed data"@,
    {
        match self {
            SyncError::Timeout => "The platform query timed out".to_owned(),
            SyncError::Connection => "The platform could not be reached".to_owned(),
            SyncError::Malformed => "The platform answered with malformed data".to_owned(),
        }
    }
}

impl Contestant {
    /// Field-for-field copy whose view equals the original's.
    pub fn duplicate(&self) -> (r: Contestant)
        ensures
            r@ == self@,
    {
        Contestant {
            identity_id: self.identity_id.clone(),
            name: self.name.clone(),
            votes: self.votes,
        }
    }
}

impl ContestedResource {
    /// Field-for-field copy whose view equals the original's.
    pub fn duplicate(&self) -> (r: ContestedResource)
        ensures
            r@ == self@,
    {
        let mut contestants: Vec<Contestant> = Vec::new();
        let mut i: usize = 0;
        while i < self.contestants.len()
            invariant
                i <= self.contestants.len(),
                contestants@.len() == i as int,
                forall|j: int| 0 <= j < i ==> contestants@[j]@ == self.contestants@[j]@,
            decreases self.contestants.len() - i,
        {
            contestants.push(self.contestants[i].duplicate());
            i = i + 1;
        }
        proof {
            assert(contestants@.map_values(|c: Contestant| c@) =~= self.contestants@.map_values(
                |c: Contestant| c@,
            ));
        }
        let r = ContestedResource {
            normalized_name: self.normalized_name.clone(),
            locked_votes: self.locked_votes,
            abstain_votes: self.abstain_votes,
            end_time: self.end_time,
            last_updated: self.last_updated,
            contestants,
        };
        proof {
            assert(r@ =~= self@);
        }
        r
    }
}

impl VotingIdentity {
    /// Field-for-field copy whose view equals the original's.
    pub fn duplicate(&self) -> (r: VotingIdentity)
        ensures
            r@ == self@,
    {
        VotingIdentity {
            identity_id: self.identity_id.clone(),
            label: self.label.clone(),
            kind: self.kind,
        }
    }
}

} // verus!
