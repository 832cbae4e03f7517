//! The contested-resource coordinator: owned state updated only through
//! explicit intent handling, with the display projection recomputed per
//! render tick. The surrounding application forwards user intents in and
//! performs the returned actions against the platform.

use vstd::prelude::*;
use vstd::relations::sorted_by;
use crate::cache::LocalCacheStore;
use crate::model::ContestantView;
use crate::model::ContestedResource;
use crate::model::ContestView;
use crate::model::VoteChoice;
use crate::model::VoteIntent;
use crate::model::VotingIdentity;
use crate::projection::contest_order;
use crate::projection::project;
use crate::projection::views_of;
use crate::projection::SortColumn;
use crate::projection::SortOrder;
use crate::projection::SortState;
use crate::refresh::RefreshSynchronizer;
use crate::status::ticked;
use crate::status::StatusBus;
use crate::status::StatusView;

verus! {

/// What the user asks the coordinator to do.
pub enum UiIntent {
    /// Pull the full set of open contests from the platform.
    RequestRefreshAll,
    /// Submit a confirmed voting intent.
    RequestVote(VoteIntent),
    /// Drop the pending status message.
    DismissStatus,
    /// Click the header of a sort column.
    ToggleSort(SortColumn),
}

/// What the surrounding application must perform next.
pub enum CoordinatorAction {
    /// Nothing to perform.
    Idle,
    /// Query the platform for all open contests and feed the result back
    /// through the refresh synchronizer.
    QueryAllContests,
    /// Sign and submit one vote per identity of the intent, in order.
    SubmitVotes(VoteIntent),
}

/// The coordinator's owned state: cache, status bus, refresh synchronizer
/// and the selected sort.
pub struct Coordinator {
    pub cache: LocalCacheStore,
    pub status: StatusBus,
    pub sync: RefreshSynchronizer,
    pub sort: SortState,
}

impl Coordinator {
    /// A coordinator over a freshly loaded cache, with nothing pending and
    /// the listing sorted ascending by contested name.
    pub fn new(cache: LocalCacheStore) -> (r: Coordinator)
        requires
            cache.well_formed(),
        ensures
            r.cache == cache,
            r.status@ == Option::None::<StatusView>,
            r.sync@.in_flight == Seq::<Seq<char>>::empty(),
            r.sync@.queries_issued == 0nat,
            r.sync@.no_duplicates(),
            r.sort == (SortState { column: SortColumn::ContestedName, order: SortOrder::Ascending }),
    {
        Coordinator {
            cache,
            status: StatusBus::new(),
            sync: RefreshSynchronizer::new(),
            sort: SortState { column: SortColumn::ContestedName, order: SortOrder::Ascending },
        }
    }

    /// Dispatches one user intent: a sort toggle or dismissal is applied at
    /// once; a refresh or a vote with at least one identity is handed back
    /// as the action to perform; a vote with no identities does nothing.
    /// The cache and the synchronizer are never touched here.
    pub fn handle_intent(&mut self, intent: UiIntent) -> (action: CoordinatorAction)
        ensures
            final(self).cache == old(self).cache,
            final(self).sync == old(self).sync,
            match intent {
                UiIntent::ToggleSort(column) => {
                    &&& final(self).sort == old(self).sort.toggled(column)
                    &&& final(self).status == old(self).status
                    &&& action is Idle
                },
                UiIntent::DismissStatus => {
                    &&& final(self).status@ == Option::None::<StatusView>
                    &&& final(self).sort == old(self).sort
                    &&& action is Idle
                },
                UiIntent::RequestRefreshAll => {
                    &&& *final(self) == *old(self)
                    &&& action is QueryAllContests
                },
                UiIntent::RequestVote(intent) => {
                    &&& final(self).sort == old(self).sort
                    &&& final(self).status == old(self).status
                    &&& if intent@.voter_ids.len() > 0 {
                        action == CoordinatorAction::SubmitVotes(intent)
                    } else {
                        action is Idle
                    }
                },
            },
    {
        match intent {
            UiIntent::ToggleSort(column) => {
                self.sort.toggle(column);
                CoordinatorAction::Idle
            },
            UiIntent::DismissStatus => {
                self.status.dismiss();
                CoordinatorAction::Idle
            },
            UiIntent::RequestRefreshAll => CoordinatorAction::QueryAllContests,
            UiIntent::RequestVote(intent) => {
                if intent.voter_ids.len() > 0 {
                    CoordinatorAction::SubmitVotes(intent)
                } else {
                    CoordinatorAction::Idle
                }
            },
        }
    }

    /// One render tick: expires the status message by `now` and returns the
    /// current display projection of the cached contests, sorted under the
    /// selected column and direction. Cache, synchronizer and sort are
    /// untouched.
    pub fn render_tick(&mut self, now: u64) -> (rows: Vec<ContestedResource>)
        requires
            old(self).cache.well_formed(),
        ensures
            final(self).cache == old(self).cache,
            final(self).sync == old(self).sync,
            final(self).sort == old(self).sort,
            final(self).status@ == ticked(old(self).status@, now),
            sorted_by(
                views_of(rows@),
                contest_order(final(self).sort.column, final(self).sort.order),
            ),
            views_of(rows@).to_multiset() == final(self).cache.contests_view().to_multiset(),
    {
        self.status.tick(now);
        let rows = project(self.cache.get_contests(), self.sort.column, self.sort.order);
        rows
    }

    /// True when some cached identity may register a new name, which is
    /// what decides whether the register control is offered.
    pub fn has_register_identity(&self) -> (r: bool)
        ensures
            r == (self.cache.users_view().len() > 0),
    {
        self.cache.get_user_identities().len() > 0
    }

    /// True when voting is possible at all: some voting-capable identity is
    /// loaded. Without one, a vote confirmation cannot be offered.
    pub fn can_vote_now(&self) -> (r: bool)
        ensures
            r == (self.cache.voting_view().len() > 0),
    {
        self.cache.get_voting_identities().len() > 0
    }
}

/// The highest vote tally among the contestants, zero when there are none.
pub open spec fn max_votes(s: Seq<ContestantView>) -> int
    decreases s.len(),
{
    if s.len() == 0 {
        0
    } else {
        let rest = max_votes(s.drop_first());
        if s[0].votes as int >= rest {
            s[0].votes as int
        } else {
            rest
        }
    }
}

/// The highest tally is never negative and at least every contestant's.
pub proof fn lemma_max_votes_bounds(s: Seq<ContestantView>)
    ensures
        max_votes(s) >= 0,
        forall|i: int| 0 <= i < s.len() ==> #[trigger] (s[i].votes as int) <= max_votes(s),
    decreases s.len(),
{
    if s.len() > 0 {
        lemma_max_votes_bounds(s.drop_first());
        assert(forall|i: int| 1 <= i < s.len() ==> s[i] == s.drop_first()[i - 1]);
    }
}

/// The highest vote tally among the contest's contestants, zero when the
/// contestant list is still empty.
pub fn max_contestant_votes(c: &ContestedResource) -> (r: u64)
    ensures
        r as int == max_votes(c@.contestants),
{
    let ghost all = c@.contestants;
    let mut best: u64 = 0;
    let mut i: usize = 0;
    proof {
        lemma_max_votes_bounds(all);
        assert(all.skip(0) =~= all);
    }
    loop
        invariant
            i <= c.contestants@.len(),
            all == c@.contestants,
            max_votes(all) == (if best as int >= max_votes(all.skip(i as int)) {
                best as int
            } else {
                max_votes(all.skip(i as int))
            }),
        decreases c.contestants@.len() - i,
    {
        if i >= c.contestants.len() {
            proof {
                assert(all.skip(i as int) =~= Seq::<ContestantView>::empty());
            }
            return best;
        }
        proof {
            assert(all.skip(i as int)[0] == all[i as int]);
            assert(all.skip(i as int).drop_first() =~= all.skip(i as int + 1));
        }
        let votes = c.contestants[i].votes;
        if votes > best {
            best = votes;
        }
        i = i + 1;
    }
}

/// True when the locked-vote tally strictly leads every contestant's
/// tally, which is what the listing renders in emphasis; an unknown
/// locked tally counts as zero and never leads.
pub fn locked_votes_lead(c: &ContestedResource) -> (r: bool)
    ensures
        r == (locked_or_zero(c@) > max_votes(c@.contestants)),
{
    let max_c = max_contestant_votes(c);
    match c.locked_votes {
        Some(l) => l > max_c,
        None => {
            proof {
                lemma_max_votes_bounds(c@.contestants);
            }
            false
        },
    }
}

/// The locked-vote tally with an unknown value reading as zero.
pub open spec fn locked_or_zero(c: ContestView) -> int {
    match c.locked_votes {
        Option::Some(l) => l as int,
        Option::None => 0,
    }
}

/// A fresh, unconfirmed voting intent for one contest and choice, with no
/// identities selected yet.
pub fn pending_vote(contest_key: &String, choice: VoteChoice) -> (r: VoteIntent)
    ensures
        r@.contest_key == contest_key@,
        r@.choice == choice@,
        r@.voter_ids == Seq::<Seq<char>>::empty(),
{
    let r = VoteIntent { contest_key: contest_key.clone(), choice, voter_ids: Vec::new() };
    proof {
        assert(r@.voter_ids =~= Seq::<Seq<char>>::empty());
    }
    r
}

/// Adds one selected identity to the intent's voters, in selection order.
pub fn confirm_with_identity(intent: &mut VoteIntent, identity: &VotingIdentity)
    ensures
        final(intent)@.contest_key == old(intent)@.contest_key,
        final(intent)@.choice == old(intent)@.choice,
        final(intent)@.voter_ids == old(intent)@.voter_ids.push(identity@.identity_id),
{
    let ghost prior = intent@.voter_ids;
    intent.voter_ids.push(identity.identity_id.clone());
    proof {
        assert(intent@.voter_ids =~= prior.push(identity@.identity_id));
    }
}

/// Selects every loaded voting identity for the intent, in list order.
pub fn confirm_with_all(intent: &mut VoteIntent, identities: &Vec<VotingIdentity>)
    ensures
        final(intent)@.contest_key == old(intent)@.contest_key,
        final(intent)@.choice == old(intent)@.choice,
        final(intent)@.voter_ids == old(intent)@.voter_ids + identities@.map_values(
            |x: VotingIdentity| x@.identity_id,
        ),
{
    let ghost prior = intent@.voter_ids;
    let ghost added = identities@.map_values(|x: VotingIdentity| x@.identity_id);
    let mut i: usize = 0;
    proof {
        assert(intent@.voter_ids =~= prior + added.take(0));
    }
    while i < identities.len()
        invariant
            i <= identities@.len(),
            added == identities@.map_values(|x: VotingIdentity| x@.identity_id),
            intent@.contest_key == old(intent)@.contest_key,
            intent@.choice == old(intent)@.choice,
            prior == old(intent)@.voter_ids,
            intent@.voter_ids == prior + added.take(i as int),
        decreases identities@.len() - i,
    {
        let ghost before = intent@.voter_ids;
        intent.voter_ids.push(identities[i].identity_id.clone());
        proof {
            assert(intent@.voter_ids =~= before.push(added[i as int]));
            assert(prior + added.take(i as int + 1) =~= (prior + added.take(i as int)).push(
                added[i as int],
            ));
        }
        i = i + 1;
    }
    proof {
        assert(added.take(identities@.len() as int) =~= added);
    }
}

} // verus!
