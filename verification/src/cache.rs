//! The local cache store: the single owner of all cached contest snapshots
//! and locally held identities. Contest entries are keyed by their
//! normalized name and replaced only wholesale, never merged field by
//! field, so a reader never observes values mixed from two query rounds.

use vstd::prelude::*;
use crate::model::can_register;
use crate::model::can_vote;
use crate::model::ContestView;
use crate::model::ContestedResource;
use crate::model::IdentityView;
use crate::model::VotingIdentity;
use crate::projection::distinct_keys;
use crate::projection::views_of;

verus! {

/// True when some cached contest carries the normalized name `k`.
pub open spec fn has_key(s: Seq<ContestView>, k: Seq<char>) -> bool {
    exists|i: int| 0 <= i < s.len() && s[i].normalized_name == k
}

/// The index of the contest with normalized name `k`; meaningful only
/// under [`has_key`], unique under [`distinct_keys`].
pub open spec fn key_index(s: Seq<ContestView>, k: Seq<char>) -> int {
    choose|i: int| 0 <= i < s.len() && s[i].normalized_name == k
}

/// The cached contest with normalized name `k`.
pub open spec fn lookup(s: Seq<ContestView>, k: Seq<char>) -> ContestView {
    s[key_index(s, k)]
}

/// Under distinct keys, [`key_index`] is the one index holding `k`.
pub proof fn lemma_key_index(s: Seq<ContestView>, k: Seq<char>)
    requires
        distinct_keys(s),
        has_key(s, k),
    ensures
        0 <= key_index(s, k) < s.len(),
        s[key_index(s, k)].normalized_name == k,
        forall|j: int| 0 <= j < s.len() && s[j].normalized_name == k ==> j == key_index(s, k),
{
    let i = key_index(s, k);
    assert(0 <= i < s.len() && s[i].normalized_name == k);
}

/// The views of the input in order, keeping of several entries with one
/// normalized name only the first.
pub open spec fn dedup_by_key(s: Seq<ContestView>) -> Seq<ContestView>
    decreases s.len(),
{
    if s.len() == 0 {
        s
    } else {
        let prefix = dedup_by_key(s.drop_last());
        if has_key(prefix, s.last().normalized_name) {
            prefix
        } else {
            prefix.push(s.last())
        }
    }
}

/// Durable owner of contest snapshots and locally held identities. Reads
/// always succeed from what is cached, whether or not the platform is
/// reachable.
pub struct LocalCacheStore {
    contests: Vec<ContestedResource>,
    voting_identities: Vec<VotingIdentity>,
    user_identities: Vec<VotingIdentity>,
}

impl LocalCacheStore {
    /// The views of the cached contests, in cache order.
    pub closed spec fn contests_view(self) -> Seq<ContestView> {
        views_of(self.contests@)
    }

    /// The views of the cached voting-capable identities.
    pub closed spec fn voting_view(self) -> Seq<IdentityView> {
        self.voting_identities@.map_values(|x: VotingIdentity| x@)
    }

    /// The views of the cached registration-capable identities.
    pub closed spec fn users_view(self) -> Seq<IdentityView> {
        self.user_identities@.map_values(|x: VotingIdentity| x@)
    }

    /// Cached contests carry pairwise distinct normalized names, every
    /// voting identity may vote, and every user identity may register.
    pub open spec fn well_formed(self) -> bool {
        &&& distinct_keys(self.contests_view())
        &&& forall|i: int|
            0 <= i < self.voting_view().len() ==> can_vote(#[trigger] self.voting_view()[i].kind)
        &&& forall|i: int|
            0 <= i < self.users_view().len() ==> can_register(
                #[trigger] self.users_view()[i].kind,
            )
    }

    /// A store loaded from plain records, as read from durable storage.
    /// Contest entries repeating a normalized name keep only their first
    /// occurrence; identities are admitted into each list by eligibility.
    pub fn from_loaded(
        contests: Vec<ContestedResource>,
        voting: Vec<VotingIdentity>,
        users: Vec<VotingIdentity>,
    ) -> (r: LocalCacheStore)
        ensures
            r.well_formed(),
            r.contests_view() == dedup_by_key(views_of(contests@)),
            r.voting_view() == voting@.map_values(|x: VotingIdentity| x@).filter(
                |x: IdentityView| can_vote(x.kind),
            ),
            r.users_view() == users@.map_values(|x: VotingIdentity| x@).filter(
                |x: IdentityView| can_register(x.kind),
            ),
    {
        let mut kept: Vec<ContestedResource> = Vec::new();
        let ghost all = views_of(contests@);
        let mut i: usize = 0;
        proof {
            assert(all.take(0) =~= Seq::<ContestView>::empty());
        }
        while i < contests.len()
            invariant
                i <= contests@.len(),
                all == views_of(contests@),
                distinct_keys(views_of(kept@)),
                views_of(kept@) == dedup_by_key(all.take(i as int)),
            decreases contests@.len() - i,
        {
            let ghost prior = views_of(kept@);
            let present = contains_key_vec(&kept, &contests[i].normalized_name);
            if !present {
                kept.push(contests[i].duplicate());
            }
            proof {
                assert(all.take(i + 1).drop_last() =~= all.take(i as int));
                assert(all.take(i + 1).last() == contests@[i as int]@);
                if !present {
                    assert(views_of(kept@) =~= prior.push(contests@[i as int]@));
                    assert(distinct_keys(views_of(kept@))) by {
                        assert(forall|j: int|
                            0 <= j < prior.len() ==> #[trigger] prior[j].normalized_name
                                != contests@[i as int]@.normalized_name);
                    }
                }
            }
            i = i + 1;
        }
        proof {
            assert(all.take(contests@.len() as int) =~= all);
        }
        let voting_kept = keep_eligible_voters(voting);
        let users_kept = keep_eligible_registrants(users);
        let ghost gv = voting_kept@;
        let ghost gu = users_kept@;
        let r = LocalCacheStore {
            contests: kept,
            voting_identities: voting_kept,
            user_identities: users_kept,
        };
        proof {
            assert forall|j: int| 0 <= j < r.voting_view().len() implies can_vote(
                #[trigger] r.voting_view()[j].kind,
            ) by {
                assert(r.voting_view()[j] == gv[j]@);
            }
            assert forall|j: int| 0 <= j < r.users_view().len() implies can_register(
                #[trigger] r.users_view()[j].kind,
            ) by {
                assert(r.users_view()[j] == gu[j]@);
            }
        }
        r
    }

    /// An empty store: nothing cached yet.
    pub fn new() -> (r: LocalCacheStore)
        ensures
            r.well_formed(),
            r.contests_view() == Seq::<ContestView>::empty(),
            r.voting_view() == Seq::<IdentityView>::empty(),
            r.users_view() == Seq::<IdentityView>::empty(),
    {
        let r = LocalCacheStore {
            contests: Vec::new(),
            voting_identities: Vec::new(),
            user_identities: Vec::new(),
        };
        proof {
            assert(r.contests_view() =~= Seq::<ContestView>::empty());
            assert(r.voting_view() =~= Seq::<IdentityView>::empty());
            assert(r.users_view() =~= Seq::<IdentityView>::empty());
        }
        r
    }

    /// The cached contests, in cache order.
    pub fn get_contests(&self) -> (r: &Vec<ContestedResource>)
        ensures
            views_of(r@) == self.contests_view(),
    {
        &self.contests
    }

    /// The cached voting-capable identities.
    pub fn get_voting_identities(&self) -> (r: &Vec<VotingIdentity>)
        ensures
            r@.map_values(|x: VotingIdentity| x@) == self.voting_view(),
    {
        &self.voting_identities
    }

    /// The cached registration-capable identities.
    pub fn get_user_identities(&self) -> (r: &Vec<VotingIdentity>)
        ensures
            r@.map_values(|x: VotingIdentity| x@) == self.users_view(),
    {
        &self.user_identities
    }

    /// Replaces both identity lists wholesale from freshly read records,
    /// admitting entries by eligibility; contests are untouched.
    pub fn replace_identities(&mut self, voting: Vec<VotingIdentity>, users: Vec<VotingIdentity>)
        requires
            old(self).well_formed(),
        ensures
            final(self).well_formed(),
            final(self).contests_view() == old(self).contests_view(),
            final(self).voting_view() == voting@.map_values(|x: VotingIdentity| x@).filter(
                |x: IdentityView| can_vote(x.kind),
            ),
            final(self).users_view() == users@.map_values(|x: VotingIdentity| x@).filter(
                |x: IdentityView| can_register(x.kind),
            ),
    {
        let voting_kept = keep_eligible_voters(voting);
        let users_kept = keep_eligible_registrants(users);
        let ghost gv = voting_kept@;
        let ghost gu = users_kept@;
        self.voting_identities = voting_kept;
        self.user_identities = users_kept;
        proof {
            assert forall|j: int| 0 <= j < self.voting_view().len() implies can_vote(
                #[trigger] self.voting_view()[j].kind,
            ) by {
                assert(self.voting_view()[j] == gv[j]@);
            }
            assert forall|j: int| 0 <= j < self.users_view().len() implies can_register(
                #[trigger] self.users_view()[j].kind,
            ) by {
                assert(self.users_view()[j] == gu[j]@);
            }
        }
    }

    /// Replaces the whole cached snapshot of one contest — or admits a
    /// newly observed contest — leaving every other entry untouched.
    pub fn replace_contest(&mut self, c: ContestedResource)
        requires
            old(self).well_formed(),
        ensures
            final(self).well_formed(),
            final(self).voting_view() == old(self).voting_view(),
            final(self).users_view() == old(self).users_view(),
            has_key(final(self).contests_view(), c@.normalized_name),
            lookup(final(self).contests_view(), c@.normalized_name) == c@,
            forall|k: Seq<char>|
                k != c@.normalized_name ==> (has_key(final(self).contests_view(), k) == has_key(
                    old(self).contests_view(),
                    k,
                )),
            forall|k: Seq<char>|
                k != c@.normalized_name && has_key(old(self).contests_view(), k) ==> lookup(
                    final(self).contests_view(),
                    k,
                ) == lookup(old(self).contests_view(), k),
    {
        let ghost gc = c@;
        let ghost key = c@.normalized_name;
        let ghost prior = self.contests_view();
        let mut i: usize = 0;
        let n = self.contests.len();
        while i < n
            invariant
                i <= n,
                n == self.contests@.len(),
                old(self).well_formed(),
                *self == *old(self),
                c@ == gc,
                prior == old(self).contests_view(),
                key == gc.normalized_name,
                forall|j: int|
                    0 <= j < i ==> (#[trigger] self.contests_view()[j]).normalized_name != key,
            decreases n - i,
        {
            if self.contests[i].normalized_name == c.normalized_name {
                self.contests[i] = c;
                proof {
                    let s = self.contests_view();
                    assert(prior[i as int] == old(self).contests@[i as int]@);
                    assert(prior[i as int].normalized_name == key);
                    assert(s =~= prior.update(i as int, gc));
                    lemma_replace_at_index(prior, i as int, gc);
                }
                return ;
            }
            proof {
                assert(self.contests_view()[i as int] == self.contests@[i as int]@);
            }
            i = i + 1;
        }
        self.contests.push(c);
        proof {
            let s = self.contests_view();
            assert(s =~= prior.push(gc));
            assert(!has_key(prior, key));
            lemma_append_new_key(prior, gc);
        }
    }

    /// The cached snapshot for one normalized name, if any, as a copy.
    pub fn find_contest(&self, key: &String) -> (r: Option<ContestedResource>)
        requires
            self.well_formed(),
        ensures
            match r {
                Option::Some(c) => has_key(self.contests_view(), key@) && c@ == lookup(
                    self.contests_view(),
                    key@,
                ),
                Option::None => !has_key(self.contests_view(), key@),
            },
    {
        let mut i: usize = 0;
        let n = self.contests.len();
        while i < n
            invariant
                i <= n,
                n == self.contests@.len(),
                self.well_formed(),
                forall|j: int|
                    0 <= j < i ==> (#[trigger] self.contests_view()[j]).normalized_name != key@,
            decreases n - i,
        {
            if self.contests[i].normalized_name == *key {
                let c = self.contests[i].duplicate();
                proof {
                    let s = self.contests_view();
                    assert(s[i as int] == self.contests@[i as int]@);
                    assert(s[i as int].normalized_name == key@);
                    lemma_key_index(s, key@);
                    assert(key_index(s, key@) == i as int);
                }
                return Some(c);
            }
            proof {
                assert(self.contests_view()[i as int] == self.contests@[i as int]@);
            }
            i = i + 1;
        }
        None
    }
}

/// Distinct keys survive replacing the entry at `i` by one with the same
/// key, and every lookup but that key's is unchanged.
proof fn lemma_replace_at_index(s: Seq<ContestView>, i: int, c: ContestView)
    requires
        distinct_keys(s),
        0 <= i < s.len(),
        s[i].normalized_name == c.normalized_name,
    ensures
        distinct_keys(s.update(i, c)),
        has_key(s.update(i, c), c.normalized_name),
        lookup(s.update(i, c), c.normalized_name) == c,
        forall|k: Seq<char>|
            k != c.normalized_name ==> (has_key(s.update(i, c), k) == has_key(s, k)),
        forall|k: Seq<char>|
            k != c.normalized_name && has_key(s, k) ==> lookup(s.update(i, c), k) == lookup(s, k),
{
    let t = s.update(i, c);
    assert(forall|j: int| 0 <= j < s.len() && j != i ==> t[j] == s[j]);
    assert(t[i] == c);
    assert(distinct_keys(t));
    assert(has_key(t, c.normalized_name));
    lemma_key_index(t, c.normalized_name);
    assert(lookup(t, c.normalized_name) == c);
    assert forall|k: Seq<char>| k != c.normalized_name implies (has_key(t, k) == has_key(s, k)) by {
        if has_key(t, k) {
            let j = key_index(t, k);
            assert(0 <= j < t.len() && t[j].normalized_name == k);
            assert(j != i);
            assert(s[j].normalized_name == k);
        }
        if has_key(s, k) {
            let j = choose|j: int| 0 <= j < s.len() && s[j].normalized_name == k;
            assert(j != i);
            assert(t[j].normalized_name == k);
        }
    }
    assert forall|k: Seq<char>| k != c.normalized_name && has_key(s, k) implies lookup(t, k)
        == lookup(s, k) by {
        lemma_key_index(s, k);
        lemma_key_index(t, k);
        let j = key_index(s, k);
        assert(j != i);
        assert(t[j].normalized_name == k);
        assert(key_index(t, k) == j);
    }
}

/// Distinct keys survive appending an entry with a fresh key, and every
/// prior lookup is unchanged.
proof fn lemma_append_new_key(s: Seq<ContestView>, c: ContestView)
    requires
        distinct_keys(s),
        !has_key(s, c.normalized_name),
    ensures
        distinct_keys(s.push(c)),
        has_key(s.push(c), c.normalized_name),
        lookup(s.push(c), c.normalized_name) == c,
        forall|k: Seq<char>| k != c.normalized_name ==> (has_key(s.push(c), k) == has_key(s, k)),
        forall|k: Seq<char>|
            k != c.normalized_name && has_key(s, k) ==> lookup(s.push(c), k) == lookup(s, k),
{
    let t = s.push(c);
    assert(forall|j: int| 0 <= j < s.len() ==> t[j] == s[j]);
    assert(t[s.len() as int] == c);
    assert(forall|j: int| 0 <= j < s.len() ==> (#[trigger] s[j]).normalized_name
        != c.normalized_name);
    assert(distinct_keys(t));
    assert(has_key(t, c.normalized_name));
    lemma_key_index(t, c.normalized_name);
    assert forall|k: Seq<char>| k != c.normalized_name implies (has_key(t, k) == has_key(s, k)) by {
        if has_key(t, k) {
            let j = key_index(t, k);
            assert(0 <= j < t.len() && t[j].normalized_name == k);
            assert(j != s.len());
            assert(s[j].normalized_name == k);
        }
        if has_key(s, k) {
            let j = choose|j: int| 0 <= j < s.len() && s[j].normalized_name == k;
            assert(t[j].normalized_name == k);
        }
    }
    assert forall|k: Seq<char>| k != c.normalized_name && has_key(s, k) implies lookup(t, k)
        == lookup(s, k) by {
        lemma_key_index(s, k);
        lemma_key_index(t, k);
        let j = key_index(s, k);
        assert(t[j].normalized_name == k);
        assert(key_index(t, k) == j);
    }
}

/// True when some entry of `v` carries the normalized name `key`.
fn contains_key_vec(v: &Vec<ContestedResource>, key: &String) -> (r: bool)
    ensures
        r == has_key(views_of(v@), key@),
{
    let mut i: usize = 0;
    while i < v.len()
        invariant
            i <= v@.len(),
            forall|j: int|
                0 <= j < i ==> (#[trigger] views_of(v@)[j]).normalized_name != key@,
        decreases v@.len() - i,
    {
        if v[i].normalized_name == *key {
            proof {
                assert(views_of(v@)[i as int].normalized_name == key@);
            }
            return true;
        }
        i = i + 1;
    }
    false
}

/// The identities of the input eligible to vote, in order.
fn keep_eligible_voters(v: Vec<VotingIdentity>) -> (r: Vec<VotingIdentity>)
    ensures
        r@.map_values(|x: VotingIdentity| x@) == v@.map_values(|x: VotingIdentity| x@).filter(
            |x: IdentityView| can_vote(x.kind),
        ),
        forall|i: int| 0 <= i < r@.len() ==> can_vote((#[trigger] r@[i])@.kind),
{
    let ghost all = v@.map_values(|x: VotingIdentity| x@);
    let ghost pred = |x: IdentityView| can_vote(x.kind);
    let mut out: Vec<VotingIdentity> = Vec::new();
    let mut i: usize = 0;
    proof {
        assert(all.take(0) =~= Seq::<IdentityView>::empty());
        assert(out@.map_values(|x: VotingIdentity| x@) =~= all.take(0).filter(pred));
    }
    while i < v.len()
        invariant
            i <= v@.len(),
            all == v@.map_values(|x: VotingIdentity| x@),
            pred == (|x: IdentityView| can_vote(x.kind)),
            out@.map_values(|x: VotingIdentity| x@) == all.take(i as int).filter(pred),
        decreases v@.len() - i,
    {
        let ghost prior = out@.map_values(|x: VotingIdentity| x@);
        let keep = match v[i].kind {
            crate::model::IdentityKind::Masternode => true,
            crate::model::IdentityKind::Evonode => true,
            crate::model::IdentityKind::User => false,
        };
        if keep {
            out.push(v[i].duplicate());
        }
        proof {
            assert(all.take(i + 1).drop_last() =~= all.take(i as int));
            assert(all.take(i + 1).last() == all[i as int]);
            reveal_with_fuel(Seq::filter, 2);
            if keep {
                assert(out@.map_values(|x: VotingIdentity| x@) =~= prior.push(all[i as int]));
            }
        }
        i = i + 1;
    }
    proof {
        broadcast use vstd::seq_lib::group_filter_ensures;

        assert(all.take(v@.len() as int) =~= all);
        assert forall|j: int| 0 <= j < out@.len() implies can_vote((#[trigger] out@[j])@.kind) by {
            assert(out@.map_values(|x: VotingIdentity| x@)[j] == out@[j]@);
            assert(pred(all.filter(pred)[j]));
        }
    }
    out
}

/// The identities of the input eligible to register names, in order.
fn keep_eligible_registrants(v: Vec<VotingIdentity>) -> (r: Vec<VotingIdentity>)
    ensures
        r@.map_values(|x: VotingIdentity| x@) == v@.map_values(|x: VotingIdentity| x@).filter(
            |x: IdentityView| can_register(x.kind),
        ),
        forall|i: int| 0 <= i < r@.len() ==> can_register((#[trigger] r@[i])@.kind),
{
    let ghost all = v@.map_values(|x: VotingIdentity| x@);
    let ghost pred = |x: IdentityView| can_register(x.kind);
    let mut out: Vec<VotingIdentity> = Vec::new();
    let mut i: usize = 0;
    proof {
        assert(all.take(0) =~= Seq::<IdentityView>::empty());
        assert(out@.map_values(|x: VotingIdentity| x@) =~= all.take(0).filter(pred));
    }
    while i < v.len()
        invariant
            i <= v@.len(),
            all == v@.map_values(|x: VotingIdentity| x@),
            pred == (|x: IdentityView| can_register(x.kind)),
            out@.map_values(|x: VotingIdentity| x@) == all.take(i as int).filter(pred),
        decreases v@.len() - i,
    {
        let ghost prior = out@.map_values(|x: VotingIdentity| x@);
        let keep = match v[i].kind {
            crate::model::IdentityKind::User => true,
            _ => false,
        };
        if keep {
            out.push(v[i].duplicate());
        }
        proof {
            assert(all.take(i + 1).drop_last() =~= all.take(i as int));
            assert(all.take(i + 1).last() == all[i as int]);
            reveal_with_fuel(Seq::filter, 2);
            if keep {
                assert(out@.map_values(|x: VotingIdentity| x@) =~= prior.push(all[i as int]));
            }
        }
        i = i + 1;
    }
    proof {
        broadcast use vstd::seq_lib::group_filter_ensures;

        assert(all.take(v@.len() as int) =~= all);
        assert forall|j: int| 0 <= j < out@.len() implies can_register(
            (#[trigger] out@[j])@.kind,
        ) by {
            assert(out@.map_values(|x: VotingIdentity| x@)[j] == out@[j]@);
            assert(pred(all.filter(pred)[j]));
        }
    }
    out
}

} // verus!
