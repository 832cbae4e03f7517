//! The refresh synchronizer: serializes contest refreshes per key and
//! coalesces concurrent requests, so at most one platform query is in
//! flight per contest and every waiter observes the one resulting snapshot.
//!
//! The surrounding application drives it: `begin_refresh` says whether a
//! caller must issue the adapter query or may wait on the one already in
//! flight; `complete_refresh` merges the snapshot wholesale into the cache
//! and releases the key; `abort_refresh` releases the key on adapter
//! failure, leaving the cache untouched so prior values stay visible.

use vstd::prelude::*;
use crate::cache::has_key;
use crate::cache::lookup;
use crate::cache::LocalCacheStore;
use crate::model::ContestedResource;
use crate::model::SyncError;

verus! {

/// The synchronizer's mathematical state: which keys have a query in
/// flight, and how many adapter queries were ever issued.
#[verifier::ext_equal]
pub ghost struct SyncView {
    pub in_flight: Seq<Seq<char>>,
    pub queries_issued: nat,
}

impl SyncView {
    /// No key appears twice among the in-flight keys.
    pub open spec fn no_duplicates(self) -> bool {
        forall|i: int, j: int|
            0 <= i < j < self.in_flight.len() ==> self.in_flight[i] != self.in_flight[j]
    }

    /// True while a query for `k` is in flight.
    pub open spec fn pending(self, k: Seq<char>) -> bool {
        self.in_flight.contains(k)
    }
}

/// The state after asking to refresh `k`, with whether this caller must
/// issue the adapter query: a key already in flight is coalesced onto the
/// running query and issues nothing.
pub open spec fn begun(v: SyncView, k: Seq<char>) -> (SyncView, bool) {
    if v.pending(k) {
        (v, false)
    } else {
        (
            SyncView { in_flight: v.in_flight.push(k), queries_issued: v.queries_issued + 1 },
            true,
        )
    }
}

/// The state after the in-flight query for `k` resolved, by success or
/// failure: the key is released; no new query is counted.
pub open spec fn settled(v: SyncView, k: Seq<char>) -> SyncView {
    SyncView {
        in_flight: v.in_flight.remove_value(k),
        queries_issued: v.queries_issued,
    }
}

/// Law: concurrent refreshes of one key are coalesced. Starting with no
/// query in flight for `k`, the first request issues the one adapter query
/// and the second request, arriving while the first is still in flight,
/// issues none — exactly one query serves both callers, and both observe
/// the snapshot that `complete_refresh` then writes for `k`.
pub proof fn lemma_refresh_coalescing(v: SyncView, k: Seq<char>)
    requires
        !v.pending(k),
    ensures
        begun(v, k).1,
        begun(v, k).0.queries_issued == v.queries_issued + 1,
        !begun(begun(v, k).0, k).1,
        begun(begun(v, k).0, k).0 == begun(v, k).0,
{
    let v1 = begun(v, k).0;
    assert(v1.in_flight[v1.in_flight.len() - 1] == k);
    assert(v1.pending(k));
    assert(begun(v1, k).0 =~= v1);
}

/// Serializer of per-key contest refreshes.
pub struct RefreshSynchronizer {
    in_flight: Vec<String>,
    queries_issued: Ghost<nat>,
}

impl View for RefreshSynchronizer {
    type V = SyncView;

    closed spec fn view(&self) -> SyncView {
        SyncView {
            in_flight: self.in_flight@.map_values(|s: String| s@),
            queries_issued: self.queries_issued@,
        }
    }
}

impl RefreshSynchronizer {
    /// A synchronizer with nothing in flight.
    pub fn new() -> (r: RefreshSynchronizer)
        ensures
            r@.in_flight == Seq::<Seq<char>>::empty(),
            r@.queries_issued == 0nat,
            r@.no_duplicates(),
    {
        let r = RefreshSynchronizer { in_flight: Vec::new(), queries_issued: Ghost(0nat) };
        proof {
            assert(r@.in_flight =~= Seq::<Seq<char>>::empty());
        }
        r
    }

    /// Registers a refresh request for `key`. Returns true exactly when no
    /// query for `key` was in flight, in which case this caller must issue
    /// the one adapter query; otherwise the caller waits on the running
    /// query's result.
    pub fn begin_refresh(&mut self, key: &String) -> (issue: bool)
        requires
            old(self)@.no_duplicates(),
        ensures
            final(self)@.no_duplicates(),
            final(self)@ == begun(old(self)@, key@).0,
            issue == begun(old(self)@, key@).1,
    {
        let ghost prior = self@;
        let mut i: usize = 0;
        let n = self.in_flight.len();
        while i < n
            invariant
                i <= n,
                n == self.in_flight@.len(),
                *self == *old(self),
                prior == old(self)@,
                prior.no_duplicates(),
                forall|j: int| 0 <= j < i ==> (#[trigger] prior.in_flight[j]) != key@,
            decreases n - i,
        {
            if self.in_flight[i] == *key {
                proof {
                    assert(prior.in_flight[i as int] == self.in_flight@[i as int]@);
                    assert(prior.pending(key@));
                }
                return false;
            }
            proof {
                assert(prior.in_flight[i as int] == self.in_flight@[i as int]@);
            }
            i = i + 1;
        }
        proof {
            assert(!prior.pending(key@)) by {
                if prior.in_flight.contains(key@) {
                    let j = choose|j: int|
                        0 <= j < prior.in_flight.len() && prior.in_flight[j] == key@;
                }
            }
        }
        self.in_flight.push(key.clone());
        proof {
            self.queries_issued@ = prior.queries_issued + 1;
        }
        proof {
            assert(self@.in_flight =~= prior.in_flight.push(key@));
            assert(self@ =~= begun(prior, key@).0);
            assert forall|a: int, b: int|
                0 <= a < b < self@.in_flight.len() implies self@.in_flight[a]
                != self@.in_flight[b] by {
                if b == self@.in_flight.len() - 1 {
                    assert(self@.in_flight[a] == prior.in_flight[a]);
                }
            }
        }
        true
    }

    /// Resolves the in-flight query for `key` with a fresh snapshot: the
    /// cached entry is replaced wholesale — every other entry untouched —
    /// and the key is released so later refreshes may query again. Every
    /// caller coalesced onto this query observes this one snapshot in the
    /// cache.
    pub fn complete_refresh(
        &mut self,
        key: &String,
        snapshot: ContestedResource,
        cache: &mut LocalCacheStore,
    )
        requires
            old(self)@.no_duplicates(),
            old(cache).well_formed(),
            snapshot@.normalized_name == key@,
        ensures
            final(self)@.no_duplicates(),
            final(self)@ == settled(old(self)@, key@),
            final(cache).well_formed(),
            final(cache).voting_view() == old(cache).voting_view(),
            final(cache).users_view() == old(cache).users_view(),
            has_key(final(cache).contests_view(), key@),
            lookup(final(cache).contests_view(), key@) == snapshot@,
            forall|k: Seq<char>|
                k != key@ ==> (has_key(final(cache).contests_view(), k) == has_key(
                    old(cache).contests_view(),
                    k,
                )),
            forall|k: Seq<char>|
                k != key@ && has_key(old(cache).contests_view(), k) ==> lookup(
                    final(cache).contests_view(),
                    k,
                ) == lookup(old(cache).contests_view(), k),
    {
        cache.replace_contest(snapshot);
        self.release(key);
    }

    /// Resolves the in-flight query for `key` from whatever the adapter
    /// answered. A snapshot carrying the requested key is merged wholesale
    /// into the cache and handed back; a snapshot for any other key counts
    /// as malformed; on any failure the cache is left untouched, so the
    /// prior values stay visible, merely stale. The key is released in
    /// every case.
    pub fn resolve_refresh(
        &mut self,
        key: &String,
        result: Result<ContestedResource, SyncError>,
        cache: &mut LocalCacheStore,
    ) -> (r: Result<ContestedResource, SyncError>)
        requires
            old(self)@.no_duplicates(),
            old(cache).well_formed(),
        ensures
            final(self)@.no_duplicates(),
            final(self)@ == settled(old(self)@, key@),
            final(cache).well_formed(),
            final(cache).voting_view() == old(cache).voting_view(),
            final(cache).users_view() == old(cache).users_view(),
            match result {
                Result::Ok(snapshot) => if snapshot@.normalized_name == key@ {
                    &&& (r matches Result::Ok(c) && c@ == snapshot@)
                    &&& has_key(final(cache).contests_view(), key@)
                    &&& lookup(final(cache).contests_view(), key@) == snapshot@
                    &&& forall|k: Seq<char>|
                        k != key@ ==> (has_key(final(cache).contests_view(), k) == has_key(
                            old(cache).contests_view(),
                            k,
                        ))
                    &&& forall|k: Seq<char>|
                        k != key@ && has_key(old(cache).contests_view(), k) ==> lookup(
                            final(cache).contests_view(),
                            k,
                        ) == lookup(old(cache).contests_view(), k)
                } else {
                    &&& (r matches Result::Err(e) && e == SyncError::Malformed)
                    &&& *final(cache) == *old(cache)
                },
                Result::Err(e) => {
                    &&& (r matches Result::Err(e2) && e2 == e)
                    &&& *final(cache) == *old(cache)
                },
            },
    {
        match result {
            Ok(snapshot) => {
                if snapshot.normalized_name == *key {
                    let kept = snapshot.duplicate();
                    self.complete_refresh(key, snapshot, cache);
                    Ok(kept)
                } else {
                    self.abort_refresh(key);
                    Err(SyncError::Malformed)
                }
            },
            Err(e) => {
                self.abort_refresh(key);
                Err(e)
            },
        }
    }

    /// Resolves the in-flight query for `key` after an adapter failure:
    /// the key is released and no cache entry is touched, so the prior
    /// values stay visible, merely stale.
    pub fn abort_refresh(&mut self, key: &String)
        requires
            old(self)@.no_duplicates(),
        ensures
            final(self)@.no_duplicates(),
            final(self)@ == settled(old(self)@, key@),
    {
        self.release(key);
    }

    /// Removes the first in-flight entry for `key`, if any.
    fn release(&mut self, key: &String)
        requires
            old(self)@.no_duplicates(),
        ensures
            final(self)@.no_duplicates(),
            final(self)@ == settled(old(self)@, key@),
    {
        let ghost prior = self@;
        let mut i: usize = 0;
        let n = self.in_flight.len();
        while i < n
            invariant
                i <= n,
                n == self.in_flight@.len(),
                *self == *old(self),
                prior == old(self)@,
                prior.no_duplicates(),
                forall|j: int| 0 <= j < i ==> (#[trigger] prior.in_flight[j]) != key@,
            decreases n - i,
        {
            if self.in_flight[i] == *key {
                proof {
                    assert(prior.in_flight[i as int] == self.in_flight@[i as int]@);
                }
                let ghost gi = i as int;
                self.in_flight.remove(i);
                proof {
                    assert(self@.in_flight =~= prior.in_flight.remove(gi));
                    prior.in_flight.remove_ensures(gi);
                    assert(prior.in_flight.index_of_first(key@) == Some(gi)) by {
                        prior.in_flight.index_of_first_ensures(key@);
                        assert(prior.in_flight[gi] == key@);
                        if prior.in_flight.index_of_first(key@) is Some {
                            let f = prior.in_flight.index_of_first(key@)->Some_0;
                            assert(prior.in_flight[f] == key@);
                            if f != gi {
                                assert(false);
                            }
                        } else {
                            assert(!prior.in_flight.contains(key@));
                        }
                    }
                    assert(self@.in_flight =~= prior.in_flight.remove_value(key@));
                    assert(self@ =~= settled(prior, key@));
                    assert forall|a: int, b: int|
                        0 <= a < b < self@.in_flight.len() implies self@.in_flight[a]
                        != self@.in_flight[b] by {
                        let fa: int = if a < gi { a } else { a + 1 };
                        let fb: int = if b < gi { b } else { b + 1 };
                        assert(self@.in_flight[a] == prior.in_flight[fa]);
                        assert(self@.in_flight[b] == prior.in_flight[fb]);
                    }
                }
                return ;
            }
            proof {
                assert(prior.in_flight[i as int] == self.in_flight@[i as int]@);
            }
            i = i + 1;
        }
        proof {
            assert(!prior.in_flight.contains(key@)) by {
                if prior.in_flight.contains(key@) {
                    let j = choose|j: int|
                        0 <= j < prior.in_flight.len() && prior.in_flight[j] == key@;
                }
            }
            prior.in_flight.index_of_first_ensures(key@);
            assert(prior.in_flight.remove_value(key@) =~= prior.in_flight);
            assert(self@ =~= settled(prior, key@));
        }
    }
}

} // verus!
