//! The sort/filter projection: a pure, deterministic ordering of the cached
//! contests for display, with the normalized name as a tie-break so equal
//! rows never flicker between renders.

use vstd::prelude::*;
use vstd::relations::sorted_by;
use crate::model::ContestView;
use crate::model::ContestedResource;
use crate::order::lex_le;
use crate::order::lex_le_str;
use crate::order::lemma_lex_le_antisymmetric;
use crate::order::lemma_lex_le_reflexive;
use crate::order::lemma_lex_le_total;
use crate::order::lemma_lex_le_transitive;

verus! {

/// The column a contest listing can be ordered by.
#[derive(Clone, Copy, PartialEq, Eq, Structural, Debug)]
pub enum SortColumn {
    ContestedName,
    LockedVotes,
    AbstainVotes,
    EndingTime,
    LastUpdated,
}

/// Direction of the ordering.
#[derive(Clone, Copy, PartialEq, Eq, Structural, Debug)]
pub enum SortOrder {
    Ascending,
    Descending,
}

/// The currently selected sort column and direction.
#[derive(Clone, Copy, PartialEq, Eq, Structural, Debug)]
pub struct SortState {
    pub column: SortColumn,
    pub order: SortOrder,
}

/// The opposite direction.
pub open spec fn flipped(order: SortOrder) -> SortOrder {
    match order {
        SortOrder::Ascending => SortOrder::Descending,
        SortOrder::Descending => SortOrder::Ascending,
    }
}

impl SortState {
    /// The state after the user clicks the header of `column`: a repeated
    /// click flips the direction, a new column resets to ascending.
    pub open spec fn toggled(self, column: SortColumn) -> SortState {
        if self.column == column {
            SortState { column, order: flipped(self.order) }
        } else {
            SortState { column, order: SortOrder::Ascending }
        }
    }

    /// Applies one header click to the sort state.
    pub fn toggle(&mut self, column: SortColumn)
        ensures
            *final(self) == old(self).toggled(column),
    {
        if self.column == column {
            self.order = match self.order {
                SortOrder::Ascending => SortOrder::Descending,
                SortOrder::Descending => SortOrder::Ascending,
            };
        } else {
            self.column = column;
            self.order = SortOrder::Ascending;
        }
    }
}

/// Law: clicking the same column header twice restores the original sort
/// state, so in particular two toggles of the current column return an
/// ascending listing to ascending.
pub proof fn lemma_toggle_same_column_twice(s: SortState, column: SortColumn)
    requires
        s.column == column,
    ensures
        s.toggled(column).toggled(column) == s,
{
}

/// Law: clicking a new column header selects that column and resets the
/// direction to ascending, whatever the prior direction was.
pub proof fn lemma_toggle_new_column_resets(s: SortState, column: SortColumn)
    requires
        s.column != column,
    ensures
        s.toggled(column) == (SortState { column, order: SortOrder::Ascending }),
{
}

/// The numeric value a contest exposes under a vote- or time-valued sort
/// column; an unknown value orders before every known one.
pub open spec fn column_value(column: SortColumn, c: ContestView) -> int {
    match column {
        SortColumn::ContestedName => 0,
        SortColumn::LockedVotes => opt_value(c.locked_votes),
        SortColumn::AbstainVotes => opt_value(c.abstain_votes),
        SortColumn::EndingTime => opt_value(c.end_time),
        SortColumn::LastUpdated => opt_value(c.last_updated),
    }
}

/// Orders an optional count with absent values first.
pub open spec fn opt_value(v: Option<u64>) -> int {
    match v {
        Option::None => -1,
        Option::Some(x) => x as int,
    }
}

/// True when the two contests carry the same value under the sort key of
/// `column`.
pub open spec fn sort_key_eq(column: SortColumn, a: ContestView, b: ContestView) -> bool {
    match column {
        SortColumn::ContestedName => a.normalized_name == b.normalized_name,
        _ => column_value(column, a) == column_value(column, b),
    }
}

/// The display order: contests are compared under the selected column and
/// direction, and ties on that key fall back to ascending lexicographic
/// order of the normalized name.
pub open spec fn contest_le(column: SortColumn, order: SortOrder, a: ContestView, b: ContestView) -> bool {
    match column {
        SortColumn::ContestedName => {
            if a.normalized_name == b.normalized_name {
                true
            } else if order == SortOrder::Ascending {
                lex_le(a.normalized_name, b.normalized_name)
            } else {
                lex_le(b.normalized_name, a.normalized_name)
            }
        },
        _ => {
            let x = column_value(column, a);
            let y = column_value(column, b);
            if x == y {
                lex_le(a.normalized_name, b.normalized_name)
            } else if order == SortOrder::Ascending {
                x < y
            } else {
                y < x
            }
        },
    }
}

/// The display order as a binary relation, for use with `sorted_by`.
pub open spec fn contest_order(column: SortColumn, order: SortOrder) -> spec_fn(
    ContestView,
    ContestView,
) -> bool {
    |a: ContestView, b: ContestView| contest_le(column, order, a, b)
}

/// Any two contests are comparable under the display order.
pub proof fn lemma_contest_le_total(column: SortColumn, order: SortOrder, a: ContestView, b: ContestView)
    ensures
        contest_le(column, order, a, b) || contest_le(column, order, b, a),
{
    lemma_lex_le_total(a.normalized_name, b.normalized_name);
}

/// Two contests each at most the other under the display order share one
/// normalized name.
pub proof fn lemma_contest_le_antisymmetric(
    column: SortColumn,
    order: SortOrder,
    a: ContestView,
    b: ContestView,
)
    requires
        contest_le(column, order, a, b),
        contest_le(column, order, b, a),
    ensures
        a.normalized_name == b.normalized_name,
{
    if a.normalized_name != b.normalized_name {
        lemma_lex_le_antisymmetric(a.normalized_name, b.normalized_name);
    }
}

/// The display order is transitive.
pub proof fn lemma_contest_le_transitive(
    column: SortColumn,
    order: SortOrder,
    a: ContestView,
    b: ContestView,
    c: ContestView,
)
    requires
        contest_le(column, order, a, b),
        contest_le(column, order, b, c),
    ensures
        contest_le(column, order, a, c),
{
    let an = a.normalized_name;
    let bn = b.normalized_name;
    let cn = c.normalized_name;
    match column {
        SortColumn::ContestedName => {
            if an != bn && bn != cn && an != cn {
                if order == SortOrder::Ascending {
                    lemma_lex_le_transitive(an, bn, cn);
                } else {
                    lemma_lex_le_transitive(cn, bn, an);
                }
            }
        },
        _ => {
            let x = column_value(column, a);
            let y = column_value(column, b);
            let z = column_value(column, c);
            if x == y && y == z {
                lemma_lex_le_transitive(an, bn, cn);
            }
        },
    }
}

/// Reads the optional count the contest exposes under `column`.
fn column_of(column: SortColumn, c: &ContestedResource) -> (r: Option<u64>)
    requires
        column != SortColumn::ContestedName,
    ensures
        opt_value(r) == column_value(column, c@),
{
    match column {
        SortColumn::ContestedName => None,
        SortColumn::LockedVotes => c.locked_votes,
        SortColumn::AbstainVotes => c.abstain_votes,
        SortColumn::EndingTime => c.end_time,
        SortColumn::LastUpdated => c.last_updated,
    }
}

/// Decides the display order between two cached contests.
pub fn contest_le_exec(
    column: SortColumn,
    order: SortOrder,
    a: &ContestedResource,
    b: &ContestedResource,
) -> (r: bool)
    ensures
        r == contest_le(column, order, a@, b@),
{
    match column {
        SortColumn::ContestedName => {
            if a.normalized_name == b.normalized_name {
                true
            } else if matches!(order, SortOrder::Ascending) {
                lex_le_str(a.normalized_name.as_str(), b.normalized_name.as_str())
            } else {
                lex_le_str(b.normalized_name.as_str(), a.normalized_name.as_str())
            }
        },
        _ => {
            let x = column_of(column, a);
            let y = column_of(column, b);
            let equal: bool = match (&x, &y) {
                (Option::None, Option::None) => true,
                (Option::Some(xv), Option::Some(yv)) => *xv == *yv,
                _ => false,
            };
            if equal {
                lex_le_str(a.normalized_name.as_str(), b.normalized_name.as_str())
            } else {
                let ascending_le: bool = match (&x, &y) {
                    (Option::None, _) => true,
                    (Option::Some(_), Option::None) => false,
                    (Option::Some(xv), Option::Some(yv)) => *xv < *yv,
                };
                if matches!(order, SortOrder::Ascending) {
                    ascending_le
                } else {
                    !ascending_le
                }
            }
        },
    }
}

/// The mathematical image of a cached contest list.
pub open spec fn views_of(s: Seq<ContestedResource>) -> Seq<ContestView> {
    s.map_values(|c: ContestedResource| c@)
}

/// True when no two cached contests share a normalized name.
pub open spec fn distinct_keys(s: Seq<ContestView>) -> bool {
    forall|i: int, j: int|
        0 <= i < j < s.len() ==> s[i].normalized_name != s[j].normalized_name
}

/// Inserts `c` into a list that is sorted under the display order, keeping
/// it sorted and adding exactly `c`'s view to its contents.
fn insert_sorted(out: &mut Vec<ContestedResource>, c: ContestedResource, column: SortColumn, order: SortOrder)
    requires
        sorted_by(views_of(old(out)@), contest_order(column, order)),
    ensures
        sorted_by(views_of(final(out)@), contest_order(column, order)),
        views_of(final(out)@).to_multiset() == views_of(old(out)@).to_multiset().insert(c@),
{
    let ghost leq = contest_order(column, order);
    let ghost old_views = views_of(out@);
    let mut pos: usize = 0;
    loop
        invariant
            pos <= out.len(),
            out@ == old(out)@,
            forall|j: int| 0 <= j < pos ==> !contest_le(column, order, c@, #[trigger] out@[j]@),
        ensures
            pos <= out.len(),
            out@ == old(out)@,
            pos == out.len() || contest_le(column, order, c@, out@[pos as int]@),
            forall|j: int| 0 <= j < pos ==> !contest_le(column, order, c@, #[trigger] out@[j]@),
        decreases out.len() - pos,
    {
        if pos >= out.len() {
            break;
        }
        if contest_le_exec(column, order, &c, &out[pos]) {
            break;
        }
        pos = pos + 1;
    }
    proof {
        assert forall|j: int| 0 <= j < pos implies contest_le(
            column,
            order,
            #[trigger] out@[j]@,
            c@,
        ) by {
            lemma_contest_le_total(column, order, c@, out@[j]@);
        }
    }
    let ghost gpos = pos as int;
    out.insert(pos, c);
    proof {
        broadcast use vstd::seq_lib::group_to_multiset_ensures;

        let new_views = views_of(out@);
        assert(new_views =~= old_views.insert(gpos, c@)) by {
            assert(out@ == old(out)@.insert(gpos, c));
            assert(new_views.len() == old_views.len() + 1);
            assert(forall|k: int| 0 <= k < gpos ==> new_views[k] == old_views[k]);
            assert(new_views[gpos] == c@);
            assert(forall|k: int|
                gpos < k < new_views.len() ==> new_views[k] == old_views[k - 1]);
        }
        assert(sorted_by(new_views, leq)) by {
            assert forall|i: int, j: int| 0 <= i < j < new_views.len() implies #[trigger] leq(
                new_views[i],
                new_views[j],
            ) by {
                if j < gpos {
                    assert(leq(old_views[i], old_views[j]));
                } else if j == gpos {
                    assert(!contest_le(column, order, c@, out@[i]@) || contest_le(
                        column,
                        order,
                        out@[i]@,
                        c@,
                    ));
                    assert(contest_le(column, order, old_views[i], c@));
                } else if i < gpos {
                    assert(leq(old_views[i], old_views[j - 1]));
                } else if i == gpos {
                    assert(contest_le(column, order, c@, old_views[gpos]));
                    if j - 1 > gpos {
                        assert(leq(old_views[gpos], old_views[j - 1]));
                        lemma_contest_le_transitive(
                            column,
                            order,
                            c@,
                            old_views[gpos],
                            old_views[j - 1],
                        );
                    }
                } else {
                    assert(leq(old_views[i - 1], old_views[j - 1]));
                }
            }
        }
        assert(old_views.insert(gpos, c@).to_multiset() == old_views.to_multiset().insert(c@));
    }
}

/// Produces the display projection of the cached contests: a copy of the
/// list holding exactly the cached snapshots, sorted under the selected
/// column and direction with the normalized name as tie-break. The input
/// is left untouched; the output is a pure function of the inputs.
pub fn project(contests: &Vec<ContestedResource>, column: SortColumn, order: SortOrder) -> (r: Vec<
    ContestedResource,
>)
    ensures
        sorted_by(views_of(r@), contest_order(column, order)),
        views_of(r@).to_multiset() == views_of(contests@).to_multiset(),
{
    let ghost all_views = views_of(contests@);
    let mut out: Vec<ContestedResource> = Vec::new();
    let mut i: usize = 0;
    proof {
        assert(views_of(out@) =~= all_views.take(0));
    }
    while i < contests.len()
        invariant
            i <= contests.len(),
            all_views == views_of(contests@),
            sorted_by(views_of(out@), contest_order(column, order)),
            views_of(out@).to_multiset() == all_views.take(i as int).to_multiset(),
        decreases contests.len() - i,
    {
        let c = contests[i].duplicate();
        insert_sorted(&mut out, c, column, order);
        proof {
            broadcast use vstd::seq_lib::group_to_multiset_ensures;

            assert(all_views.take(i + 1) =~= all_views.take(i as int).push(contests@[i as int]@));
        }
        i = i + 1;
    }
    proof {
        assert(all_views.take(contests@.len() as int) =~= all_views);
    }
    out
}

/// A sorted sequence stays sorted when its first element is dropped, its
/// dropped contents are the original's less the first element, and every
/// element it holds was in the original.
proof fn lemma_drop_first_facts(s: Seq<ContestView>, leq: spec_fn(ContestView, ContestView) -> bool)
    requires
        s.len() > 0,
        sorted_by(s, leq),
    ensures
        sorted_by(s.drop_first(), leq),
        s.drop_first().to_multiset() == s.to_multiset().remove(s[0]),
        forall|x: ContestView| s.drop_first().contains(x) ==> s.contains(x),
{
    broadcast use vstd::seq_lib::group_to_multiset_ensures;

    let t = s.drop_first();
    assert forall|i: int, j: int| 0 <= i < j < t.len() implies #[trigger] leq(t[i], t[j]) by {
        assert(leq(s[i + 1], s[j + 1]));
    }
    assert(t =~= s.remove(0));
    assert(s.remove(0).to_multiset() == s.to_multiset().remove(s[0]));
    assert forall|x: ContestView| t.contains(x) implies s.contains(x) by {
        let i = choose|i: int| 0 <= i < t.len() && t[i] == x;
        assert(s[i + 1] == x);
    }
}

/// Two sorted sequences with the same contents are identical, provided the
/// order tells any two distinct elements they hold apart.
proof fn lemma_sorted_perm_unique(
    s1: Seq<ContestView>,
    s2: Seq<ContestView>,
    leq: spec_fn(ContestView, ContestView) -> bool,
)
    requires
        sorted_by(s1, leq),
        sorted_by(s2, leq),
        s1.to_multiset() == s2.to_multiset(),
        forall|x: ContestView, y: ContestView|
            s1.contains(x) && s1.contains(y) && #[trigger] leq(x, y) && #[trigger] leq(y, x)
                ==> x == y,
    ensures
        s1 == s2,
    decreases s1.len(),
{
    broadcast use vstd::seq_lib::group_to_multiset_ensures;

    assert(s1.len() == s1.to_multiset().len());
    assert(s2.len() == s2.to_multiset().len());
    if s1.len() == 0 {
        assert(s1 =~= s2);
    } else {
        assert(s2.len() == s1.len());
        assert(s1.contains(s1[0]));
        assert(s1.to_multiset().count(s1[0]) > 0);
        assert(s2.contains(s1[0]));
        assert(s2.contains(s2[0]));
        assert(s2.to_multiset().count(s2[0]) > 0);
        assert(s1.contains(s2[0]));
        let i = choose|i: int| 0 <= i < s2.len() && s2[i] == s1[0];
        assert(leq(s2[0], s2[i]) || i == 0);
        assert(leq(s2[0], s1[0]) || s2[0] == s1[0]);
        let j = choose|j: int| 0 <= j < s1.len() && s1[j] == s2[0];
        assert(leq(s1[0], s1[j]) || j == 0);
        assert(leq(s1[0], s2[0]) || s1[0] == s2[0]);
        assert(s1[0] == s2[0]);
        let t1 = s1.drop_first();
        let t2 = s2.drop_first();
        lemma_drop_first_facts(s1, leq);
        lemma_drop_first_facts(s2, leq);
        assert(t1.to_multiset() == t2.to_multiset());
        assert forall|x: ContestView, y: ContestView|
            t1.contains(x) && t1.contains(y) && #[trigger] leq(x, y) && #[trigger] leq(y, x)
                implies x == y by {
            assert(s1.contains(x) && s1.contains(y));
        }
        lemma_sorted_perm_unique(t1, t2, leq);
        assert(s1 =~= s2) by {
            assert(forall|k: int| 1 <= k < s1.len() ==> s1[k] == t1[k - 1] && s2[k] == t2[k - 1]);
        }
    }
}

/// Law: the projection is deterministic and idempotent. Whenever the cached
/// contests carry pairwise distinct normalized names, any two lists that are
/// both sorted under the display order and both hold exactly the cached
/// contents — as every result of [`project`] does — are identical, so
/// repeated projection of unchanged state yields identical output.
pub proof fn lemma_projection_deterministic(
    cached: Seq<ContestView>,
    r1: Seq<ContestView>,
    r2: Seq<ContestView>,
    column: SortColumn,
    order: SortOrder,
)
    requires
        distinct_keys(cached),
        sorted_by(r1, contest_order(column, order)),
        r1.to_multiset() == cached.to_multiset(),
        sorted_by(r2, contest_order(column, order)),
        r2.to_multiset() == cached.to_multiset(),
    ensures
        r1 == r2,
{
    broadcast use vstd::seq_lib::group_to_multiset_ensures;

    let leq = contest_order(column, order);
    assert forall|x: ContestView, y: ContestView|
        r1.contains(x) && r1.contains(y) && #[trigger] leq(x, y) && #[trigger] leq(y, x)
            implies x == y by {
        lemma_contest_le_antisymmetric(column, order, x, y);
        assert(r1.to_multiset().count(x) > 0);
        assert(r1.to_multiset().count(y) > 0);
        assert(cached.contains(x));
        assert(cached.contains(y));
        let ix = choose|ix: int| 0 <= ix < cached.len() && cached[ix] == x;
        let iy = choose|iy: int| 0 <= iy < cached.len() && cached[iy] == y;
        if ix != iy {
            assert(cached[ix].normalized_name != cached[iy].normalized_name);
        }
    }
    lemma_sorted_perm_unique(r1, r2, leq);
}

/// Law: the projection is stable. In any list sorted under the display
/// order — in particular in every result of [`project`] — of two contests
/// with equal sort-key values the one with the lexicographically smaller
/// normalized name comes first, whatever order the input held them in.
pub proof fn lemma_projection_stable(
    r: Seq<ContestView>,
    column: SortColumn,
    order: SortOrder,
    i: int,
    j: int,
)
    requires
        sorted_by(r, contest_order(column, order)),
        0 <= i < j < r.len(),
        sort_key_eq(column, r[i], r[j]),
    ensures
        lex_le(r[i].normalized_name, r[j].normalized_name),
{
    let leq = contest_order(column, order);
    assert(leq(r[i], r[j]));
    if r[i].normalized_name == r[j].normalized_name {
        lemma_lex_le_reflexive(r[i].normalized_name);
    }
}

} // verus!
