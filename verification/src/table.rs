//! The sorted view: a fresh ordering of a snapshot's rows under the current
//! sort key. The view is derived, never stored; a snapshot is never mutated
//! by sorting it.

use vstd::prelude::*;
use vstd::seq_lib::*;
use crate::model::{ProcessInfo, ProcessInfoView, Sample, SortKey, views, unique_pids};
use crate::order::{
    key_le, key_le_exec, lemma_key_le_total, lemma_key_le_trans, lemma_key_le_connected,
    primary_key_eq,
};

verus! {

/// Every earlier row comes no later than every later one.
pub open spec fn sorted_by_key(k: SortKey, s: Seq<ProcessInfoView>) -> bool {
    forall|i: int, j: int| 0 <= i < j < s.len() ==> key_le(k, s[i], s[j])
}

/// Place one row into a vector whose rows are already in order.
fn insert_in_order(v: &mut Vec<ProcessInfo>, k: SortKey, x: ProcessInfo)
    requires
        sorted_by_key(k, views(old(v)@)),
    ensures
        final(v)@.len() == old(v)@.len() + 1,
        views(final(v)@).to_multiset() == views(old(v)@).to_multiset().insert(x@),
        sorted_by_key(k, views(final(v)@)),
{
    let ghost s_old = views(old(v)@);
    let mut j: usize = 0;
    while j < v.len() && key_le_exec(k, &v[j], &x)
        invariant
            j <= v@.len(),
            v@ == old(v)@,
            forall|m: int| 0 <= m < j ==> key_le(k, views(v@)[m], x@),
        decreases v@.len() - j,
    {
        j = j + 1;
    }
    proof {
        if j < v@.len() {
            lemma_key_le_total(k, views(v@)[j as int], x@);
            assert(key_le(k, x@, views(v@)[j as int]));
        }
    }
    v.insert(j, x);
    proof {
        let s_new = views(v@);
        assert(s_new =~= s_old.insert(j as int, x@)) by {
            assert forall|m: int| 0 <= m < s_new.len() implies s_new[m] == s_old.insert(
                j as int,
                x@,
            )[m] by {
                assert(v@[m] == old(v)@.insert(j as int, x)[m]);
            }
        }
        broadcast use vstd::seq_lib::to_multiset_insert;

        assert(s_old.insert(j as int, x@).to_multiset() == s_old.to_multiset().insert(x@));
        assert forall|p: int, q: int| 0 <= p < q < s_new.len() implies key_le(
            k,
            s_new[p],
            s_new[q],
        ) by {
            if q < j {
                assert(key_le(k, s_old[p], s_old[q]));
            } else if q == j {
                assert(key_le(k, s_old[p], x@));
            } else {
                // q > j
                if p < j {
                    assert(key_le(k, s_old[p], s_old[q - 1]));
                } else if p == j {
                    // x@ comes before the old row at j, which comes before the rest
                    assert(key_le(k, x@, s_old[j as int]));
                    if q - 1 > j {
                        assert(key_le(k, s_old[j as int], s_old[q - 1]));
                        lemma_key_le_trans(k, x@, s_old[j as int], s_old[q - 1]);
                    }
                } else {
                    assert(key_le(k, s_old[p - 1], s_old[q - 1]));
                }
            }
        }
    }
}

/// The sorted view of a snapshot under a key: the same rows, no row dropped
/// and none repeated, in the order the key prescribes. A pure function of
/// its two inputs; the snapshot itself is left untouched.
pub fn sorted(sample: &Sample, key: SortKey) -> (v: Vec<ProcessInfo>)
    ensures
        v@.len() == sample.processes@.len(),
        views(v@).to_multiset() == views(sample.processes@).to_multiset(),
        sorted_by_key(key, views(v@)),
{
    let ghost all = sample.processes@;
    let mut out: Vec<ProcessInfo> = Vec::new();
    proof {
        assert(views(out@) =~= Seq::<ProcessInfoView>::empty());
        assert(views(all.subrange(0, 0)) =~= Seq::<ProcessInfoView>::empty());
    }
    let n = sample.processes.len();
    let mut i: usize = 0;
    while i < n
        invariant
            n == all.len(),
            all == sample.processes@,
            i <= n,
            out@.len() == i,
            sorted_by_key(key, views(out@)),
            views(out@).to_multiset() == views(all.subrange(0, i as int)).to_multiset(),
        decreases n - i,
    {
        let x = sample.processes[i].duplicate();
        insert_in_order(&mut out, key, x);
        proof {
            broadcast use vstd::seq_lib::to_multiset_build;

            assert(views(all.subrange(0, i + 1)) =~= views(all.subrange(0, i as int)).push(
                all[i as int]@,
            ));
        }
        i = i + 1;
    }
    proof {
        assert(all.subrange(0, n as int) =~= all);
    }
    out
}

/// Two sorted views of the same rows are the same sequence: sorting is
/// deterministic, and sorting a view that is already in order under the same
/// key gives that view back unchanged.
pub proof fn lemma_sorted_view_unique(k: SortKey, x: Seq<ProcessInfoView>, y: Seq<ProcessInfoView>)
    requires
        sorted_by_key(k, x),
        sorted_by_key(k, y),
        unique_pids(x),
        x.to_multiset() == y.to_multiset(),
    ensures
        x == y,
    decreases x.len(),
{
    broadcast use vstd::seq_lib::group_to_multiset_ensures;

    if x.len() == 0 {
        assert(y.to_multiset().len() == 0);
        assert(x =~= y);
    } else {
        assert(y.to_multiset().len() > 0);
        assert(y.len() > 0);
        // The two head rows carry the same identifier, hence are the same row.
        assert(x.to_multiset().count(y[0]) > 0);
        assert(x.contains(y[0]));
        let i = choose|i: int| 0 <= i < x.len() && x[i] == y[0];
        assert(y.to_multiset().count(x[0]) > 0);
        assert(y.contains(x[0]));
        let j = choose|j: int| 0 <= j < y.len() && y[j] == x[0];
        lemma_key_le_total(k, x[0], x[0]);
        lemma_key_le_total(k, y[0], y[0]);
        assert(key_le(k, x[0], y[0])) by {
            if i > 0 {
                assert(key_le(k, x[0], x[i]));
            }
        }
        assert(key_le(k, y[0], x[0])) by {
            if j > 0 {
                assert(key_le(k, y[0], y[j]));
            }
        }
        lemma_key_le_connected(k, x[0], y[0]);
        assert(x[i].pid == x[0].pid);
        assert(i == 0);
        assert(x[0] == y[0]);
        // Drop the shared head and recurse on the tails.
        assert(x.drop_first().to_multiset() =~= x.to_multiset().remove(x[0])) by {
            assert(x.remove(0) =~= x.drop_first());
            assert(x.remove(0).to_multiset() == x.to_multiset().remove(x[0]));
        }
        assert(y.drop_first().to_multiset() =~= y.to_multiset().remove(y[0])) by {
            assert(y.remove(0) =~= y.drop_first());
            assert(y.remove(0).to_multiset() == y.to_multiset().remove(y[0]));
        }
        assert forall|p: int, q: int|
            0 <= p < q < x.drop_first().len() implies key_le(
            k,
            x.drop_first()[p],
            x.drop_first()[q],
        ) by {
            assert(key_le(k, x[p + 1], x[q + 1]));
        }
        assert forall|p: int, q: int|
            0 <= p < q < y.drop_first().len() implies key_le(
            k,
            y.drop_first()[p],
            y.drop_first()[q],
        ) by {
            assert(key_le(k, y[p + 1], y[q + 1]));
        }
        assert forall|p: int, q: int|
            0 <= p < q < x.drop_first().len() implies x.drop_first()[p].pid != x.drop_first()[q].pid
        by {
            assert(x[p + 1].pid != x[q + 1].pid);
        }
        lemma_sorted_view_unique(k, x.drop_first(), y.drop_first());
        assert forall|m: int| 0 <= m < x.len() implies x[m] == y[m] by {
            if m > 0 {
                assert(x.drop_first()[m - 1] == y.drop_first()[m - 1]);
            }
        }
        assert(x =~= y);
    }
}

/// The rows of a snapshot with unique identifiers keep them unique in any
/// rearrangement of the same rows — in particular in every sorted view of
/// the snapshot: the view repeats no process and omits none.
pub proof fn lemma_unique_pids_preserved(a: Seq<ProcessInfoView>, b: Seq<ProcessInfoView>)
    requires
        unique_pids(a),
        a.to_multiset() == b.to_multiset(),
    ensures
        unique_pids(b),
{
    broadcast use vstd::seq_lib::group_to_multiset_ensures;

    assert forall|i: int, j: int| 0 <= i < j < b.len() implies b[i].pid != b[j].pid by {
        if b[i].pid == b[j].pid {
            if b[i] == b[j] {
                // The row would occur twice in the shared multiset, hence
                // twice in `a`, against unique identifiers there.
                let br = b.remove(i);
                assert(br.to_multiset() == b.to_multiset().remove(b[i]));
                assert(br[j - 1] == b[j]);
                assert(br.contains(b[j]));
                assert(br.to_multiset().count(b[i]) > 0);
                assert(b.to_multiset().count(b[i]) >= 2);
                assert(a.to_multiset().count(b[i]) >= 2);
                assert(a.contains(b[i]));
                let p = choose|p: int| 0 <= p < a.len() && a[p] == b[i];
                let ar = a.remove(p);
                assert(ar.to_multiset() == a.to_multiset().remove(a[p]));
                assert(ar.to_multiset().count(b[i]) >= 1);
                assert(ar.contains(b[i]));
                let q = choose|q: int| 0 <= q < ar.len() && ar[q] == b[i];
                if q < p {
                    assert(ar[q] == a[q]);
                    assert(a[q].pid == a[p].pid);
                } else {
                    assert(ar[q] == a[q + 1]);
                    assert(a[q + 1].pid == a[p].pid);
                }
                assert(false);
            } else {
                // Two distinct rows of `a` would share an identifier.
                assert(b.contains(b[i]));
                assert(a.to_multiset().count(b[i]) > 0);
                assert(a.contains(b[i]));
                assert(b.contains(b[j]));
                assert(a.to_multiset().count(b[j]) > 0);
                assert(a.contains(b[j]));
                let p = choose|p: int| 0 <= p < a.len() && a[p] == b[i];
                let q = choose|q: int| 0 <= q < a.len() && a[q] == b[j];
                assert(p != q);
                assert(a[p].pid == a[q].pid);
                assert(false);
            }
        }
    }
}

/// Tie-break invariant: in a sorted view, two rows whose primary keys are
/// equal stand in ascending identifier order, whatever order the snapshot
/// held them in.
pub proof fn lemma_tie_break(k: SortKey, s: Seq<ProcessInfoView>, i: int, j: int)
    requires
        sorted_by_key(k, s),
        unique_pids(s),
        0 <= i < j < s.len(),
        primary_key_eq(k, s[i], s[j]),
    ensures
        s[i].pid < s[j].pid,
{
    assert(key_le(k, s[i], s[j]));
}

} // verus!
