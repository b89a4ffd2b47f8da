//! The process projection: the one ordering of a snapshot's rows that
//! the table display, the selection index, mouse clicks and the kill
//! command all share. Rows are sorted by CPU usage descending, stably
//! (ties keep the snapshot's own order), then filtered by
//! case-insensitive substring match against the rendered row text.

use vstd::prelude::*;
use crate::snapshot::{ProcessRecord, Snapshot, record_matches, rendered_text};
use crate::text::contains_ci_bytes;

verus! {

/// Inserts index `x` into `sorted` behind every index whose CPU usage
/// is at least that of `x`: the insertion step of a stable descending
/// insertion sort.
pub open spec fn insert_desc(procs: Seq<ProcessRecord>, sorted: Seq<usize>, x: usize) -> Seq<
    usize,
>
    decreases sorted.len(),
{
    if sorted.len() == 0 {
        seq![x]
    } else if procs[sorted[0] as int].cpu_tenths >= procs[x as int].cpu_tenths {
        seq![sorted[0]] + insert_desc(procs, sorted.drop_first(), x)
    } else {
        seq![x] + sorted
    }
}

/// The indices `0 .. n` sorted by CPU usage descending, stably.
pub open spec fn sorted_order(procs: Seq<ProcessRecord>, n: int) -> Seq<usize>
    decreases n,
{
    if n <= 0 {
        Seq::<usize>::empty()
    } else {
        insert_desc(procs, sorted_order(procs, n - 1), (n - 1) as usize)
    }
}

/// Keeps, in order, the indices whose records match the filter.
pub open spec fn filter_indices(
    procs: Seq<ProcessRecord>,
    filter: Seq<u8>,
    idxs: Seq<usize>,
) -> Seq<usize>
    decreases idxs.len(),
{
    if idxs.len() == 0 {
        Seq::<usize>::empty()
    } else {
        let front = filter_indices(procs, filter, idxs.drop_last());
        if record_matches(procs[idxs.last() as int], filter) {
            front.push(idxs.last())
        } else {
            front
        }
    }
}

/// The projection: the visible rows of `s` under `filter`, as indices
/// into `s.procs`, sorted by CPU usage descending with the snapshot
/// order breaking ties.
pub open spec fn project_spec(s: Snapshot, filter: Seq<u8>) -> Seq<usize> {
    filter_indices(s.procs@, filter, sorted_order(s.procs@, s.procs@.len() as int))
}

/// Indices `a` before `b` stand in stable descending CPU order: either
/// `a`'s CPU usage is strictly higher, or they tie and `a` comes first
/// in the snapshot.
pub open spec fn desc_before(procs: Seq<ProcessRecord>, a: usize, b: usize) -> bool {
    ||| procs[a as int].cpu_tenths > procs[b as int].cpu_tenths
    ||| (procs[a as int].cpu_tenths == procs[b as int].cpu_tenths && a < b)
}

/// Every earlier index of `idxs` stands in stable descending order
/// before every later one.
pub open spec fn stable_desc(procs: Seq<ProcessRecord>, idxs: Seq<usize>) -> bool {
    forall|i: int, j: int|
        0 <= i < j < idxs.len() ==> desc_before(procs, idxs[i], idxs[j])
}

proof fn lemma_insert_desc_props(procs: Seq<ProcessRecord>, sorted: Seq<usize>, x: usize)
    ensures
        insert_desc(procs, sorted, x).len() == sorted.len() + 1,
        insert_desc(procs, sorted, x).contains(x),
        forall|y: usize|
            insert_desc(procs, sorted, x).contains(y) <==> (sorted.contains(y) || y == x),
    decreases sorted.len(),
{
    let out = insert_desc(procs, sorted, x);
    if sorted.len() == 0 {
        assert(out =~= seq![x]);
        assert(out[0] == x);
        assert(forall|y: usize| out.contains(y) ==> y == x);
        assert(out.contains(x));
    } else if procs[sorted[0] as int].cpu_tenths >= procs[x as int].cpu_tenths {
        lemma_insert_desc_props(procs, sorted.drop_first(), x);
        let rest = insert_desc(procs, sorted.drop_first(), x);
        assert(out =~= seq![sorted[0]] + rest);
        assert(out.contains(x)) by {
            let m = choose|m: int| 0 <= m < rest.len() && rest[m] == x;
            assert(out[m + 1] == x);
        }
        assert forall|y: usize| out.contains(y) implies (sorted.contains(y) || y == x) by {
            let k = choose|k: int| 0 <= k < out.len() && out[k] == y;
            if k == 0 {
                assert(sorted[0] == y);
            } else {
                assert(rest[k - 1] == y);
                assert(rest.contains(y));
                if sorted.drop_first().contains(y) {
                    let m = choose|m: int|
                        0 <= m < sorted.drop_first().len() && sorted.drop_first()[m] == y;
                    assert(sorted[m + 1] == y);
                }
            }
        }
        assert forall|y: usize| sorted.contains(y) || y == x implies out.contains(y) by {
            if sorted.contains(y) {
                let k = choose|k: int| 0 <= k < sorted.len() && sorted[k] == y;
                if k == 0 {
                    assert(out[0] == y);
                } else {
                    assert(sorted.drop_first()[k - 1] == y);
                    assert(sorted.drop_first().contains(y));
                    assert(rest.contains(y));
                    let m = choose|m: int| 0 <= m < rest.len() && rest[m] == y;
                    assert(out[m + 1] == y);
                }
            } else {
                assert(out.contains(x));
            }
        }
    } else {
        assert(out =~= seq![x] + sorted);
        assert(out[0] == x);
        assert(out.contains(x));
        assert forall|y: usize| out.contains(y) implies (sorted.contains(y) || y == x) by {
            let k = choose|k: int| 0 <= k < out.len() && out[k] == y;
            if k > 0 {
                assert(sorted[k - 1] == y);
            }
        }
        assert forall|y: usize| sorted.contains(y) || y == x implies out.contains(y) by {
            if sorted.contains(y) {
                let k = choose|k: int| 0 <= k < sorted.len() && sorted[k] == y;
                assert(out[k + 1] == y);
            } else {
                assert(out[0] == y);
            }
        }
    }
}

proof fn lemma_sorted_order_props(procs: Seq<ProcessRecord>, n: int)
    requires
        0 <= n <= procs.len(),
        n <= usize::MAX,
    ensures
        sorted_order(procs, n).len() == n,
        forall|y: usize| sorted_order(procs, n).contains(y) <==> 0 <= y < n,
    decreases n,
{
    if n > 0 {
        lemma_sorted_order_props(procs, n - 1);
        let prev = sorted_order(procs, n - 1);
        let w = (n - 1) as usize;
        lemma_insert_desc_props(procs, prev, w);
        assert(sorted_order(procs, n) == insert_desc(procs, prev, w));
        assert forall|y: usize| sorted_order(procs, n).contains(y) <==> 0 <= y < n by {
            assert(insert_desc(procs, prev, w).contains(y) <==> (prev.contains(y) || y == w));
            assert(prev.contains(y) <==> 0 <= y < n - 1);
        }
    }
}

/// Inserting an index larger than all present preserves stable
/// descending order: a tie with `x` keeps `x` behind.
proof fn lemma_insert_desc_stable(procs: Seq<ProcessRecord>, sorted: Seq<usize>, x: usize)
    requires
        stable_desc(procs, sorted),
        forall|y: usize| sorted.contains(y) ==> y < x,
    ensures
        stable_desc(procs, insert_desc(procs, sorted, x)),
    decreases sorted.len(),
{
    let out = insert_desc(procs, sorted, x);
    if sorted.len() == 0 {
    } else if procs[sorted[0] as int].cpu_tenths >= procs[x as int].cpu_tenths {
        let tail = sorted.drop_first();
        assert(stable_desc(procs, tail)) by {
            assert forall|i: int, j: int| 0 <= i < j < tail.len() implies desc_before(
                procs,
                tail[i],
                tail[j],
            ) by {
                assert(sorted[i + 1] == tail[i]);
                assert(sorted[j + 1] == tail[j]);
            }
        }
        assert(forall|y: usize| tail.contains(y) ==> sorted.contains(y)) by {
            assert forall|y: usize| tail.contains(y) implies sorted.contains(y) by {
                let k = choose|k: int| 0 <= k < tail.len() && tail[k] == y;
                assert(sorted[k + 1] == y);
            }
        }
        lemma_insert_desc_stable(procs, tail, x);
        let rest = insert_desc(procs, tail, x);
        lemma_insert_desc_props(procs, tail, x);
        assert(out =~= seq![sorted[0]] + rest);
        assert forall|i: int, j: int| 0 <= i < j < out.len() implies desc_before(
            procs,
            out[i],
            out[j],
        ) by {
            if i == 0 {
                let y = out[j];
                assert(rest[j - 1] == y);
                assert(rest.contains(y));
                if tail.contains(y) {
                    let k = choose|k: int| 0 <= k < tail.len() && tail[k] == y;
                    assert(sorted[k + 1] == y);
                    assert(desc_before(procs, sorted[0], sorted[k + 1]));
                } else {
                    assert(y == x);
                    assert(sorted.contains(sorted[0]));
                    assert(sorted[0] < x);
                }
            } else {
                assert(rest[i - 1] == out[i]);
                assert(rest[j - 1] == out[j]);
            }
        }
    } else {
        assert(out =~= seq![x] + sorted);
        assert forall|i: int, j: int| 0 <= i < j < out.len() implies desc_before(
            procs,
            out[i],
            out[j],
        ) by {
            if i == 0 {
                let y = out[j];
                assert(sorted[j - 1] == y);
                assert(sorted.contains(y));
                if j == 1 {
                    assert(procs[x as int].cpu_tenths > procs[sorted[0] as int].cpu_tenths);
                } else {
                    assert(desc_before(procs, sorted[0], sorted[j - 1]));
                    assert(procs[x as int].cpu_tenths > procs[sorted[0] as int].cpu_tenths);
                }
            } else {
                assert(sorted[i - 1] == out[i]);
                assert(sorted[j - 1] == out[j]);
            }
        }
    }
}

proof fn lemma_sorted_order_stable(procs: Seq<ProcessRecord>, n: int)
    requires
        0 <= n <= procs.len(),
        n <= usize::MAX,
    ensures
        stable_desc(procs, sorted_order(procs, n)),
    decreases n,
{
    if n > 0 {
        lemma_sorted_order_stable(procs, n - 1);
        lemma_sorted_order_props(procs, n - 1);
        lemma_insert_desc_stable(procs, sorted_order(procs, n - 1), (n - 1) as usize);
    }
}

proof fn lemma_filter_indices_membership(
    procs: Seq<ProcessRecord>,
    filter: Seq<u8>,
    idxs: Seq<usize>,
)
    ensures
        forall|y: usize|
            filter_indices(procs, filter, idxs).contains(y) <==> (idxs.contains(y)
                && record_matches(procs[y as int], filter)),
    decreases idxs.len(),
{
    let out = filter_indices(procs, filter, idxs);
    if idxs.len() == 0 {
    } else {
        let front_idxs = idxs.drop_last();
        lemma_filter_indices_membership(procs, filter, front_idxs);
        let front = filter_indices(procs, filter, front_idxs);
        assert forall|y: usize| out.contains(y) implies (idxs.contains(y) && record_matches(
            procs[y as int],
            filter,
        )) by {
            let k = choose|k: int| 0 <= k < out.len() && out[k] == y;
            if record_matches(procs[idxs.last() as int], filter) && k == out.len() - 1 {
                assert(y == idxs.last());
                assert(idxs[idxs.len() - 1] == y);
            } else {
                assert(front.contains(y));
                assert(front_idxs.contains(y));
                let m = choose|m: int| 0 <= m < front_idxs.len() && front_idxs[m] == y;
                assert(idxs[m] == y);
            }
        }
        assert forall|y: usize|
            idxs.contains(y) && record_matches(procs[y as int], filter) implies out.contains(
            y,
        ) by {
            let k = choose|k: int| 0 <= k < idxs.len() && idxs[k] == y;
            if k == idxs.len() - 1 {
                assert(out.last() == y);
            } else {
                assert(front_idxs[k] == y);
                assert(front_idxs.contains(y));
                assert(front.contains(y));
                let m = choose|m: int| 0 <= m < front.len() && front[m] == y;
                assert(out[m] == y);
            }
        }
    }
}

/// A filtered sequence keeps the stable descending order of its input.
proof fn lemma_filter_indices_stable(
    procs: Seq<ProcessRecord>,
    filter: Seq<u8>,
    idxs: Seq<usize>,
)
    requires
        stable_desc(procs, idxs),
    ensures
        stable_desc(procs, filter_indices(procs, filter, idxs)),
    decreases idxs.len(),
{
    let out = filter_indices(procs, filter, idxs);
    if idxs.len() == 0 {
    } else {
        let front_idxs = idxs.drop_last();
        assert(stable_desc(procs, front_idxs));
        lemma_filter_indices_stable(procs, filter, front_idxs);
        lemma_filter_indices_membership(procs, filter, front_idxs);
        let front = filter_indices(procs, filter, front_idxs);
        if record_matches(procs[idxs.last() as int], filter) {
            assert(out =~= front.push(idxs.last()));
            assert forall|i: int, j: int| 0 <= i < j < out.len() implies desc_before(
                procs,
                out[i],
                out[j],
            ) by {
                if j == out.len() - 1 {
                    let y = out[i];
                    assert(front[i] == y);
                    assert(front.contains(y));
                    assert(front_idxs.contains(y));
                    let m = choose|m: int| 0 <= m < front_idxs.len() && front_idxs[m] == y;
                    assert(idxs[m] == y);
                    assert(desc_before(procs, idxs[m], idxs[idxs.len() - 1]));
                }
            }
        }
    }
}

/// Every projected index is a valid, matching row of the snapshot, and
/// every matching row of the snapshot appears in the projection: the
/// filter keeps exactly the rows whose rendered text contains the
/// filter text.
pub proof fn lemma_projection_complete(s: Snapshot, filter: Seq<u8>)
    requires
        s.procs@.len() <= usize::MAX,
    ensures
        forall|k: int|
            0 <= k < project_spec(s, filter).len() ==> 0 <= project_spec(s, filter)[k]
                < s.procs@.len() && record_matches(
                s.procs@[project_spec(s, filter)[k] as int],
                filter,
            ),
        forall|i: usize|
            0 <= i < s.procs@.len() && record_matches(s.procs@[i as int], filter)
                ==> project_spec(s, filter).contains(i),
{
    let procs = s.procs@;
    let n = procs.len() as int;
    lemma_sorted_order_props(procs, n);
    lemma_filter_indices_membership(procs, filter, sorted_order(procs, n));
    assert forall|k: int| 0 <= k < project_spec(s, filter).len() implies 0 <= project_spec(
        s,
        filter,
    )[k] < s.procs@.len() && record_matches(
        s.procs@[project_spec(s, filter)[k] as int],
        filter,
    ) by {
        let y = project_spec(s, filter)[k];
        assert(filter_indices(procs, filter, sorted_order(procs, n))[k] == y);
        assert(filter_indices(procs, filter, sorted_order(procs, n)).contains(y));
        assert(sorted_order(procs, n).contains(y));
    }
    assert forall|i: usize|
        0 <= i < s.procs@.len() && record_matches(s.procs@[i as int], filter) implies project_spec(
        s,
        filter,
    ).contains(i) by {
        assert(sorted_order(procs, n).contains(i));
        assert(filter_indices(procs, filter, sorted_order(procs, n)).contains(i));
    }
}

/// The projection is in stable descending CPU order: a row stands
/// before another only if its CPU usage is strictly higher, or equal
/// with the earlier snapshot position. Determinism is inherent: the
/// projection is a function of the snapshot and the filter alone.
pub proof fn lemma_projection_stable_sorted(s: Snapshot, filter: Seq<u8>)
    requires
        s.procs@.len() <= usize::MAX,
    ensures
        stable_desc(s.procs@, project_spec(s, filter)),
{
    let procs = s.procs@;
    let n = procs.len() as int;
    lemma_sorted_order_stable(procs, n);
    lemma_filter_indices_stable(procs, filter, sorted_order(procs, n));
}

/// Computes the projection of `s` under `filter`.
pub fn project(s: &Snapshot, filter: &Vec<u8>) -> (r: Vec<usize>)
    ensures
        r@ == project_spec(*s, filter@),
{
    let procs_len = s.procs.len();
    let mut sorted: Vec<usize> = Vec::new();
    let mut x: usize = 0;
    while x < procs_len
        invariant
            procs_len == s.procs@.len(),
            x <= procs_len,
            sorted@ == sorted_order(s.procs@, x as int),
        decreases procs_len - x,
    {
        proof {
            lemma_sorted_order_props(s.procs@, x as int);
            assert forall|k: int| 0 <= k < sorted@.len() implies sorted@[k]
                < s.procs@.len() by {
                assert(sorted@.contains(sorted@[k]));
            }
        }
        let j = insert_pos(&s.procs, &sorted, x);
        proof {
            lemma_insert_desc_at(s.procs@, sorted@, x, j as int);
        }
        sorted.insert(j, x);
        x = x + 1;
    }
    proof {
        lemma_sorted_order_props(s.procs@, procs_len as int);
    }
    let mut out: Vec<usize> = Vec::new();
    let mut t: usize = 0;
    while t < sorted.len()
        invariant
            procs_len == s.procs@.len(),
            sorted@ == sorted_order(s.procs@, procs_len as int),
            sorted@.len() == procs_len,
            forall|y: usize| sorted@.contains(y) ==> 0 <= y < procs_len,
            t <= sorted@.len(),
            out@ == filter_indices(s.procs@, filter@, sorted@.take(t as int)),
        decreases sorted@.len() - t,
    {
        let idx = sorted[t];
        proof {
            assert(sorted@.contains(sorted@[t as int]));
        }
        let text = rendered_text(&s.procs[idx]);
        proof {
            assert(sorted@.take(t + 1).drop_last() =~= sorted@.take(t as int));
            assert(sorted@.take(t + 1).last() == sorted@[t as int]);
        }
        if contains_ci_bytes(text.as_slice(), filter.as_slice()) {
            out.push(idx);
        }
        t = t + 1;
    }
    proof {
        assert(sorted@.take(sorted@.len() as int) =~= sorted@);
        lemma_sorted_order_props(s.procs@, procs_len as int);
    }
    out
}

/// Finds the position of the first entry of `sorted` whose CPU usage
/// is strictly below that of `x`, or the length if there is none.
fn insert_pos(procs: &Vec<ProcessRecord>, sorted: &Vec<usize>, x: usize) -> (j: usize)
    requires
        x < procs@.len(),
        forall|k: int| 0 <= k < sorted@.len() ==> sorted@[k] < procs@.len(),
    ensures
        j <= sorted@.len(),
        forall|k: int|
            0 <= k < j ==> procs@[sorted@[k] as int].cpu_tenths >= procs@[x as int].cpu_tenths,
        j < sorted@.len() ==> procs@[sorted@[j as int] as int].cpu_tenths < procs@[x as int].cpu_tenths,
{
    let mut j: usize = 0;
    loop
        invariant
            x < procs@.len(),
            forall|k: int| 0 <= k < sorted@.len() ==> sorted@[k] < procs@.len(),
            j <= sorted@.len(),
            forall|k: int|
                0 <= k < j ==> procs@[sorted@[k] as int].cpu_tenths
                    >= procs@[x as int].cpu_tenths,
        decreases sorted@.len() - j,
    {
        if j == sorted.len() {
            return j;
        }
        if procs[sorted[j]].cpu_tenths < procs[x].cpu_tenths {
            return j;
        }
        j = j + 1;
    }
}

/// If the first `j` entries of `sorted` have CPU usage at least that
/// of `x` and entry `j` (if any) has strictly less, then the stable
/// insertion of `x` is exactly the insertion at position `j`.
proof fn lemma_insert_desc_at(procs: Seq<ProcessRecord>, sorted: Seq<usize>, x: usize, j: int)
    requires
        0 <= j <= sorted.len(),
        x < procs.len(),
        forall|y: usize| sorted.contains(y) ==> 0 <= y < procs.len(),
        forall|k: int|
            0 <= k < j ==> procs[sorted[k] as int].cpu_tenths >= procs[x as int].cpu_tenths,
        j < sorted.len() ==> procs[sorted[j] as int].cpu_tenths < procs[x as int].cpu_tenths,
    ensures
        insert_desc(procs, sorted, x) == sorted.insert(j, x),
    decreases sorted.len(),
{
    if sorted.len() == 0 {
        assert(insert_desc(procs, sorted, x) =~= sorted.insert(0, x));
    } else if j == 0 {
        assert(procs[sorted[0] as int].cpu_tenths < procs[x as int].cpu_tenths);
        assert(insert_desc(procs, sorted, x) =~= sorted.insert(0, x));
    } else {
        assert(sorted.contains(sorted[0]));
        assert(procs[sorted[0] as int].cpu_tenths >= procs[x as int].cpu_tenths);
        let tail = sorted.drop_first();
        assert(forall|k: int| 0 <= k < tail.len() ==> tail[k] == sorted[k + 1]);
        assert(forall|y: usize| tail.contains(y) ==> sorted.contains(y)) by {
            assert forall|y: usize| tail.contains(y) implies sorted.contains(y) by {
                let m = choose|m: int| 0 <= m < tail.len() && tail[m] == y;
                assert(sorted[m + 1] == y);
            }
        }
        lemma_insert_desc_at(procs, tail, x, j - 1);
        assert(insert_desc(procs, sorted, x) =~= seq![sorted[0]] + tail.insert(j - 1, x));
        assert(seq![sorted[0]] + tail.insert(j - 1, x) =~= sorted.insert(j, x));
    }
}

} // verus!
