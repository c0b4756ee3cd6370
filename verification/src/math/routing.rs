//! Flight-line ordering.
//!
//! Each flight line can be flown in either direction. Its two endpoints are
//! numbered `2j` (start) and `2j + 1` (end); flown forward a line is entered
//! at its start and left at its end, flown in reverse the other way round.
//! Distances are `f64` values (geodesic metres) computed by the caller and
//! carried as bit patterns; the library only compares them.
//!
//! The tour is built by the nearest-neighbour heuristic from the launch
//! point and then improved by 2-opt segment reversals.

use vstd::prelude::*;
use crate::floatbits::{f64_lt, lt, is_nan, order_key};

verus! {

/// Bit pattern of `f64::MAX`, the initial "best distance" of a search.
pub const F64_MAX_BITS: u64 = 0x7FEF_FFFF_FFFF_FFFF;

/// Endpoint at which line `j` is entered when flown forward (`false`) or
/// reversed (`true`).
pub open spec fn entry_pt(j: int, rev: bool) -> int {
    if rev {
        2 * j + 1
    } else {
        2 * j
    }
}

/// Endpoint at which line `j` is left.
pub open spec fn exit_pt(j: int, rev: bool) -> int {
    if rev {
        2 * j
    } else {
        2 * j + 1
    }
}

/// The nearest-neighbour choice among lines `0..k` from a position whose
/// distances to the endpoints are `row`: lines are tried in index order,
/// forward before reverse, and a candidate replaces the best so far only
/// when strictly closer. Starts from line 0 forward at distance `f64::MAX`.
pub open spec fn scan(row: Seq<u64>, visited: Seq<bool>, k: nat) -> (int, bool, u64)
    decreases k,
{
    if k == 0 {
        (0, false, F64_MAX_BITS)
    } else {
        let prev = scan(row, visited, (k - 1) as nat);
        let j = k - 1;
        if visited[j] {
            prev
        } else {
            let df = row[entry_pt(j, false)];
            let dr = row[entry_pt(j, true)];
            let s1 = if f64_lt(df, prev.2) {
                (j, false, df)
            } else {
                prev
            };
            if f64_lt(dr, s1.2) {
                (j, true, dr)
            } else {
                s1
            }
        }
    }
}

/// Order, directions and visited flags after `t` steps of the tour over `n`
/// lines: the first step starts from the launch point, every later one
/// from the exit of the line flown last.
pub open spec fn nn_state(launch: Seq<u64>, dist: Seq<Seq<u64>>, n: nat, t: nat) -> (
    Seq<usize>,
    Seq<bool>,
    Seq<bool>,
)
    decreases t,
{
    if t == 0 {
        (seq![], seq![], Seq::new(n, |i: int| false))
    } else {
        let (o, r, v) = nn_state(launch, dist, n, (t - 1) as nat);
        let row = if t == 1 {
            launch
        } else {
            dist[exit_pt(o.last() as int, r.last())]
        };
        let (j, rev, _d) = scan(row, v, n);
        (o.push(j as usize), r.push(rev), v.update(j, true))
    }
}

/// The nearest-neighbour tour over `n` lines: visit order and directions.
pub open spec fn nn_tour(launch: Seq<u64>, dist: Seq<Seq<u64>>, n: nat) -> (Seq<usize>, Seq<bool>) {
    let s = nn_state(launch, dist, n, n);
    (s.0, s.1)
}

/// Views of the rows of a distance matrix.
pub open spec fn matrix_view(m: Seq<Vec<u64>>) -> Seq<Seq<u64>> {
    m.map_values(|r: Vec<u64>| r@)
}

/// The distance inputs of a tour over `n` lines: one distance from the
/// launch point to each endpoint, and one from each endpoint to each.
pub open spec fn distances_shaped(launch: Seq<u64>, dist: Seq<Seq<u64>>, n: nat) -> bool {
    &&& launch.len() == 2 * n
    &&& dist.len() == 2 * n
    &&& forall|p: int| 0 <= p < dist.len() ==> (#[trigger] dist[p]).len() == 2 * n
}

fn scan_exec(row: &Vec<u64>, visited: &Vec<bool>, n: usize) -> (r: (usize, bool, u64))
    requires
        row@.len() == 2 * n,
        visited@.len() == n,
    ensures
        (r.0 as int, r.1, r.2) == scan(row@, visited@, n as nat),
        n > 0 ==> r.0 < n,
{
    let m = row.len();
    let mut best_idx: usize = 0;
    let mut best_rev = false;
    let mut best_dist: u64 = F64_MAX_BITS;
    let mut j: usize = 0;
    while j < n
        invariant
            j <= n,
            m == 2 * n,
            row@.len() == 2 * n,
            visited@.len() == n,
            (best_idx as int, best_rev, best_dist) == scan(row@, visited@, j as nat),
            j > 0 ==> best_idx < j,
            j == 0 ==> best_idx == 0,
        decreases n - j,
    {
        if !visited[j] {
            let d_fwd = row[2 * j];
            let d_rev = row[2 * j + 1];
            if lt(d_fwd, best_dist) {
                best_dist = d_fwd;
                best_idx = j;
                best_rev = false;
            }
            if lt(d_rev, best_dist) {
                best_dist = d_rev;
                best_idx = j;
                best_rev = true;
            }
        }
        j = j + 1;
    }
    (best_idx, best_rev, best_dist)
}

proof fn lemma_scan_index(row: Seq<u64>, visited: Seq<bool>, k: nat)
    ensures
        k > 0 ==> 0 <= scan(row, visited, k).0 < k,
        k == 0 ==> scan(row, visited, k).0 == 0,
    decreases k,
{
    if k > 0 {
        lemma_scan_index(row, visited, (k - 1) as nat);
    }
}

proof fn lemma_nn_state_shape(launch: Seq<u64>, dist: Seq<Seq<u64>>, n: nat, t: nat)
    requires
        n > 0,
    ensures
        nn_state(launch, dist, n, t).0.len() == t,
        nn_state(launch, dist, n, t).1.len() == t,
        nn_state(launch, dist, n, t).2.len() == n,
        forall|i: int| 0 <= i < t ==> (#[trigger] nn_state(launch, dist, n, t).0[i]) < n,
    decreases t,
{
    if t > 0 {
        lemma_nn_state_shape(launch, dist, n, (t - 1) as nat);
        let (o, r, v) = nn_state(launch, dist, n, (t - 1) as nat);
        let row = if t == 1 {
            launch
        } else {
            dist[exit_pt(o.last() as int, r.last())]
        };
        lemma_scan_index(row, v, n);
    }
}

/// Greedy nearest-neighbour tour over `n` lines from the launch point: at
/// each step the closest entry point of a line not yet flown is chosen
/// (see [`scan`]), and the tour continues from that line's exit.
/// `launch[p]` is the distance from the launch point to endpoint `p`, and
/// `dist[p][q]` the distance from endpoint `p` to endpoint `q`.
pub fn nearest_neighbor(launch: &Vec<u64>, dist: &Vec<Vec<u64>>) -> (r: (Vec<usize>, Vec<bool>))
    requires
        launch@.len() % 2 == 0,
        distances_shaped(launch@, matrix_view(dist@), (launch@.len() / 2) as nat),
    ensures
        (r.0@, r.1@) == nn_tour(launch@, matrix_view(dist@), (launch@.len() / 2) as nat),
{
    let n = launch.len() / 2;
    let ghost dv = matrix_view(dist@);
    let mut visited: Vec<bool> = Vec::new();
    let mut k: usize = 0;
    while k < n
        invariant
            k <= n,
            visited@ == Seq::new(k as nat, |i: int| false),
        decreases n - k,
    {
        visited.push(false);
        k = k + 1;
        assert(visited@ =~= Seq::new(k as nat, |i: int| false));
    }
    let mut order: Vec<usize> = Vec::new();
    let mut reversed: Vec<bool> = Vec::new();
    let total = launch.len();
    let mut t: usize = 0;
    while t < n
        invariant
            t <= n,
            total == 2 * n,
            n == launch@.len() / 2,
            launch@.len() == 2 * n,
            distances_shaped(launch@, dv, n as nat),
            dv == matrix_view(dist@),
            (order@, reversed@, visited@) == nn_state(launch@, dv, n as nat, t as nat),
        decreases n - t,
    {
        proof {
            lemma_nn_state_shape(launch@, dv, n as nat, t as nat);
        }
        let (j, rev, _d) = if t == 0 {
            scan_exec(launch, &visited, n)
        } else {
            let last = order[t - 1];
            assert(order@[t - 1] < n);
            let p = if reversed[t - 1] {
                2 * last
            } else {
                2 * last + 1
            };
            assert(dv[p as int] == dist@[p as int]@);
            scan_exec(&dist[p], &visited, n)
        };
        visited.set(j, true);
        order.push(j);
        reversed.push(rev);
        t = t + 1;
    }
    (order, reversed)
}

// ---------------------------------------------------------------------------
// Laws of the nearest-neighbour tour
// ---------------------------------------------------------------------------

/// Every distance of the row is a number below `f64::MAX` (as geodesic
/// distances are).
pub open spec fn row_finite(row: Seq<u64>) -> bool {
    forall|p: int| 0 <= p < row.len() ==> f64_lt(#[trigger] row[p], F64_MAX_BITS)
}

/// Whether some line among `0..k` is not yet visited.
pub open spec fn some_unvisited(visited: Seq<bool>, k: nat) -> bool {
    exists|m: int| 0 <= m < k && !(#[trigger] visited[m])
}

/// With finite distances, the choice among lines `0..k` is a line not yet
/// flown, whose entry point is at least as close as that of every other
/// line not yet flown, in either direction.
pub proof fn law_scan_picks_nearest(row: Seq<u64>, visited: Seq<bool>, k: nat)
    requires
        row.len() == 2 * visited.len(),
        k <= visited.len(),
        row_finite(row),
        some_unvisited(visited, k),
    ensures
        ({
            let (j, rev, d) = scan(row, visited, k);
            &&& 0 <= j < k
            &&& !visited[j]
            &&& d == row[entry_pt(j, rev)]
            &&& forall|m: int, r: bool|
                0 <= m < k && !visited[m] ==> !f64_lt(#[trigger] row[entry_pt(m, r)], d)
        }),
    decreases k,
{
    let j0 = k - 1;
    let prev = scan(row, visited, (k - 1) as nat);
    if some_unvisited(visited, (k - 1) as nat) {
        law_scan_picks_nearest(row, visited, (k - 1) as nat);
    } else {
        assert(prev == scan(row, visited, 0)) by {
            lemma_scan_all_visited(row, visited, (k - 1) as nat);
        }
        assert(!visited[j0]);
    }
    if !visited[j0] {
        let df = row[entry_pt(j0, false)];
        let dr = row[entry_pt(j0, true)];
        assert(f64_lt(df, F64_MAX_BITS));
        assert(f64_lt(dr, F64_MAX_BITS));
        assert(!is_nan(df) && !is_nan(dr));
        let (j, rev, d) = scan(row, visited, k);
        assert forall|m: int, r: bool| 0 <= m < k && !visited[m] implies !f64_lt(
            #[trigger] row[entry_pt(m, r)],
            d,
        ) by {
            assert(f64_lt(row[entry_pt(m, r)], F64_MAX_BITS));
            if m < j0 {
                assert(some_unvisited(visited, (k - 1) as nat));
                assert(!f64_lt(row[entry_pt(m, r)], prev.2));
            }
        }
    }
}

/// With every line already visited, the scan keeps its start value.
proof fn lemma_scan_all_visited(row: Seq<u64>, visited: Seq<bool>, k: nat)
    requires
        k <= visited.len(),
        !some_unvisited(visited, k),
    ensures
        scan(row, visited, k) == scan(row, visited, 0),
    decreases k,
{
    if k > 0 {
        assert(visited[k - 1]) by {
            if !visited[k - 1] {
                assert(some_unvisited(visited, k));
            }
        }
        assert(!some_unvisited(visited, (k - 1) as nat)) by {
            if some_unvisited(visited, (k - 1) as nat) {
                let m = choose|m: int| 0 <= m < k - 1 && !(#[trigger] visited[m]);
                assert(0 <= m < k && !visited[m]);
            }
        }
        lemma_scan_all_visited(row, visited, (k - 1) as nat);
    }
}

/// Number of visited lines.
pub open spec fn visited_count(v: Seq<bool>) -> nat
    decreases v.len(),
{
    if v.len() == 0 {
        0
    } else {
        visited_count(v.drop_last()) + if v.last() {
            1nat
        } else {
            0nat
        }
    }
}

proof fn lemma_count_bound(v: Seq<bool>)
    ensures
        visited_count(v) <= v.len(),
        visited_count(v) < v.len() ==> some_unvisited(v, v.len()),
        visited_count(v) == v.len() ==> forall|i: int| 0 <= i < v.len() ==> #[trigger] v[i],
    decreases v.len(),
{
    if v.len() > 0 {
        lemma_count_bound(v.drop_last());
        if visited_count(v) < v.len() {
            if v.last() {
                let m = choose|m: int|
                    0 <= m < v.len() - 1 && !(#[trigger] v.drop_last()[m]);
                assert(!v[m]);
            } else {
                assert(!v[v.len() - 1]);
            }
        }
        if visited_count(v) == v.len() {
            assert forall|i: int| 0 <= i < v.len() implies #[trigger] v[i] by {
                if i < v.len() - 1 {
                    assert(v.drop_last()[i] == v[i]);
                }
            }
        }
    }
}

proof fn lemma_count_set(v: Seq<bool>, j: int)
    requires
        0 <= j < v.len(),
        !v[j],
    ensures
        visited_count(v.update(j, true)) == visited_count(v) + 1,
    decreases v.len(),
{
    if j < v.len() - 1 {
        lemma_count_set(v.drop_last(), j);
        assert(v.update(j, true).drop_last() =~= v.drop_last().update(j, true));
    } else {
        assert(v.update(j, true).drop_last() =~= v.drop_last());
    }
}

proof fn lemma_count_all_false(n: nat)
    ensures
        visited_count(Seq::new(n, |i: int| false)) == 0,
    decreases n,
{
    if n > 0 {
        assert(Seq::new(n, |i: int| false).drop_last() =~= Seq::new((n - 1) as nat, |i: int| false));
        lemma_count_all_false((n - 1) as nat);
    }
}

/// Every row of distances is finite.
pub open spec fn all_finite(launch: Seq<u64>, dist: Seq<Seq<u64>>) -> bool {
    row_finite(launch) && forall|p: int| 0 <= p < dist.len() ==> row_finite(#[trigger] dist[p])
}

proof fn lemma_nn_state_invariant(launch: Seq<u64>, dist: Seq<Seq<u64>>, n: nat, t: nat)
    requires
        n > 0,
        2 * n <= usize::MAX,
        t <= n,
        distances_shaped(launch, dist, n),
        all_finite(launch, dist),
    ensures
        ({
            let (o, r, v) = nn_state(launch, dist, n, t);
            &&& o.len() == t
            &&& o.no_duplicates()
            &&& forall|i: int| 0 <= i < t ==> (#[trigger] o[i]) < n
            &&& forall|i: int| 0 <= i < n ==> (#[trigger] v[i] <==> o.contains(i as usize))
            &&& visited_count(v) == t
        }),
    decreases t,
{
    lemma_nn_state_shape(launch, dist, n, t);
    if t == 0 {
        lemma_count_all_false(n);
    } else {
        lemma_nn_state_invariant(launch, dist, n, (t - 1) as nat);
        lemma_nn_state_shape(launch, dist, n, (t - 1) as nat);
        let (o, r, v) = nn_state(launch, dist, n, (t - 1) as nat);
        let row = if t == 1 {
            launch
        } else {
            dist[exit_pt(o.last() as int, r.last())]
        };
        if t > 1 {
            assert(o[o.len() - 1] < n);
            assert(0 <= exit_pt(o.last() as int, r.last()) < dist.len());
        }
        assert(row.len() == 2 * n);
        assert(row_finite(row));
        lemma_count_bound(v);
        law_scan_picks_nearest(row, v, n);
        let (j, rev, _d) = scan(row, v, n);
        lemma_count_set(v, j);
        let o2 = o.push(j as usize);
        let v2 = v.update(j, true);
        assert(!o.contains(j as usize));
        assert forall|i: int| 0 <= i < n implies (#[trigger] v2[i] <==> o2.contains(i as usize)) by {
            if i == j {
                assert(o2[o2.len() - 1] == j as usize);
            } else {
                assert(i as usize != j as usize);
                if o2.contains(i as usize) {
                    let w = choose|w: int| 0 <= w < o2.len() && o2[w] == i as usize;
                    assert(o2[o.len() as int] == j as usize);
                    assert(w != o.len());
                    assert(w < o.len());
                    assert(o.contains(i as usize));
                }
                if o.contains(i as usize) {
                    let w = choose|w: int| 0 <= w < o.len() && o[w] == i as usize;
                    assert(o2[w] == i as usize);
                }
            }
        }
        assert(o2.no_duplicates()) by {
            assert forall|a: int, b: int| 0 <= a < o2.len() && 0 <= b < o2.len() && a != b
                implies o2[a] != o2[b] by {
                if a == o.len() && b < o.len() {
                    assert(o.contains(o[b]));
                }
                if b == o.len() && a < o.len() {
                    assert(o.contains(o[a]));
                }
            }
        }
    }
}

/// With finite distances the nearest-neighbour tour flies every line
/// exactly once.
pub proof fn law_nn_tour_visits_each_line_once(launch: Seq<u64>, dist: Seq<Seq<u64>>, n: nat)
    requires
        2 * n <= usize::MAX,
        distances_shaped(launch, dist, n),
        all_finite(launch, dist),
    ensures
        ({
            let (o, r) = nn_tour(launch, dist, n);
            &&& o.len() == n
            &&& r.len() == n
            &&& o.no_duplicates()
            &&& forall|k: usize| k < n ==> #[trigger] o.contains(k)
        }),
{
    if n > 0 {
        lemma_nn_state_invariant(launch, dist, n, n);
        lemma_nn_state_shape(launch, dist, n, n);
        let (o, r, v) = nn_state(launch, dist, n, n);
        lemma_count_bound(v);
        assert forall|k: usize| k < n implies #[trigger] o.contains(k) by {
            assert(v[k as int]);
        }
    }
}

// ---------------------------------------------------------------------------
// 2-opt segment reversal
// ---------------------------------------------------------------------------

/// The tour with the segment `i+1..=j` reversed: its lines are visited in
/// the opposite order, each in the opposite direction.
pub open spec fn reversed_segment(
    order: Seq<usize>,
    reversed: Seq<bool>,
    i: int,
    j: int,
) -> (Seq<usize>, Seq<bool>) {
    (
        Seq::new(
            order.len(),
            |k: int|
                if i < k <= j {
                    order[i + 1 + j - k]
                } else {
                    order[k]
                },
        ),
        Seq::new(
            reversed.len(),
            |k: int|
                if i < k <= j {
                    !reversed[i + 1 + j - k]
                } else {
                    reversed[k]
                },
        ),
    )
}

/// Reverse the segment `i+1..=j` of a tour (the 2-opt move): the visit
/// order within the segment is flipped and each of its lines is flown in
/// the other direction.
pub fn reverse_segment(order: &mut Vec<usize>, reversed: &mut Vec<bool>, i: usize, j: usize)
    requires
        old(order)@.len() == old(reversed)@.len(),
        i < j < old(order)@.len(),
    ensures
        (final(order)@, final(reversed)@) == reversed_segment(
            old(order)@,
            old(reversed)@,
            i as int,
            j as int,
        ),
{
    let ghost o0 = order@;
    let ghost r0 = reversed@;
    let mut a = i + 1;
    let mut b = j;
    while a < b
        invariant
            i < a,
            b <= j < o0.len(),
            a + b == i + 1 + j,
            a <= b + 1,
            order@.len() == o0.len(),
            reversed@.len() == r0.len(),
            r0.len() == o0.len(),
            forall|k: int|
                0 <= k < o0.len() ==> #[trigger] order@[k] == if (i < k < a) || (b < k <= j) {
                    o0[i + 1 + j - k]
                } else {
                    o0[k]
                },
            forall|k: int|
                0 <= k < r0.len() ==> #[trigger] reversed@[k] == if (i < k < a) || (b < k <= j) {
                    !r0[i + 1 + j - k]
                } else {
                    r0[k]
                },
        decreases b + 1 - a,
    {
        let oa = order[a];
        let ob = order[b];
        order.set(a, ob);
        order.set(b, oa);
        let ra = reversed[a];
        let rb = reversed[b];
        reversed.set(a, !rb);
        reversed.set(b, !ra);
        a = a + 1;
        b = b - 1;
    }
    if a == b {
        let ra = reversed[a];
        reversed.set(a, !ra);
    }
    assert(order@ =~= reversed_segment(o0, r0, i as int, j as int).0);
    assert(reversed@ =~= reversed_segment(o0, r0, i as int, j as int).1);
}

/// Reversing the same segment twice gives back the tour.
pub proof fn law_reverse_segment_involution(order: Seq<usize>, reversed: Seq<bool>, i: int, j: int)
    requires
        order.len() == reversed.len(),
        0 <= i < j < order.len(),
    ensures
        ({
            let (o1, r1) = reversed_segment(order, reversed, i, j);
            reversed_segment(o1, r1, i, j) == (order, reversed)
        }),
{
    let (o1, r1) = reversed_segment(order, reversed, i, j);
    let (o2, r2) = reversed_segment(o1, r1, i, j);
    assert(o2 =~= order);
    assert(r2 =~= reversed);
}

/// A 2-opt move keeps the set of lines flown: it only permutes the tour.
pub proof fn law_reverse_segment_permutes(order: Seq<usize>, reversed: Seq<bool>, i: int, j: int)
    requires
        order.len() == reversed.len(),
        0 <= i < j < order.len(),
    ensures
        ({
            let (o1, _r1) = reversed_segment(order, reversed, i, j);
            &&& o1.len() == order.len()
            &&& forall|k: int| 0 <= k < order.len() ==> o1.contains(#[trigger] order[k])
            &&& forall|k: int| 0 <= k < o1.len() ==> order.contains(#[trigger] o1[k])
        }),
{
    let (o1, _r1) = reversed_segment(order, reversed, i, j);
    assert forall|k: int| 0 <= k < order.len() implies o1.contains(#[trigger] order[k]) by {
        if i < k <= j {
            assert(o1[i + 1 + j - k] == order[k]);
        } else {
            assert(o1[k] == order[k]);
        }
    }
    assert forall|k: int| 0 <= k < o1.len() implies order.contains(#[trigger] o1[k]) by {
        if i < k <= j {
            assert(order[i + 1 + j - k] == o1[k]);
        } else {
            assert(order[k] == o1[k]);
        }
    }
}

/// A 2-opt move keeps a tour free of repeated lines.
pub proof fn law_reverse_segment_keeps_distinct(order: Seq<usize>, reversed: Seq<bool>, i: int, j: int)
    requires
        order.len() == reversed.len(),
        0 <= i < j < order.len(),
        order.no_duplicates(),
    ensures
        reversed_segment(order, reversed, i, j).0.no_duplicates(),
{
    let (o1, _r1) = reversed_segment(order, reversed, i, j);
    assert forall|a: int, b: int| 0 <= a < o1.len() && 0 <= b < o1.len() && a != b implies o1[a]
        != o1[b] by {
        let pa = if i < a <= j {
            i + 1 + j - a
        } else {
            a
        };
        let pb = if i < b <= j {
            i + 1 + j - b
        } else {
            b
        };
        assert(o1[a] == order[pa]);
        assert(o1[b] == order[pb]);
        assert(pa != pb);
    }
}

/// Two tours hold the same lines.
pub open spec fn same_lines(a: Seq<usize>, b: Seq<usize>) -> bool {
    a.len() == b.len() && forall|x: usize| #[trigger] a.contains(x) <==> b.contains(x)
}

/// Cap on the number of improving 2-opt sweeps.
pub const MAX_TWO_OPT_ITERATIONS: usize = 1000;

/// `improves` approves no reversal of any tour.
pub open spec fn approves_none<F: Fn(&Vec<usize>, &Vec<bool>, usize, usize) -> bool>(improves: F) -> bool {
    forall|o: &Vec<usize>, r: &Vec<bool>, i: usize, j: usize, b: bool|
        #[trigger] improves.ensures((o, r, i, j), b) ==> !b
}

/// `improves` approves reversing the segment `i+1..=j` (with `j >= i + 2`)
/// of tour `a`, and `b` is `a` with that segment reversed.
pub open spec fn approved_reversal<F: Fn(&Vec<usize>, &Vec<bool>, usize, usize) -> bool>(
    improves: F,
    a: (Vec<usize>, Vec<bool>),
    b: (Vec<usize>, Vec<bool>),
) -> bool {
    exists|i: usize, j: usize|
        i + 2 <= j < a.0@.len() && #[trigger] improves.ensures((&a.0, &a.1, i, j), true) && (
        b.0@,
        b.1@,
    ) == reversed_segment(a.0@, a.1@, i as int, j as int)
}

/// Tour `b` is reached from tour `a` by `k` reversals, each approved by
/// `improves` on the tour it was applied to.
pub open spec fn approved_path<F: Fn(&Vec<usize>, &Vec<bool>, usize, usize) -> bool>(
    improves: F,
    a: (Vec<usize>, Vec<bool>),
    b: (Vec<usize>, Vec<bool>),
    k: nat,
) -> bool
    decreases k,
{
    if k == 0 {
        a == b
    } else {
        exists|m: (Vec<usize>, Vec<bool>)|
            approved_path(improves, a, m, (k - 1) as nat) && #[trigger] approved_reversal(
                improves,
                m,
                b,
            )
    }
}

/// One more approved reversal extends an approved path by one step.
proof fn lemma_approved_path_step<F: Fn(&Vec<usize>, &Vec<bool>, usize, usize) -> bool>(
    improves: F,
    a: (Vec<usize>, Vec<bool>),
    m: (Vec<usize>, Vec<bool>),
    b: (Vec<usize>, Vec<bool>),
    k: nat,
)
    requires
        approved_path(improves, a, m, k),
        approved_reversal(improves, m, b),
    ensures
        approved_path(improves, a, b, k + 1),
{
}

/// `improves` approves no reversal of a segment `i+1..=j` (with
/// `j >= i + 2`) of tour `t`.
pub open spec fn two_opt_stable<F: Fn(&Vec<usize>, &Vec<bool>, usize, usize) -> bool>(
    improves: F,
    t: (Vec<usize>, Vec<bool>),
) -> bool {
    forall|i: usize, j: usize|
        i + 2 <= j < t.0@.len() ==> #[trigger] improves.ensures((&t.0, &t.1, i, j), false)
}

/// Improve a tour by 2-opt: sweep over all segments `i+1..=j` (with
/// `j >= i + 2`), reversing each one that `improves` reports as shortening
/// the tour; repeat until a sweep changes nothing, at most
/// `MAX_TWO_OPT_ITERATIONS` times. Tours of fewer than three lines are
/// left as they are, and so is a tour for which `improves` approves no
/// reversal. The result is reached from the tour by reversals that
/// `improves` approved, one after the other; either `improves` approves no
/// reversal of the result, or every one of the `MAX_TWO_OPT_ITERATIONS`
/// sweeps applied one, so that at least that many were applied. The tour
/// keeps its lines: only their order and directions change.
pub fn two_opt<F>(order: &mut Vec<usize>, reversed: &mut Vec<bool>, improves: F)
    where
        F: Fn(&Vec<usize>, &Vec<bool>, usize, usize) -> bool,
    requires
        old(order)@.len() == old(reversed)@.len(),
        forall|o: &Vec<usize>, r: &Vec<bool>, i: usize, j: usize|
            #[trigger] improves.requires((o, r, i, j)),
    ensures
        final(reversed)@.len() == old(reversed)@.len(),
        same_lines(final(order)@, old(order)@),
        old(order)@.no_duplicates() ==> final(order)@.no_duplicates(),
        old(order)@.len() < 3 ==> final(order)@ == old(order)@ && final(reversed)@ == old(reversed)@,
        approves_none(improves) ==> final(order)@ == old(order)@ && final(reversed)@ == old(reversed)@,
        exists|k: nat|
            approved_path(improves, (*old(order), *old(reversed)), (*final(order), *final(reversed)), k)
                && (two_opt_stable(improves, (*final(order), *final(reversed))) || k >= MAX_TWO_OPT_ITERATIONS),
{
    let ghost s0 = (*order, *reversed);
    let n = order.len();
    if n < 3 {
        assert(approved_path(improves, s0, (*order, *reversed), 0));
        return;
    }
    let ghost o0 = order@;
    let ghost r0 = reversed@;
    let ghost mut k: nat = 0;
    let mut iter: usize = 0;
    while iter < MAX_TWO_OPT_ITERATIONS
        invariant
            n == order@.len(),
            n == reversed@.len(),
            n >= 3,
            o0 == old(order)@,
            r0 == old(reversed)@,
            s0 == (*old(order), *old(reversed)),
            approves_none(improves) ==> order@ == o0 && reversed@ == r0,
            same_lines(order@, o0),
            o0.no_duplicates() ==> order@.no_duplicates(),
            forall|o: &Vec<usize>, r: &Vec<bool>, i: usize, j: usize|
                #[trigger] improves.requires((o, r, i, j)),
            approved_path(improves, s0, (*order, *reversed), k),
            k >= iter,
        ensures
            n == order@.len(),
            n == reversed@.len(),
            approves_none(improves) ==> order@ == o0 && reversed@ == r0,
            same_lines(order@, o0),
            o0.no_duplicates() ==> order@.no_duplicates(),
            approved_path(improves, s0, (*order, *reversed), k),
            two_opt_stable(improves, (*order, *reversed)) || k >= MAX_TWO_OPT_ITERATIONS,
        decreases MAX_TWO_OPT_ITERATIONS - iter,
    {
        let ghost so = (*order, *reversed);
        let ghost ks = k;
        let mut improved = false;
        let mut i: usize = 0;
        while i < n - 1
            invariant
                n == order@.len(),
                n == reversed@.len(),
                n >= 3,
                i <= n - 1,
                approves_none(improves) ==> order@ == o0 && reversed@ == r0,
                same_lines(order@, o0),
                o0.no_duplicates() ==> order@.no_duplicates(),
                forall|o: &Vec<usize>, r: &Vec<bool>, i: usize, j: usize|
                    #[trigger] improves.requires((o, r, i, j)),
                approved_path(improves, s0, (*order, *reversed), k),
                k >= ks,
                improved ==> k >= ks + 1,
                !improved ==> (*order, *reversed) == so && k == ks,
                !improved ==> forall|a: usize, b: usize|
                    a < i && a + 2 <= b < n ==> #[trigger] improves.ensures(
                        (&so.0, &so.1, a, b),
                        false,
                    ),
            decreases n - 1 - i,
        {
            let mut j: usize = i + 2;
            while j < n
                invariant
                    n == order@.len(),
                    n == reversed@.len(),
                    i < n - 1,
                    i + 2 <= j <= n,
                    approves_none(improves) ==> order@ == o0 && reversed@ == r0,
                    same_lines(order@, o0),
                    o0.no_duplicates() ==> order@.no_duplicates(),
                    forall|o: &Vec<usize>, r: &Vec<bool>, i: usize, j: usize|
                        #[trigger] improves.requires((o, r, i, j)),
                    approved_path(improves, s0, (*order, *reversed), k),
                    k >= ks,
                    improved ==> k >= ks + 1,
                    !improved ==> (*order, *reversed) == so && k == ks,
                    !improved ==> forall|a: usize, b: usize|
                        (a < i || (a == i && b < j)) && a + 2 <= b < n
                            ==> #[trigger] improves.ensures((&so.0, &so.1, a, b), false),
                decreases n - j,
            {
                let better = improves(&*order, &*reversed, i, j);
                if better {
                    let ghost before = (*order, *reversed);
                    let ghost before_o = order@;
                    let ghost before_r = reversed@;
                    reverse_segment(order, reversed, i, j);
                    proof {
                        law_reverse_segment_permutes(before_o, before_r, i as int, j as int);
                        if before_o.no_duplicates() {
                            law_reverse_segment_keeps_distinct(before_o, before_r, i as int, j as int);
                        }
                        assert forall|x: usize| #[trigger] order@.contains(x) <==> o0.contains(x) by {
                            if order@.contains(x) {
                                let k = choose|k: int| 0 <= k < order@.len() && order@[k] == x;
                                assert(before_o.contains(order@[k]));
                            }
                            if before_o.contains(x) {
                                let k = choose|k: int| 0 <= k < before_o.len() && before_o[k] == x;
                                assert(order@.contains(before_o[k]));
                            }
                        }
                        assert(approved_reversal(improves, before, (*order, *reversed)));
                        lemma_approved_path_step(improves, s0, before, (*order, *reversed), k);
                        k = k + 1;
                    }
                    improved = true;
                }
                j = j + 1;
            }
            i = i + 1;
        }
        if !improved {
            assert(two_opt_stable(improves, (*order, *reversed)));
            break;
        }
        iter = iter + 1;
    }
}

// ---------------------------------------------------------------------------
// Line selection
// ---------------------------------------------------------------------------

/// Indices of the lines with at least two waypoints, in order.
pub open spec fn routable(lengths: Seq<usize>) -> Seq<usize>
    decreases lengths.len(),
{
    if lengths.len() == 0 {
        seq![]
    } else if lengths.last() >= 2 {
        routable(lengths.drop_last()).push((lengths.len() - 1) as usize)
    } else {
        routable(lengths.drop_last())
    }
}

/// The lines the optimiser routes: those with at least two waypoints
/// (shorter lines have no direction and are left out of the tour).
pub fn routable_lines(lengths: &Vec<usize>) -> (r: Vec<usize>)
    ensures
        r@ == routable(lengths@),
{
    let mut r: Vec<usize> = Vec::new();
    let mut i: usize = 0;
    while i < lengths.len()
        invariant
            i <= lengths@.len(),
            r@ == routable(lengths@.take(i as int)),
        decreases lengths.len() - i,
    {
        assert(lengths@.take(i + 1).drop_last() =~= lengths@.take(i as int));
        if lengths[i] >= 2 {
            r.push(i);
        }
        i = i + 1;
    }
    assert(lengths@.take(lengths@.len() as int) =~= lengths@);
    r
}

/// Map a tour over the routable lines back to the plan's line indices.
pub fn map_to_lines(valid: &Vec<usize>, local_order: &Vec<usize>) -> (r: Vec<usize>)
    requires
        forall|k: int| 0 <= k < local_order@.len() ==> #[trigger] local_order@[k] < valid@.len(),
    ensures
        r@.len() == local_order@.len(),
        forall|k: int| 0 <= k < r@.len() ==> #[trigger] r@[k] == valid@[local_order@[k] as int],
{
    let mut r: Vec<usize> = Vec::new();
    let mut k: usize = 0;
    while k < local_order.len()
        invariant
            k <= local_order@.len(),
            forall|m: int| 0 <= m < local_order@.len() ==> #[trigger] local_order@[m] < valid@.len(),
            r@.len() == k,
            forall|m: int| 0 <= m < k ==> #[trigger] r@[m] == valid@[local_order@[m] as int],
        decreases local_order.len() - k,
    {
        r.push(valid[local_order[k]]);
        k = k + 1;
    }
    r
}

// ---------------------------------------------------------------------------
// The route
// ---------------------------------------------------------------------------

/// The tour over `n` lines (`n` = half the length of `launch`): nothing for
/// no line, a single line flown forward, otherwise the nearest-neighbour
/// tour from the launch point improved by 2-opt. `launch` and `dist` hold
/// the distances between the lines' endpoints, as for
/// [`nearest_neighbor`]. With two lines or more the tour is reached from
/// the nearest-neighbour tour by reversals that `improves` approved (see
/// [`two_opt`]), and `improves` approves no reversal of it unless the sweep
/// cap was reached. With finite distances every line is flown exactly
/// once; without an approved reversal the tour is the nearest-neighbour
/// one.
pub fn route_tour<F>(launch: &Vec<u64>, dist: &Vec<Vec<u64>>, improves: F) -> (r: (Vec<usize>, Vec<bool>))
    where
        F: Fn(&Vec<usize>, &Vec<bool>, usize, usize) -> bool,
    requires
        launch@.len() % 2 == 0,
        distances_shaped(launch@, matrix_view(dist@), (launch@.len() / 2) as nat),
        forall|o: &Vec<usize>, r: &Vec<bool>, i: usize, j: usize|
            #[trigger] improves.requires((o, r, i, j)),
    ensures
        r.0@.len() == launch@.len() / 2,
        r.1@.len() == launch@.len() / 2,
        forall|k: int| 0 <= k < r.0@.len() ==> #[trigger] r.0@[k] < launch@.len() / 2,
        launch@.len() == 2 ==> r.0@ == seq![0usize] && r.1@ == seq![false],
        launch@.len() >= 4 && all_finite(launch@, matrix_view(dist@)) ==> {
            &&& r.0@.no_duplicates()
            &&& forall|k: usize| k < launch@.len() / 2 ==> #[trigger] r.0@.contains(k)
        },
        launch@.len() >= 4 && approves_none(improves) ==> (r.0@, r.1@) == nn_tour(
            launch@,
            matrix_view(dist@),
            (launch@.len() / 2) as nat,
        ),
        launch@.len() >= 4 ==> exists|s: (Vec<usize>, Vec<bool>), k: nat|
            (s.0@, s.1@) == nn_tour(launch@, matrix_view(dist@), (launch@.len() / 2) as nat)
                && #[trigger] approved_path(improves, s, r, k) && (two_opt_stable(improves, r) || k
                >= MAX_TWO_OPT_ITERATIONS),
{
    let n = launch.len() / 2;
    if n == 0 {
        return (Vec::new(), Vec::new());
    }
    if n == 1 {
        let mut o: Vec<usize> = Vec::new();
        o.push(0);
        let mut d: Vec<bool> = Vec::new();
        d.push(false);
        assert(o@ =~= seq![0usize]);
        assert(d@ =~= seq![false]);
        return (o, d);
    }
    let ghost dv = matrix_view(dist@);
    let (mut order, mut reversed) = nearest_neighbor(launch, dist);
    let ghost o0 = order@;
    let ghost s0 = (order, reversed);
    proof {
        lemma_nn_state_shape(launch@, dv, n as nat, n as nat);
        if all_finite(launch@, dv) {
            law_nn_tour_visits_each_line_once(launch@, dv, n as nat);
        }
    }
    two_opt(&mut order, &mut reversed, improves);
    assert forall|k: int| 0 <= k < order@.len() implies #[trigger] order@[k] < n by {
        assert(order@.contains(order@[k]));
        let m = choose|m: int| 0 <= m < o0.len() && o0[m] == order@[k];
        assert(o0[m] < n);
    }
    proof {
        if all_finite(launch@, dv) {
            assert forall|k: usize| k < n implies #[trigger] order@.contains(k) by {
                assert(o0.contains(k));
            }
        }
    }
    (order, reversed)
}

} // verus!
