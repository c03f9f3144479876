//! The engine's stated laws, as public proof functions: determinism of
//! batch extension, gap-free cache coverage, the equivalence of a missing
//! and an empty parent, and hierarchical parent-before-child coverage
//! under the scheduler.

use vstd::prelude::*;
use crate::fixed::Fx;
use crate::scheduler::{extend_model, parent_points_of, sched_from, wf_bodies};
use crate::trajectory::{TrajModel, TrajectoryPoint, calc_points_upto, lemma_calc_points_dom};

verus! {

/// Determinism: a batch extension is a pure function of its inputs. Two
/// trajectories holding equal caches, extended from an identical start
/// sample under an identical environment and batch size, hold identical
/// caches afterwards.
pub proof fn lemma_calculate_deterministic(
    p1: Map<u64, TrajectoryPoint>,
    p2: Map<u64, TrajectoryPoint>,
    start: TrajectoryPoint,
    mu: Fx,
    parent: Map<u64, TrajectoryPoint>,
    tps: Fx,
    cs: u64,
    times: nat,
)
    requires
        p1 == p2,
    ensures
        calc_points_upto(p1, start, mu, parent, tps, cs, times) == calc_points_upto(p2, start, mu,
            parent, tps, cs, times),
{
}

/// Cache coverage: a well-formed cache has no interior holes. Whenever the
/// sample at step `n` is present, so is the sample at every step `m <= n`.
pub proof fn lemma_cache_coverage(t: TrajModel, n: u64, m: u64)
    requires
        t.wf(),
        t.points.dom().contains(n),
        m <= n,
    ensures
        t.points.dom().contains(m),
{
}

/// A body with no parent and a body whose parent trajectory exists but is
/// empty produce identical batches: every parent lookup misses either
/// way, so both resolve to the all-zero sample.
pub proof fn lemma_rootless_equivalence(
    pts: Map<u64, TrajectoryPoint>,
    start: TrajectoryPoint,
    mu: Fx,
    parent: Map<u64, TrajectoryPoint>,
    tps: Fx,
    cs: u64,
    times: nat,
)
    requires
        parent.dom() == Set::<u64>::empty(),
    ensures
        calc_points_upto(pts, start, mu, parent, tps, cs, times) == calc_points_upto(pts, start,
            mu, Map::<u64, TrajectoryPoint>::empty(), tps, cs, times),
{
    assert(parent =~= Map::<u64, TrajectoryPoint>::empty());
}

/// A pass over bodies that all already cover the lookahead step changes
/// nothing.
proof fn lemma_sched_noop(
    bs: Seq<TrajModel>,
    step: u64,
    step_size: u64,
    tps: Fx,
    times: nat,
    i: nat,
)
    requires
        i <= bs.len(),
        forall|j: int|
            i <= j < bs.len() ==> (#[trigger] bs[j]).points.dom().contains(
                ((step + step_size) as u64),
            ),
    ensures
        sched_from(bs, step, step_size, tps, times, i) == (bs, None::<int>),
    decreases bs.len() - i,
{
    if i < bs.len() {
        lemma_sched_noop(bs, step, step_size, tps, times, i + 1);
    }
}

/// The steps a batch starting at `step` populates.
spec fn batch_range(step: u64, times: nat) -> Set<u64> {
    Set::new(|k: u64| step <= k <= step + times)
}

/// A pass touches each body only when it reaches it: bodies before the
/// pass's position never change again.
proof fn lemma_sched_frame(
    bs: Seq<TrajModel>,
    step: u64,
    step_size: u64,
    tps: Fx,
    times: nat,
    i: nat,
    j: int,
)
    requires
        0 <= j < i,
        j < bs.len(),
    ensures
        sched_from(bs, step, step_size, tps, times, i).0.len() == bs.len(),
        sched_from(bs, step, step_size, tps, times, i).0[j] == bs[j],
    decreases bs.len() - i,
{
    if i < bs.len() {
        let next = (step + step_size) as u64;
        if bs[i as int].points.dom().contains(next) {
            lemma_sched_frame(bs, step, step_size, tps, times, i + 1, j);
        } else if !bs[i as int].points.dom().contains(step) {
        } else {
            let bs2 = bs.update(i as int, extend_model(bs, i as int, step, tps, times));
            lemma_sched_frame(bs2, step, step_size, tps, times, i + 1, j);
        }
    }
}

/// Past the parent of a pair, a pass keeps the pair in lockstep: the
/// parent's cache (already processed, so never touched again) either
/// still equals the child's and covers the lookahead step, or equals the
/// child's enlarged by the batch range the child is about to receive.
/// Either way a completed pass leaves the two cache domains equal.
proof fn lemma_sched_pair_from(
    bs: Seq<TrajModel>,
    step: u64,
    step_size: u64,
    tps: Fx,
    times: nat,
    i: nat,
    pu: usize,
    c: int,
    d: Set<u64>,
)
    requires
        (pu as int) < i <= c < bs.len(),
        bs[c].center == Some(pu),
        bs[c].points.dom() == d,
        step + times <= u64::MAX,
        (bs[pu as int].points.dom() == d && d.contains(((step + step_size) as u64))) || (d.contains(
            step,
        ) && !d.contains(((step + step_size) as u64)) && bs[pu as int].points.dom() == d.union(
            batch_range(step, times),
        )),
    ensures
        sched_from(bs, step, step_size, tps, times, i).1 is None ==> sched_from(bs, step,
            step_size, tps, times, i).0[c].points.dom() == sched_from(bs, step, step_size, tps,
            times, i).0[pu as int].points.dom(),
    decreases bs.len() - i,
{
    let next = (step + step_size) as u64;
    if i < c {
        if bs[i as int].points.dom().contains(next) {
            lemma_sched_pair_from(bs, step, step_size, tps, times, i + 1, pu, c, d);
        } else if !bs[i as int].points.dom().contains(step) {
        } else {
            let bs2 = bs.update(i as int, extend_model(bs, i as int, step, tps, times));
            lemma_sched_pair_from(bs2, step, step_size, tps, times, i + 1, pu, c, d);
        }
    } else {
        if bs[c].points.dom().contains(next) {
            assert(bs[pu as int].points.dom() == d);
            lemma_sched_frame(bs, step, step_size, tps, times, i + 1, pu as int);
            lemma_sched_frame(bs, step, step_size, tps, times, i + 1, c);
        } else if !bs[c].points.dom().contains(step) {
        } else {
            let b = bs[c];
            let ext = extend_model(bs, c, step, tps, times);
            lemma_calc_points_dom(b.points, b.points[step], b.relative_mass, parent_points_of(bs,
                c), tps, step, times);
            assert forall|k: u64| #[trigger] ext.points.dom().contains(k) <==> d.union(
                batch_range(step, times),
            ).contains(k) by {
                assert(ext.points.dom().contains(k) <==> (b.points.dom().contains(k) || (step <= k
                    <= step + times)));
                assert(batch_range(step, times).contains(k) <==> (step <= k <= step + times));
            }
            assert(ext.points.dom() =~= d.union(batch_range(step, times)));
            let bs2 = bs.update(c, ext);
            lemma_sched_frame(bs2, step, step_size, tps, times, i + 1, pu as int);
            lemma_sched_frame(bs2, step, step_size, tps, times, i + 1, c);
        }
    }
}

/// Hierarchical ordering, per parent-child pair, from a stage that has
/// not yet reached the parent.
proof fn lemma_sched_pair_before(
    bs: Seq<TrajModel>,
    step: u64,
    step_size: u64,
    tps: Fx,
    times: nat,
    i: nat,
    pu: usize,
    c: int,
)
    requires
        i <= pu as int,
        (pu as int) < c < bs.len(),
        bs[c].center == Some(pu),
        bs[pu as int].points.dom() == bs[c].points.dom(),
        step + times <= u64::MAX,
    ensures
        sched_from(bs, step, step_size, tps, times, i).1 is None ==> sched_from(bs, step,
            step_size, tps, times, i).0[c].points.dom() == sched_from(bs, step, step_size, tps,
            times, i).0[pu as int].points.dom(),
    decreases bs.len() - i,
{
    let next = (step + step_size) as u64;
    if i < pu as int {
        if bs[i as int].points.dom().contains(next) {
            lemma_sched_pair_before(bs, step, step_size, tps, times, i + 1, pu, c);
        } else if !bs[i as int].points.dom().contains(step) {
        } else {
            let bs2 = bs.update(i as int, extend_model(bs, i as int, step, tps, times));
            lemma_sched_pair_before(bs2, step, step_size, tps, times, i + 1, pu, c);
        }
    } else {
        let d = bs[c].points.dom();
        if bs[pu as int].points.dom().contains(next) {
            lemma_sched_pair_from(bs, step, step_size, tps, times, i + 1, pu, c, d);
        } else if !bs[pu as int].points.dom().contains(step) {
        } else {
            let b = bs[pu as int];
            let ext = extend_model(bs, pu as int, step, tps, times);
            lemma_calc_points_dom(b.points, b.points[step], b.relative_mass, parent_points_of(bs,
                pu as int), tps, step, times);
            assert forall|k: u64| #[trigger] ext.points.dom().contains(k) <==> d.union(
                batch_range(step, times),
            ).contains(k) by {
                assert(ext.points.dom().contains(k) <==> (b.points.dom().contains(k) || (step <= k
                    <= step + times)));
                assert(batch_range(step, times).contains(k) <==> (step <= k <= step + times));
            }
            assert(ext.points.dom() =~= d.union(batch_range(step, times)));
            let bs2 = bs.update(pu as int, ext);
            lemma_sched_pair_from(bs2, step, step_size, tps, times, i + 1, pu, c, d);
        }
    }
}

/// Hierarchical ordering, per parent-child pair: take one child whose
/// cache holds exactly the steps its parent's cache does (as uniform
/// seeding produces), whatever the rest of the arena holds. A pass that
/// completes without failing leaves the two cache domains equal — in
/// particular, every step the child's trajectory was extended to is
/// present in the parent's cache. The pass visits the parent first and
/// never touches it again, so the parent's resulting cache is exactly the
/// snapshot the child's extension read: each step the child was extended
/// to was already present in the parent's trajectory at that moment.
pub proof fn lemma_hierarchical_ordering_pair(
    bs: Seq<TrajModel>,
    step: u64,
    step_size: u64,
    tps: Fx,
    times: nat,
    pu: usize,
    c: int,
)
    requires
        (pu as int) < c < bs.len(),
        bs[c].center == Some(pu),
        bs[pu as int].points.dom() == bs[c].points.dom(),
        step + times <= u64::MAX,
    ensures
        sched_from(bs, step, step_size, tps, times, 0).1 is None ==> forall|k: u64|
            #[trigger] sched_from(bs, step, step_size, tps, times, 0).0[c].points.dom().contains(k)
                ==> sched_from(bs, step, step_size, tps, times, 0).0[pu as int].points.dom().contains(
                k,
            ),
{
    lemma_sched_pair_before(bs, step, step_size, tps, times, 0, pu, c);
}

/// A pass over bodies that all share one cache domain missing the
/// lookahead step but holding the current step extends every body, and
/// every resulting cache has the common domain enlarged by the batch
/// range.
proof fn lemma_sched_extend_all(
    bs: Seq<TrajModel>,
    step: u64,
    step_size: u64,
    tps: Fx,
    times: nat,
    i: nat,
    d1: Set<u64>,
    d2: Set<u64>,
)
    requires
        wf_bodies(bs),
        i <= bs.len(),
        step + step_size <= u64::MAX,
        step + times <= u64::MAX,
        !d1.contains(((step + step_size) as u64)),
        d1.contains(step),
        forall|k: u64| #[trigger] d2.contains(k) <==> (d1.contains(k) || (step <= k <= step + times)),
        forall|j: int| i <= j < bs.len() ==> (#[trigger] bs[j]).points.dom() == d1,
        forall|j: int| 0 <= j < i ==> (#[trigger] bs[j]).points.dom() == d2,
    ensures
        sched_from(bs, step, step_size, tps, times, i).1 is None,
        sched_from(bs, step, step_size, tps, times, i).0.len() == bs.len(),
        forall|j: int|
            0 <= j < bs.len() ==> (#[trigger] sched_from(bs, step, step_size, tps, times,
            i).0[j]).points.dom() == d2,
        forall|j: int|
            0 <= j < bs.len() ==> (#[trigger] sched_from(bs, step, step_size, tps, times,
            i).0[j]).center == bs[j].center,
    decreases bs.len() - i,
{
    if i < bs.len() {
        let next = (step + step_size) as u64;
        assert(bs[i as int].points.dom() == d1);
        let b = bs[i as int];
        let ext = extend_model(bs, i as int, step, tps, times);
        lemma_calc_points_dom(b.points, b.points[step], b.relative_mass, parent_points_of(bs,
            i as int), tps, step, times);
        assert forall|k: u64| #[trigger] ext.points.dom().contains(k) <==> d2.contains(k) by {
            assert(ext.points.dom().contains(k) <==> (b.points.dom().contains(k) || (step <= k <= step
                + times)));
        }
        assert(ext.points.dom() =~= d2);
        let bs2 = bs.update(i as int, ext);
        assert forall|ii: int| 0 <= ii < bs2.len() implies (#[trigger] bs2[ii]).wf() && (match bs2[ii].center {
            Some(c) => (c as int) < ii,
            None => true,
        }) by {
            assert(bs[ii].wf());
            if ii == i {
                assert forall|x: u64, y: u64|
                    x <= y && #[trigger] ext.points.dom().contains(y) implies #[trigger] ext.points.dom().contains(
                    x,
                ) by {
                    assert(d2.contains(y));
                    if step <= x <= step + times {
                        assert(d2.contains(x));
                    } else if x < step {
                        assert(d1.contains(step));
                        assert(b.points.dom().contains(step));
                        assert(b.points.dom().contains(x));
                        assert(d2.contains(x));
                    } else {
                        assert(x > step + times);
                        assert(y >= x > step + times);
                        assert(d1.contains(y));
                        assert(b.points.dom().contains(y));
                        assert(b.points.dom().contains(x));
                        assert(d2.contains(x));
                    }
                }
                assert(ext.wf());
            }
        }
        assert(wf_bodies(bs2));
        lemma_sched_extend_all(bs2, step, step_size, tps, times, i + 1, d1, d2);
        assert(sched_from(bs, step, step_size, tps, times, i) == sched_from(bs2, step, step_size,
            tps, times, i + 1));
    }
}

/// Hierarchical ordering: starting from an arena whose bodies all share
/// one cache domain (as uniform seeding produces), a scheduler pass that
/// does not fail leaves every child's cache covered by its parent's: the
/// pass visits parents first, so each step a child was extended to was
/// already present in the parent's cache when the child's batch ran.
pub proof fn lemma_hierarchical_ordering(
    bs: Seq<TrajModel>,
    step: u64,
    step_size: u64,
    tps: Fx,
    times: nat,
)
    requires
        wf_bodies(bs),
        step + step_size <= u64::MAX,
        step + times <= u64::MAX,
        forall|i: int, j: int|
            0 <= i < bs.len() && 0 <= j < bs.len() ==> (#[trigger] bs[i]).points.dom() == (
            #[trigger] bs[j]).points.dom(),
    ensures
        sched_from(bs, step, step_size, tps, times, 0).1 is None ==> forall|i: int, k: u64|
            0 <= i < sched_from(bs, step, step_size, tps, times, 0).0.len()
                && #[trigger] sched_from(bs, step, step_size, tps, times, 0).0[i].points.dom().contains(
                k,
            ) ==> (match sched_from(bs, step, step_size, tps, times, 0).0[i].center {
                Some(c) => sched_from(bs, step, step_size, tps, times, 0).0[c as int].points.dom().contains(
                    k,
                ),
                None => true,
            }),
{
    if bs.len() == 0 {
        assert(sched_from(bs, step, step_size, tps, times, 0) == (bs, None::<int>));
    } else {
        let next = (step + step_size) as u64;
        let d1 = bs[0].points.dom();
        if d1.contains(next) {
            assert forall|j: int| 0 <= j < bs.len() implies (#[trigger] bs[j]).points.dom().contains(
                next,
            ) by {
                assert(bs[j].points.dom() == bs[0].points.dom());
            }
            lemma_sched_noop(bs, step, step_size, tps, times, 0);
            let out = sched_from(bs, step, step_size, tps, times, 0).0;
            assert forall|i: int, k: u64|
                0 <= i < out.len() && #[trigger] out[i].points.dom().contains(k) implies (match out[i].center {
                Some(c) => out[c as int].points.dom().contains(k),
                None => true,
            }) by {
                match out[i].center {
                    Some(c) => {
                        assert(bs[i].points.dom() == bs[c as int].points.dom());
                    },
                    None => {},
                }
            }
        } else if d1.contains(step) {
            let d2 = Set::new(|k: u64| d1.contains(k) || (step <= k <= step + times));
            assert forall|j: int| 0 <= j < bs.len() implies (#[trigger] bs[j]).points.dom() == d1 by {
                assert(bs[j].points.dom() == bs[0].points.dom());
            }
            lemma_sched_extend_all(bs, step, step_size, tps, times, 0, d1, d2);
            let out = sched_from(bs, step, step_size, tps, times, 0).0;
            assert forall|i: int, k: u64|
                0 <= i < out.len() && #[trigger] out[i].points.dom().contains(k) implies (match out[i].center {
                Some(c) => out[c as int].points.dom().contains(k),
                None => true,
            }) by {
                match out[i].center {
                    Some(c) => {
                        assert(out[i].points.dom() == d2);
                        assert(out[c as int].points.dom() == d2);
                    },
                    None => {},
                }
            }
        } else {
            assert(sched_from(bs, step, step_size, tps, times, 0).1 == Some(0int));
        }
    }
}

} // verus!
