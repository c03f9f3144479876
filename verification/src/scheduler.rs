//! The per-tick trajectory scheduler: walk the bodies in
//! parent-before-child (arena index) order and extend every cache that
//! does not yet reach the clock's lookahead step, plus the read-side
//! projections the presentation layer consumes.

use std::collections::HashMap;
use vstd::prelude::*;
use crate::clock::SimulationStep;
use crate::dynamics::DeriveEnv;
use crate::fixed::Fx;
use crate::trajectory::{TrajModel, Trajectory, TrajectoryPoint, calc_points_upto};
use crate::vector::Vector3;

verus! {

/// Distance, in steps, between the sample pairs that the debug projection
/// turns into line segments.
pub const DRAW_STEP: u64 = 120;

/// Fatal scheduler error: the cache lacks a sample at the clock's current
/// step, so physics has desynchronized from playback.
#[derive(Clone, Copy, Debug, PartialEq, Eq, Structural)]
pub enum SimError {
    MissingCurrentPoint,
}

/// The models of an arena of bodies.
pub open spec fn models(bodies: Seq<Trajectory>) -> Seq<TrajModel> {
    Seq::new(bodies.len(), |i: int| bodies[i]@)
}

/// Arena well-formedness: every cache is contiguous from step zero, and
/// every parent reference points to an earlier body, so a walk in index
/// order visits parents before children.
pub open spec fn wf_bodies(bs: Seq<TrajModel>) -> bool {
    forall|i: int|
        0 <= i < bs.len() ==> (#[trigger] bs[i]).wf() && (match bs[i].center {
            Some(c) => (c as int) < i,
            None => true,
        })
}

/// The parent snapshot body `i` is extended against: the parent's cached
/// points, or an empty snapshot for a root body.
pub open spec fn parent_points_of(bs: Seq<TrajModel>, i: int) -> Map<u64, TrajectoryPoint> {
    match bs[i].center {
        Some(c) => bs[c as int].points,
        None => Map::<u64, TrajectoryPoint>::empty(),
    }
}

/// Body `i` after one batch extension seeded from its sample at the
/// clock's current step, against its parent's current snapshot.
pub open spec fn extend_model(bs: Seq<TrajModel>, i: int, step: u64, tps: Fx, times: nat) -> TrajModel {
    let b = bs[i];
    TrajModel {
        points: calc_points_upto(
            b.points,
            b.points[step],
            b.relative_mass,
            parent_points_of(bs, i),
            tps,
            step,
            times,
        ),
        center: b.center,
        relative_mass: b.relative_mass,
    }
}

/// One scheduler pass from body `i` on: a body already covering the
/// lookahead step `step + step_size` is left alone; one lacking it is
/// extended by a batch of `times` steps seeded from its sample at `step`;
/// one lacking even the sample at `step` stops the pass with the index of
/// the desynchronized body.
pub open spec fn sched_from(
    bs: Seq<TrajModel>,
    step: u64,
    step_size: u64,
    tps: Fx,
    times: nat,
    i: nat,
) -> (Seq<TrajModel>, Option<int>)
    decreases bs.len() - i,
{
    if i >= bs.len() {
        (bs, None)
    } else {
        let next = (step + step_size) as u64;
        if bs[i as int].points.dom().contains(next) {
            sched_from(bs, step, step_size, tps, times, i + 1)
        } else if !bs[i as int].points.dom().contains(step) {
            (bs, Some(i as int))
        } else {
            sched_from(
                bs.update(i as int, extend_model(bs, i as int, step, tps, times)),
                step,
                step_size,
                tps,
                times,
                i + 1,
            )
        }
    }
}

/// Run one scheduler pass over the whole arena: for each body whose cache
/// lacks the lookahead step `sim.step + sim.step_size`, extend it by a
/// batch of `times` steps seeded from its sample at `sim.step`, against a
/// snapshot of its parent's cache taken after the parent's own extension
/// this tick. Fails with `MissingCurrentPoint`, stopping at the offending
/// body, exactly when a body lacks both the lookahead step and the
/// current step.
#[verifier::rlimit(60)]
pub fn trajectory_system(bodies: &mut Vec<Trajectory>, sim: &SimulationStep, times: usize) -> (r:
    Result<(), SimError>)
    requires
        wf_bodies(models(old(bodies)@)),
        sim.step + sim.step_size <= u64::MAX,
        sim.step + times <= u64::MAX,
        times < usize::MAX,
    ensures
        models(final(bodies)@) == sched_from(models(old(bodies)@), sim.step, sim.step_size,
            sim.time_per_step, times as nat, 0).0,
        (r is Err) <==> (sched_from(models(old(bodies)@), sim.step, sim.step_size,
        sim.time_per_step, times as nat, 0).1 is Some),
        r is Err ==> r == Err::<(), SimError>(SimError::MissingCurrentPoint),
        wf_bodies(models(final(bodies)@)),
        final(bodies)@.len() == old(bodies)@.len(),
{
    let ghost orig = models(old(bodies)@);
    let ghost gstep = sim.step;
    let ghost gss = sim.step_size;
    let ghost gtps = sim.time_per_step;
    let next = sim.step + sim.step_size;
    let mut i: usize = 0;
    while i < bodies.len()
        invariant
            i <= bodies@.len(),
            bodies@.len() == orig.len(),
            orig == models(old(bodies)@),
            gstep == sim.step,
            gss == sim.step_size,
            gtps == sim.time_per_step,
            sim.step + sim.step_size <= u64::MAX,
            sim.step + times <= u64::MAX,
            times < usize::MAX,
            next == sim.step + sim.step_size,
            wf_bodies(models(bodies@)),
            sched_from(orig, gstep, gss, gtps, times as nat, 0) == sched_from(models(bodies@),
                gstep, gss, gtps, times as nat, i as nat),
        decreases bodies@.len() - i,
    {
        let ghost pre = models(bodies@);
        let has_next = {
            let b = &bodies[i];
            b.lookup(next).is_some()
        };
        if !has_next {
            let cur_opt = {
                let b = &bodies[i];
                b.lookup(sim.step)
            };
            match cur_opt {
                None => {
                    proof {
                        assert(sched_from(pre, gstep, gss, gtps, times as nat, i as nat) == (pre,
                            Some(i as int)));
                    }
                    return Err(SimError::MissingCurrentPoint);
                },
                Some(cur) => {
                    let parent_map: HashMap<u64, TrajectoryPoint> = match bodies[i].center {
                        Some(c) => {
                            proof {
                                assert(pre[i as int].wf());
                            }
                            let pb = &bodies[c];
                            pb.points.clone()
                        },
                        None => HashMap::new(),
                    };
                    let env = DeriveEnv {
                        relative_mass: bodies[i].relative_mass,
                        points: parent_map,
                        current_step: sim.step,
                        time_per_step: sim.time_per_step,
                    };
                    let ghost genv = env;
                    let mut b = bodies.remove(i);
                    proof {
                        assert(b@ == pre[i as int]);
                        assert(b.wf());
                        if sim.step > 0 {
                            assert(b@.points.dom().contains(gstep));
                            assert(b@.points.dom().contains((gstep - 1) as u64));
                        }
                    }
                    b.calculate(&cur, Some(env), times);
                    bodies.insert(i, b);
                    proof {
                        let ext = extend_model(pre, i as int, gstep, gtps, times as nat);
                        assert(genv.points@ == parent_points_of(pre, i as int));
                        assert(cur == pre[i as int].points[gstep]);
                        assert(b@.points == ext.points);
                        assert(b@ == ext);
                        assert(models(bodies@) =~= pre.update(i as int, ext));
                        assert(sched_from(pre, gstep, gss, gtps, times as nat, i as nat)
                            == sched_from(pre.update(i as int, ext), gstep, gss, gtps, times as nat,
                            (i + 1) as nat));
                    }
                },
            }
        } else {
            proof {
                assert(sched_from(pre, gstep, gss, gtps, times as nat, i as nat) == sched_from(pre,
                    gstep, gss, gtps, times as nat, (i + 1) as nat));
            }
        }
        i = i + 1;
    }
    Ok(())
}

/// Project each body's position at an absolute step for rendering: the
/// cached sample's position, or `None` while that step is not yet
/// computed. Velocity is not consumed downstream.
pub fn transform_system(bodies: &Vec<Trajectory>, step: u64) -> (r: Vec<Option<Vector3>>)
    ensures
        r@.len() == bodies@.len(),
        forall|i: int|
            0 <= i < bodies@.len() ==> #[trigger] r@[i] == (if bodies@[i]@.points.dom().contains(
                step,
            ) {
                Some(bodies@[i]@.points[step].position)
            } else {
                None::<Vector3>
            }),
{
    let mut r: Vec<Option<Vector3>> = Vec::new();
    let mut i: usize = 0;
    while i < bodies.len()
        invariant
            i <= bodies@.len(),
            r@.len() == i,
            forall|j: int|
                0 <= j < i ==> #[trigger] r@[j] == (if bodies@[j]@.points.dom().contains(step) {
                    Some(bodies@[j]@.points[step].position)
                } else {
                    None::<Vector3>
                }),
        decreases bodies@.len() - i,
    {
        let b = &bodies[i];
        match b.lookup(step) {
            Some(p) => r.push(Some(p.position)),
            None => r.push(None),
        }
        i = i + 1;
    }
    r
}

/// The chord segments of a cache, between samples `DRAW_STEP` apart,
/// starting at step zero and stopping at the first missing endpoint or at
/// the cache's size.
pub open spec fn segs_from(pts: Map<u64, TrajectoryPoint>, n: int, p: int) -> Seq<(
    Vector3,
    Vector3,
)>
    decreases n - p,
{
    if p >= n {
        Seq::empty()
    } else if !pts.dom().contains((p + DRAW_STEP) as u64) {
        Seq::empty()
    } else {
        seq![(pts[p as u64].position, pts[(p + DRAW_STEP) as u64].position)] + segs_from(
            pts,
            n,
            if p + DRAW_STEP < n {
                p + DRAW_STEP
            } else {
                n
            },
        )
    }
}

/// The chord segments of one body's cache.
fn body_segments(b: &Trajectory) -> (segs: Vec<(Vector3, Vector3)>)
    requires
        b.wf(),
        b@.points.len() + DRAW_STEP <= u64::MAX,
    ensures
        segs@ == segs_from(b@.points, b@.points.len() as int, 0),
{
    let ghost pts = b@.points;
    let n: u64 = b.points.len() as u64;
    let ghost gn = b@.points.len() as int;
    proof {
        assert(n == gn);
    }
    let mut segs: Vec<(Vector3, Vector3)> = Vec::new();
    let mut p: u64 = 0;
    while p < n
        invariant
            b.wf(),
            pts == b@.points,
            n == gn,
            gn == b@.points.len() as int,
            gn + DRAW_STEP <= u64::MAX,
            segs_from(pts, gn, 0) == segs@ + segs_from(pts, gn, p as int),
        ensures
            segs_from(pts, gn, 0) == segs@ + segs_from(pts, gn, p as int),
            p >= n || !pts.dom().contains((p + DRAW_STEP) as u64),
        decreases gn - p,
    {
        let q = p + DRAW_STEP;
        if !b.points.contains_key(&q) {
            break;
        }
        proof {
            assert(pts.dom().contains(q));
            assert(pts.dom().contains(p));
        }
        let a = b.lookup(p).unwrap();
        let e = b.lookup(q).unwrap();
        segs.push((a.position, e.position));
        proof {
            let pn = (if p + DRAW_STEP < gn {
                p as int + DRAW_STEP
            } else {
                gn
            });
            assert(segs_from(pts, gn, p as int) == seq![(pts[p].position, pts[q].position)]
                + segs_from(pts, gn, pn));
            assert(segs_from(pts, gn, q as int) == segs_from(pts, gn, pn));
        }
        p = if q < n {
            q
        } else {
            n
        };
        proof {
            assert(segs_from(pts, gn, 0) =~= segs@ + segs_from(pts, gn, p as int));
        }
    }
    proof {
        assert(segs_from(pts, gn, p as int) =~= Seq::<(Vector3, Vector3)>::empty());
        assert(segs_from(pts, gn, 0) =~= segs@);
    }
    segs
}

/// Compute, for every body, the chord segments that the debug renderer
/// draws between cached samples `DRAW_STEP` apart.
pub fn debug_system(bodies: &Vec<Trajectory>) -> (r: Vec<Vec<(Vector3, Vector3)>>)
    requires
        forall|i: int| 0 <= i < bodies@.len() ==> (#[trigger] bodies@[i]).wf(),
        forall|i: int|
            0 <= i < bodies@.len() ==> (#[trigger] bodies@[i])@.points.len() + DRAW_STEP
                <= u64::MAX,
    ensures
        r@.len() == bodies@.len(),
        forall|i: int|
            0 <= i < bodies@.len() ==> #[trigger] r@[i]@ == segs_from(bodies@[i]@.points,
                bodies@[i]@.points.len() as int, 0),
{
    let mut r: Vec<Vec<(Vector3, Vector3)>> = Vec::new();
    let mut i: usize = 0;
    while i < bodies.len()
        invariant
            i <= bodies@.len(),
            r@.len() == i,
            forall|j: int| 0 <= j < bodies@.len() ==> (#[trigger] bodies@[j]).wf(),
            forall|j: int|
                0 <= j < bodies@.len() ==> (#[trigger] bodies@[j])@.points.len() + DRAW_STEP
                    <= u64::MAX,
            forall|j: int|
                0 <= j < i ==> #[trigger] r@[j]@ == segs_from(bodies@[j]@.points,
                    bodies@[j]@.points.len() as int, 0),
        decreases bodies@.len() - i,
    {
        let b = &bodies[i];
        r.push(body_segments(b));
        i = i + 1;
    }
    r
}

} // verus!
