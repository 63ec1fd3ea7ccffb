//! The pod: a mutable kinematic body with position, velocity, heading and
//! the index of the next checkpoint to reach.
//!
//! One call of [`Pod::apply_move`] advances exactly one simulated turn, in
//! five exactly-specified sub-steps: rotate (clamped to 18 degrees), apply
//! thrust, swept checkpoint-crossing test, integrate position, and
//! end-of-turn normalization (truncation toward zero, friction factor
//! `17/20`, whole-degree heading).  Between turns the whole state is plain
//! integers, so every run is exactly reproducible.
//!
//! Within a turn the velocity is fractional; it is carried exactly as a
//! fixed-point number scaled by [`SCALE`].

use crate::action::Action;
use crate::checkpoint::CheckPoint;
use crate::num::div_trunc;
use crate::num::isqrt;
use crate::num::lemma_sqrt_floor_bounds;
use crate::num::lemma_tdiv_bound;
use crate::num::sqrt_floor;
use crate::num::tdiv;
use crate::point::Point;
use crate::trig::cos_deg;
use crate::trig::cos_deg_val;
use crate::trig::lemma_cos_deg_range;
use crate::trig::lemma_sin_deg_range;
use crate::trig::nearest_degree;
use crate::trig::nearest_degree_exec;
use crate::trig::sin_deg;
use crate::trig::sin_deg_val;
use crate::trig::SCALE;
use vstd::prelude::*;

verus! {

/// Position bound inside which a turn's arithmetic cannot overflow.
pub const POS_LIMIT: i64 = 10_000_000;

/// Velocity bound; it is preserved by the turn transition.
pub const VEL_LIMIT: i64 = 2_000;

/// The largest possible one-turn position change: velocity plus thrust.
pub const MOVE_LIMIT: i64 = 2_255;

/// The racing pod.
#[derive(Debug, Clone, Copy, PartialEq, Eq, Structural)]
pub struct Pod {
    pub x: i64,
    pub y: i64,
    pub vx: i64,
    pub vy: i64,
    pub angle: u16,
    pub next_checkpoint_id: usize,
    pub r: i32,
}

/// A steering delta clamped to the 18 degrees a pod can turn in one turn.
pub open spec fn clamp18(a: int) -> int {
    if a < -18 {
        -18
    } else if a > 18 {
        18
    } else {
        a
    }
}

/// One wrap of a heading back into `[0, 360)`; the clamped delta is always
/// small enough that a single wrap suffices.
pub open spec fn wrap360(h: int) -> int {
    if h >= 360 {
        h - 360
    } else if h < 0 {
        h + 360
    } else {
        h
    }
}

/// The heading after one turn: the old heading plus the clamped steering
/// delta, wrapped into `[0, 360)`.
pub open spec fn heading_after(h: int, a: int) -> int {
    wrap360(h + clamp18(a))
}

/// The scaled x velocity within the turn: the old velocity plus the cosine
/// of the new heading times the thrust, all times [`SCALE`].
pub open spec fn vel_x_scaled(p: Pod, act: Action) -> int {
    p.vx * SCALE + cos_deg_val(heading_after(p.angle as int, act.angle as int)) * act.thrust
}

/// The scaled y velocity within the turn.
pub open spec fn vel_y_scaled(p: Pod, act: Action) -> int {
    p.vy * SCALE + sin_deg_val(heading_after(p.angle as int, act.angle as int)) * act.thrust
}

/// Whether this turn's displacement sweeps the pod across its target
/// checkpoint `cp`.  With `w` the vector from the pod to the centre and `v`
/// this turn's (scaled) velocity, the conjuncts say, in order: the pod
/// moves at all; the swept line comes within the radius of the centre
/// (`|w|^2 |v|^2 - (w.v)^2 <= r^2 |v|^2`); the closest approach lies ahead
/// of the direction of travel (`w.v >= 0`); the pod does not already start
/// inside the circle (`|w|^2 >= r^2`, which is exactly where the impact
/// time would be negative); and the impact does not lie beyond this turn's
/// displacement (`w.v > |v|^2` scaled, with the end position still outside
/// the circle).
pub open spec fn crosses(p: Pod, act: Action, cp: CheckPoint) -> bool {
    let vnx = vel_x_scaled(p, act);
    let vny = vel_y_scaled(p, act);
    let wx = cp.x - p.x;
    let wy = cp.y - p.y;
    let p1 = wx * vnx + wy * vny;
    let w2 = wx * wx + wy * wy;
    let v2 = vnx * vnx + vny * vny;
    &&& (vnx != 0 || vny != 0)
    &&& w2 * v2 - p1 * p1 <= cp.r2 * v2
    &&& p1 >= 0
    &&& w2 >= cp.r2
    &&& !(p1 * SCALE > v2 && w2 * SCALE * SCALE - 2 * p1 * SCALE + v2 > cp.r2 * SCALE * SCALE)
}

/// The crossing fraction of the turn at which the swept path first enters
/// the checkpoint's radius, in thousandths, rounded down and capped at
/// 1000.  Meaningful only when [`crosses`] holds.
pub open spec fn cross_time_millis(p: Pod, act: Action, cp: CheckPoint) -> int {
    let vnx = vel_x_scaled(p, act);
    let vny = vel_y_scaled(p, act);
    let wx = cp.x - p.x;
    let wy = cp.y - p.y;
    let p1 = wx * vnx + wy * vny;
    let w2 = wx * wx + wy * wy;
    let v2 = vnx * vnx + vny * vny;
    let n = (cp.r2 - w2) * v2 + p1 * p1;
    let t = ((p1 - sqrt_floor(n as nat)) * 1000 * SCALE) / v2;
    if t > 1000 {
        1000
    } else {
        t
    }
}

/// The index of the pod's target checkpoint after the turn: advanced by
/// one on a crossing, wrapping to 0 past the end of the list.
pub open spec fn next_id_after(p: Pod, act: Action, cps: Seq<CheckPoint>) -> int {
    if crosses(p, act, cps[p.next_checkpoint_id as int]) {
        if p.next_checkpoint_id + 1 >= cps.len() {
            0
        } else {
            p.next_checkpoint_id + 1
        }
    } else {
        p.next_checkpoint_id as int
    }
}

/// The x position after the turn: the old position plus the scaled
/// velocity, truncated toward zero to a whole unit.
pub open spec fn pos_x_after(p: Pod, act: Action) -> int {
    tdiv(p.x * SCALE + vel_x_scaled(p, act), SCALE as int)
}

/// The y position after the turn.
pub open spec fn pos_y_after(p: Pod, act: Action) -> int {
    tdiv(p.y * SCALE + vel_y_scaled(p, act), SCALE as int)
}

/// The x velocity after the turn: friction multiplies the within-turn
/// velocity by `0.85 == 17/20`, truncated toward zero to a whole unit.
pub open spec fn vel_x_after(p: Pod, act: Action) -> int {
    tdiv(vel_x_scaled(p, act) * 17, 20 * SCALE)
}

/// The y velocity after the turn.
pub open spec fn vel_y_after(p: Pod, act: Action) -> int {
    tdiv(vel_y_scaled(p, act) * 17, 20 * SCALE)
}

/// The whole pod state after one turn of `act` against the checkpoint
/// list `cps`.
pub open spec fn pod_after(p: Pod, act: Action, cps: Seq<CheckPoint>) -> Pod {
    Pod {
        x: pos_x_after(p, act) as i64,
        y: pos_y_after(p, act) as i64,
        vx: vel_x_after(p, act) as i64,
        vy: vel_y_after(p, act) as i64,
        angle: heading_after(p.angle as int, act.angle as int) as u16,
        next_checkpoint_id: next_id_after(p, act, cps) as usize,
        r: p.r,
    }
}

/// Every checkpoint of a course is well formed.
pub open spec fn cps_wf(cps: Seq<CheckPoint>) -> bool {
    forall|i: int| 0 <= i < cps.len() ==> (#[trigger] cps[i]).wf()
}

/// The pod state after applying a whole sequence of actions in order.
pub open spec fn pod_run(p: Pod, actions: Seq<Action>, cps: Seq<CheckPoint>) -> Pod
    decreases actions.len(),
{
    if actions.len() == 0 {
        p
    } else {
        pod_after(pod_run(p, actions.drop_last(), cps), actions.last(), cps)
    }
}

/// How many of the applied actions crossed a checkpoint.
pub open spec fn pod_run_crossings(p: Pod, actions: Seq<Action>, cps: Seq<CheckPoint>) -> int
    decreases actions.len(),
{
    if actions.len() == 0 {
        0
    } else {
        let before = pod_run(p, actions.drop_last(), cps);
        pod_run_crossings(p, actions.drop_last(), cps) + (if crosses(
            before,
            actions.last(),
            cps[before.next_checkpoint_id as int],
        ) {
            1int
        } else {
            0int
        })
    }
}

/// The angle, in whole degrees in `[0, 360)`, of the ray from the pod to
/// `p`, measured so that 0 lies along the positive x axis and angles grow
/// going below the x axis in screen coordinates (a negative y offset maps
/// to `360` minus the rounded arc cosine).
pub open spec fn angle_to(pod: Pod, p: Point) -> int {
    let dx = p.x - pod.x;
    let dy = p.y - pod.y;
    let m = nearest_degree(dx, dy);
    if dy < 0 {
        if m == 0 {
            0
        } else {
            360 - m
        }
    } else {
        m
    }
}

/// The smallest-magnitude signed turn from the pod's heading to the
/// direction of `p`: positive to turn right, negative to turn left; the
/// 180-degree tie is broken toward turning left.
pub open spec fn turn_delta(pod: Pod, p: Point) -> int {
    let a = angle_to(pod, p);
    let right = if pod.angle <= a {
        a - pod.angle
    } else {
        360 - pod.angle + a
    };
    let left = if pod.angle >= a {
        pod.angle - a
    } else {
        pod.angle + 360 - a
    };
    if right < left {
        right
    } else {
        -left
    }
}

impl Pod {
    /// The pod invariant: heading is a whole degree in `[0, 360)` and the
    /// velocity is within [`VEL_LIMIT`].  It is established by [`Pod::new`]
    /// and preserved by [`Pod::apply_move`].
    pub open spec fn wf(self) -> bool {
        &&& self.angle < 360
        &&& -VEL_LIMIT <= self.vx <= VEL_LIMIT
        &&& -VEL_LIMIT <= self.vy <= VEL_LIMIT
    }

    /// Position within the bound that keeps a turn's arithmetic exact.
    pub open spec fn pos_in_range(self) -> bool {
        &&& -POS_LIMIT <= self.x <= POS_LIMIT
        &&& -POS_LIMIT <= self.y <= POS_LIMIT
    }

    /// The pod's position as a point.
    pub open spec fn pos(self) -> Point {
        Point { x: self.x, y: self.y }
    }

    /// Builds a pod with the fixed collision radius 100.
    pub fn new(x: i64, y: i64, vx: i64, vy: i64, angle: u16, next_checkpoint_id: usize) -> (p: Pod)
        requires
            -VEL_LIMIT <= vx <= VEL_LIMIT,
            -VEL_LIMIT <= vy <= VEL_LIMIT,
            angle < 360,
        ensures
            p == (Pod { x, y, vx, vy, angle, next_checkpoint_id, r: 100 }),
            p.wf(),
    {
        Pod { x, y, vx, vy, angle, next_checkpoint_id, r: 100 }
    }

    /// An independent copy of the whole state.
    pub fn clone_pod(&self) -> (p: Pod)
        ensures
            p == *self,
    {
        Pod {
            x: self.x,
            y: self.y,
            vx: self.vx,
            vy: self.vy,
            angle: self.angle,
            next_checkpoint_id: self.next_checkpoint_id,
            r: self.r,
        }
    }

    /// The magnitude of the velocity, rounded down to a whole unit.
    pub fn speed(&self) -> (s: u64)
        requires
            self.wf(),
        ensures
            s == sqrt_floor((self.vx * self.vx + self.vy * self.vy) as nat),
    {
        proof {
            assert(0 <= self.vx as int * self.vx <= 4_000_000 && 0 <= self.vy as int * self.vy
                <= 4_000_000) by (nonlinear_arith)
                requires
                    -VEL_LIMIT <= self.vx <= VEL_LIMIT,
                    -VEL_LIMIT <= self.vy <= VEL_LIMIT,
            ;
        }
        let sq = (self.vx as i128) * (self.vx as i128) + (self.vy as i128) * (self.vy as i128);
        let r = isqrt(sq as u128);
        proof {
            assert((sq as u128) as nat == (self.vx * self.vx + self.vy * self.vy) as nat);
            lemma_sqrt_floor_bounds(sq as nat);
            assert(r <= 8_000_000) by (nonlinear_arith)
                requires
                    r >= 0,
                    r * r <= 8_000_000,
            ;
        }
        r as u64
    }

    /// Applies one action and advances exactly one simulated turn.  Returns
    /// the crossing fraction of the turn, in thousandths, if the pod swept
    /// across its target checkpoint, and `None` otherwise.
    pub fn apply_move(&mut self, action: &Action, checkpoints: &[CheckPoint]) -> (t: Option<u16>)
        requires
            old(self).wf(),
            old(self).pos_in_range(),
            old(self).next_checkpoint_id < checkpoints@.len(),
            cps_wf(checkpoints@),
        ensures
            *final(self) == pod_after(*old(self), *action, checkpoints@),
            final(self).wf(),
            final(self).next_checkpoint_id < checkpoints@.len(),
            old(self).x - MOVE_LIMIT <= final(self).x <= old(self).x + MOVE_LIMIT,
            old(self).y - MOVE_LIMIT <= final(self).y <= old(self).y + MOVE_LIMIT,
            t is Some <==> crosses(*old(self), *action, checkpoints@[old(
                self,
            ).next_checkpoint_id as int]),
            t is Some ==> t->0 == cross_time_millis(
                *old(self),
                *action,
                checkpoints@[old(self).next_checkpoint_id as int],
            ) && t->0 <= 1000,
    {
        let ghost p0 = *self;
        let ghost cp0 = checkpoints@[old(self).next_checkpoint_id as int];
        // Rotate: clamp the steering delta, add, wrap once into [0, 360).
        let mut delta: i32 = action.angle as i32;
        if delta < -18 {
            delta = -18;
        }
        if delta > 18 {
            delta = 18;
        }
        let mut h: i32 = self.angle as i32 + delta;
        if h >= 360 {
            h = h - 360;
        } else if h < 0 {
            h = h + 360;
        }
        self.angle = h as u16;
        proof {
            assert(self.angle as int == heading_after(p0.angle as int, action.angle as int));
        }
        // Apply thrust: the within-turn velocity, scaled by SCALE, exactly.
        let c = cos_deg(self.angle);
        let s = sin_deg(self.angle);
        proof {
            lemma_cos_deg_range(self.angle as int);
            lemma_sin_deg_range(self.angle as int);
            assert(-25_500_000_000i128 <= c as int * action.thrust <= 25_500_000_000i128
                && -25_500_000_000i128 <= s as int * action.thrust <= 25_500_000_000i128)
                by (nonlinear_arith)
                requires
                    -SCALE <= c <= SCALE,
                    -SCALE <= s <= SCALE,
                    0 <= action.thrust <= 255,
            ;
            assert(-200_000_000_000i128 <= self.vx as int * SCALE <= 200_000_000_000i128
                && -200_000_000_000i128 <= self.vy as int * SCALE <= 200_000_000_000i128)
                by (nonlinear_arith)
                requires
                    -VEL_LIMIT <= self.vx <= VEL_LIMIT,
                    -VEL_LIMIT <= self.vy <= VEL_LIMIT,
            ;
        }
        let vnx: i128 = (self.vx as i128) * (SCALE as i128) + (c as i128) * (action.thrust as i128);
        let vny: i128 = (self.vy as i128) * (SCALE as i128) + (s as i128) * (action.thrust as i128);
        proof {
            assert(vnx == vel_x_scaled(p0, *action));
            assert(vny == vel_y_scaled(p0, *action));
            assert(-225_500_000_000i128 <= vnx <= 225_500_000_000i128);
            assert(-225_500_000_000i128 <= vny <= 225_500_000_000i128);
        }
        // Swept checkpoint-crossing test, before the position update, with
        // the pre-move position and the post-thrust velocity.
        let cp: &CheckPoint = &checkpoints[self.next_checkpoint_id];
        let wx: i128 = (cp.x as i128) - (self.x as i128);
        let wy: i128 = (cp.y as i128) - (self.y as i128);
        proof {
            lemma_cross_products(wx as int, wy as int, vnx as int, vny as int);
        }
        let p1: i128 = wx * vnx + wy * vny;
        let w2: i128 = wx * wx + wy * wy;
        let v2: i128 = vnx * vnx + vny * vny;
        let moving = vnx != 0 || vny != 0;
        let mut ret: Option<u16> = None;
        if moving && w2 * v2 - p1 * p1 <= (cp.r2 as i128) * v2 && p1 >= 0 && w2 >= cp.r2 as i128 {
            let beyond = p1 * (SCALE as i128) > v2 && w2 * (SCALE as i128) * (SCALE as i128) - 2
                * p1 * (SCALE as i128) + v2 > (cp.r2 as i128) * (SCALE as i128) * (SCALE as i128);
            if !beyond {
                proof {
                    assert(crosses(p0, *action, cp0));
                    assert(v2 > 0) by (nonlinear_arith)
                        requires
                            v2 == vnx * vnx + vny * vny,
                            vnx != 0 || vny != 0,
                    ;
                    // The radicand is the squared scaled distance still to
                    // cover: nonnegative because the swept line meets the
                    // circle, at most p1^2 because the start is outside.
                    assert((cp0.r2 - w2) * v2 + p1 * p1 >= 0 && (cp0.r2 - w2) * v2 <= 0)
                        by (nonlinear_arith)
                        requires
                            w2 * v2 - p1 * p1 <= cp0.r2 * v2,
                            w2 >= cp0.r2,
                            v2 > 0,
                    ;
                }
                let n: i128 = ((cp.r2 as i128) - w2) * v2 + p1 * p1;
                let sq = isqrt(n as u128);
                proof {
                    lemma_sqrt_floor_bounds(n as nat);
                    assert(sq * sq <= p1 * p1 ==> sq <= p1) by (nonlinear_arith)
                        requires
                            sq >= 0,
                            p1 >= 0,
                    ;
                }
                let num: u128 = ((p1 - sq as i128) as u128) * 1000 * (SCALE as u128);
                let tq: u128 = num / (v2 as u128);
                let tm: u16 = if tq > 1000 {
                    1000u16
                } else {
                    tq as u16
                };
                proof {
                    lemma_div_matches_tdiv((p1 - sq as i128) as int * 1000 * SCALE, v2 as int);
                    assert(tm == cross_time_millis(p0, *action, cp0));
                }
                ret = Some(tm);
                // Advance the target, wrapping past the end of the list.
                if self.next_checkpoint_id + 1 >= checkpoints.len() {
                    self.next_checkpoint_id = 0;
                } else {
                    self.next_checkpoint_id = self.next_checkpoint_id + 1;
                }
            } else {
                proof {
                    assert(!crosses(p0, *action, cp0));
                }
            }
        } else {
            proof {
                assert(!crosses(p0, *action, cp0));
            }
        }
        // Integrate the position, then normalize: positions truncate to
        // whole units, friction scales the velocity by 17/20 and truncates.
        proof {
            assert(-1_000_226_000_000_000_000i128 <= self.x as int * SCALE + vnx
                <= 1_000_226_000_000_000_000i128 && -1_000_226_000_000_000_000i128 <= self.y as int
                * SCALE + vny <= 1_000_226_000_000_000_000i128) by (nonlinear_arith)
                requires
                    -POS_LIMIT <= self.x <= POS_LIMIT,
                    -POS_LIMIT <= self.y <= POS_LIMIT,
                    -225_500_000_000i128 <= vnx <= 225_500_000_000i128,
                    -225_500_000_000i128 <= vny <= 225_500_000_000i128,
            ;
            lemma_tdiv_bound(p0.x as int * SCALE + vnx, SCALE as int, POS_LIMIT + MOVE_LIMIT);
            lemma_tdiv_bound(p0.y as int * SCALE + vny, SCALE as int, POS_LIMIT + MOVE_LIMIT);
            lemma_move_stays_close(p0.x as int, vnx as int);
            lemma_move_stays_close(p0.y as int, vny as int);
        }
        let nx = div_trunc((self.x as i128) * (SCALE as i128) + vnx, SCALE as u128);
        let ny = div_trunc((self.y as i128) * (SCALE as i128) + vny, SCALE as u128);
        self.x = nx as i64;
        self.y = ny as i64;
        proof {
            lemma_tdiv_bound(vnx as int * 17, 20 * SCALE, 1917);
            lemma_tdiv_bound(vny as int * 17, 20 * SCALE, 1917);
            assert(-(1917 * (20 * SCALE)) <= vnx as int * 17 <= 1917 * (20 * SCALE) && -(1917 * (20
                * SCALE)) <= vny as int * 17 <= 1917 * (20 * SCALE)) by (nonlinear_arith)
                requires
                    -225_500_000_000i128 <= vnx <= 225_500_000_000i128,
                    -225_500_000_000i128 <= vny <= 225_500_000_000i128,
            ;
        }
        let nvx = div_trunc(vnx * 17, 20 * (SCALE as u128));
        let nvy = div_trunc(vny * 17, 20 * (SCALE as u128));
        self.vx = nvx as i64;
        self.vy = nvy as i64;
        ret
    }
}

/// Bounds for every product of the swept collision test, so that the
/// computation stays inside `i128`.  `w` is the vector from the pod to the
/// checkpoint centre; `vn` is the scaled within-turn velocity.
proof fn lemma_cross_products(wx: int, wy: int, vnx: int, vny: int)
    requires
        -12_000_000 <= wx <= 12_000_000,
        -12_000_000 <= wy <= 12_000_000,
        -225_500_000_000 <= vnx <= 225_500_000_000,
        -225_500_000_000 <= vny <= 225_500_000_000,
    ensures
        -0x8000_0000_0000_0000_0000_0000_0000_0000int + 1 <= wx * vnx + wy * vny
            <= 6_000_000_000_000_000_000int,
        -3_000_000_000_000_000_000int <= wx * vnx <= 3_000_000_000_000_000_000int,
        -3_000_000_000_000_000_000int <= wy * vny <= 3_000_000_000_000_000_000int,
        0 <= wx * wx <= 144_000_000_000_000int,
        0 <= wy * wy <= 144_000_000_000_000int,
        0 <= vnx * vnx <= 51_000_000_000_000_000_000_000int,
        0 <= vny * vny <= 51_000_000_000_000_000_000_000int,
        (wx * wx + wy * wy) * (vnx * vnx + vny * vny) <= 0x2000_0000_0000_0000_0000_0000_0000_0000int,
        0 <= (wx * wx + wy * wy) * (vnx * vnx + vny * vny),
        (wx * vnx + wy * vny) * (wx * vnx + wy * vny) <= 0x2000_0000_0000_0000_0000_0000_0000_0000int,
        0 <= (wx * vnx + wy * vny) * (wx * vnx + wy * vny),
        0 <= 360_000 * (vnx * vnx + vny * vny) <= 0x2000_0000_0000_0000_0000_0000_0000_0000int,
        -0x2000_0000_0000_0000_0000_0000_0000_0000int <= (wx * vnx + wy * vny) * SCALE
            <= 0x2000_0000_0000_0000_0000_0000_0000_0000int,
        0 <= (wx * wx + wy * wy) * SCALE * SCALE <= 0x2000_0000_0000_0000_0000_0000_0000_0000int,
        0 <= 360_000 * SCALE * SCALE <= 0x2000_0000_0000_0000_0000_0000_0000_0000int,
        -0x2000_0000_0000_0000_0000_0000_0000_0000int <= (360_000 - (wx * wx + wy * wy)) * (vnx
            * vnx + vny * vny) <= 0x2000_0000_0000_0000_0000_0000_0000_0000int,
{
    assert(-3_000_000_000_000_000_000int <= wx * vnx <= 3_000_000_000_000_000_000int
        && -3_000_000_000_000_000_000int <= wy * vny <= 3_000_000_000_000_000_000int && 0 <= wx
        * wx <= 144_000_000_000_000int && 0 <= wy * wy <= 144_000_000_000_000int && 0 <= vnx * vnx
        <= 51_000_000_000_000_000_000_000int && 0 <= vny * vny
        <= 51_000_000_000_000_000_000_000int) by (nonlinear_arith)
        requires
            -12_000_000 <= wx <= 12_000_000,
            -12_000_000 <= wy <= 12_000_000,
            -225_500_000_000 <= vnx <= 225_500_000_000,
            -225_500_000_000 <= vny <= 225_500_000_000,
    ;
    let p1 = wx * vnx + wy * vny;
    let w2 = wx * wx + wy * wy;
    let v2 = vnx * vnx + vny * vny;
    assert(0 <= w2 * v2 <= 0x2000_0000_0000_0000_0000_0000_0000_0000int && 0 <= p1 * p1
        <= 0x2000_0000_0000_0000_0000_0000_0000_0000int && 0 <= 360_000 * v2
        <= 0x2000_0000_0000_0000_0000_0000_0000_0000int && -0x2000_0000_0000_0000_0000_0000_0000_0000int
        <= p1 * SCALE <= 0x2000_0000_0000_0000_0000_0000_0000_0000int && 0 <= w2 * SCALE * SCALE
        <= 0x2000_0000_0000_0000_0000_0000_0000_0000int && -0x2000_0000_0000_0000_0000_0000_0000_0000int
        <= (360_000 - w2) * v2 <= 0x2000_0000_0000_0000_0000_0000_0000_0000int)
        by (nonlinear_arith)
        requires
            -6_000_000_000_000_000_000int <= p1 <= 6_000_000_000_000_000_000int,
            0 <= w2 <= 288_000_000_000_000int,
            0 <= v2 <= 102_000_000_000_000_000_000_000int,
            SCALE == 100_000_000,
    ;
}

/// Truncating the integrated position moves it by at most [`MOVE_LIMIT`]
/// whole units from where it was.
proof fn lemma_move_stays_close(x: int, vn: int)
    requires
        -POS_LIMIT <= x <= POS_LIMIT,
        -225_500_000_000 <= vn <= 225_500_000_000,
    ensures
        x - MOVE_LIMIT <= tdiv(x * SCALE + vn, SCALE as int) <= x + MOVE_LIMIT,
{
    let n = x * SCALE + vn;
    let q = tdiv(n, SCALE as int);
    if n >= 0 {
        vstd::arithmetic::div_mod::lemma_fundamental_div_mod(n, SCALE as int);
        assert(x - MOVE_LIMIT <= n / (SCALE as int) <= x + MOVE_LIMIT) by (nonlinear_arith)
            requires
                n == SCALE * (n / (SCALE as int)) + n % (SCALE as int),
                0 <= n % (SCALE as int) < SCALE,
                n == x * SCALE + vn,
                -225_500_000_000 <= vn <= 225_500_000_000,
                SCALE == 100_000_000,
                n >= 0,
        ;
    } else {
        vstd::arithmetic::div_mod::lemma_fundamental_div_mod(-n, SCALE as int);
        assert(x - MOVE_LIMIT <= -((-n) / (SCALE as int)) <= x + MOVE_LIMIT) by (nonlinear_arith)
            requires
                -n == SCALE * ((-n) / (SCALE as int)) + (-n) % (SCALE as int),
                0 <= (-n) % (SCALE as int) < SCALE,
                n == x * SCALE + vn,
                -225_500_000_000 <= vn <= 225_500_000_000,
                SCALE == 100_000_000,
                n < 0,
        ;
    }
}

/// For a nonnegative dividend, truncation toward zero is plain Euclidean
/// division.
proof fn lemma_div_matches_tdiv(n: int, d: int)
    requires
        n >= 0,
        d > 0,
    ensures
        tdiv(n, d) == n / d,
{
}

impl Pod {
    /// Applies the actions in order and returns how many turns crossed a
    /// checkpoint.
    pub fn apply_moves(&mut self, actions: &[Action], checkpoints: &[CheckPoint]) -> (cross: i32)
        requires
            old(self).wf(),
            old(self).next_checkpoint_id < checkpoints@.len(),
            cps_wf(checkpoints@),
            -POS_LIMIT <= old(self).x - MOVE_LIMIT * actions@.len(),
            old(self).x + MOVE_LIMIT * actions@.len() <= POS_LIMIT,
            -POS_LIMIT <= old(self).y - MOVE_LIMIT * actions@.len(),
            old(self).y + MOVE_LIMIT * actions@.len() <= POS_LIMIT,
        ensures
            *final(self) == pod_run(*old(self), actions@, checkpoints@),
            cross == pod_run_crossings(*old(self), actions@, checkpoints@),
            final(self).wf(),
            final(self).next_checkpoint_id < checkpoints@.len(),
    {
        let ghost p0 = *self;
        let mut cross: i32 = 0;
        let mut i: usize = 0;
        proof {
            assert(actions@.take(0) =~= Seq::<Action>::empty());
        }
        while i < actions.len()
            invariant
                i <= actions@.len(),
                *self == pod_run(p0, actions@.take(i as int), checkpoints@),
                cross == pod_run_crossings(p0, actions@.take(i as int), checkpoints@),
                0 <= cross <= i,
                self.wf(),
                self.next_checkpoint_id < checkpoints@.len(),
                cps_wf(checkpoints@),
                p0.x - MOVE_LIMIT * i <= self.x <= p0.x + MOVE_LIMIT * i,
                p0.y - MOVE_LIMIT * i <= self.y <= p0.y + MOVE_LIMIT * i,
                -POS_LIMIT <= p0.x - MOVE_LIMIT * actions@.len(),
                p0.x + MOVE_LIMIT * actions@.len() <= POS_LIMIT,
                -POS_LIMIT <= p0.y - MOVE_LIMIT * actions@.len(),
                p0.y + MOVE_LIMIT * actions@.len() <= POS_LIMIT,
            decreases actions@.len() - i,
        {
            let ghost pre = *self;
            let data = self.apply_move(&actions[i], checkpoints);
            if data.is_some() {
                cross = cross + 1;
            }
            proof {
                assert(actions@.take(i + 1).drop_last() =~= actions@.take(i as int));
                assert(actions@.take(i + 1).last() == actions@[i as int]);
            }
            i = i + 1;
        }
        proof {
            assert(actions@.take(actions@.len() as int) =~= actions@);
        }
        cross
    }

    /// The angle from the pod to `p` in whole degrees (see [`angle_to`]).
    pub fn get_angle(&self, p: &Point) -> (a: u16)
        requires
            self.pos_in_range(),
            -POS_LIMIT <= p.x <= POS_LIMIT,
            -POS_LIMIT <= p.y <= POS_LIMIT,
            p.x != self.x || p.y != self.y,
        ensures
            a == angle_to(*self, *p),
            a < 360,
    {
        let dx = p.x - self.x;
        let dy = p.y - self.y;
        let m = nearest_degree_exec(dx, dy);
        if dy < 0 {
            if m == 0 {
                0
            } else {
                360 - m
            }
        } else {
            m
        }
    }

    /// The signed turn from the pod's heading toward `p` (see
    /// [`turn_delta`]).
    pub fn diff_angle(&self, p: &Point) -> (d: i16)
        requires
            self.wf(),
            self.pos_in_range(),
            -POS_LIMIT <= p.x <= POS_LIMIT,
            -POS_LIMIT <= p.y <= POS_LIMIT,
            p.x != self.x || p.y != self.y,
        ensures
            d == turn_delta(*self, *p),
    {
        let a = self.get_angle(p) as i32;
        let h = self.angle as i32;
        let right = if h <= a {
            a - h
        } else {
            360 - h + a
        };
        let left = if h >= a {
            h - a
        } else {
            h + 360 - a
        };
        if right < left {
            right as i16
        } else {
            (-left) as i16
        }
    }

    /// The far target point a driver protocol would aim at to realize this
    /// action: the pod's position plus `100000` units along the unclamped
    /// new heading (the direction is periodic in whole circles), truncated
    /// to whole units, with the thrust passed through.
    pub fn output(&self, action: &Action) -> (out: (i64, i64, u8))
        requires
            self.wf(),
            self.pos_in_range(),
        ensures
            out.0 == self.x + tdiv(
                cos_deg_val((self.angle + action.angle) % 360) * 100_000,
                SCALE as int,
            ),
            out.1 == self.y + tdiv(
                sin_deg_val((self.angle + action.angle) % 360) * 100_000,
                SCALE as int,
            ),
            out.2 == action.thrust,
    {
        // Shift the sum by a whole number of circles to make it
        // nonnegative, then reduce; i16 deltas need at most 92 circles.
        let sum: i32 = self.angle as i32 + action.angle as i32;
        let shifted: u32 = (sum + 33120) as u32;
        let h: u16 = (shifted % 360) as u16;
        proof {
            vstd::arithmetic::div_mod::lemma_mod_multiples_vanish(92, sum as int, 360);
            assert(h as int == (self.angle + action.angle) % 360);
        }
        let c = cos_deg(h);
        let s = sin_deg(h);
        proof {
            lemma_cos_deg_range(h as int);
            lemma_sin_deg_range(h as int);
            lemma_tdiv_bound(c as int * 100_000, SCALE as int, 100_000);
            lemma_tdiv_bound(s as int * 100_000, SCALE as int, 100_000);
        }
        let px = self.x + div_trunc((c as i128) * 100_000, SCALE as u128) as i64;
        let py = self.y + div_trunc((s as i128) * 100_000, SCALE as u128) as i64;
        (px, py, action.thrust)
    }

    /// Euclidean distance from the pod to `other`, rounded down.
    pub fn distance(&self, other: &Point) -> (d: u64)
        requires
            self.pos_in_range(),
            other.in_range(),
        ensures
            d == sqrt_floor(crate::point::dist_sq(self.pos(), *other) as nat),
    {
        let p = Point { x: self.x, y: self.y };
        p.distance(other)
    }

    /// Squared distance from the pod to `other`, exactly.
    pub fn distance_sq(&self, other: &Point) -> (d: u128)
        requires
            self.pos_in_range(),
            other.in_range(),
        ensures
            d == crate::point::dist_sq(self.pos(), *other),
    {
        let p = Point { x: self.x, y: self.y };
        p.distance_sq(other)
    }
}

/// Rotation clamp law: for any starting heading and any action whose
/// steering delta exceeds 18 degrees in magnitude, the applied delta is
/// exactly plus or minus 18, never more, and the new heading is always a
/// whole degree in `[0, 360)`.
pub proof fn lemma_rotation_clamp(p: Pod, act: Action)
    requires
        p.wf(),
        act.angle > 18 || act.angle < -18,
    ensures
        act.angle > 18 ==> heading_after(p.angle as int, act.angle as int) == wrap360(
            p.angle + 18,
        ),
        act.angle < -18 ==> heading_after(p.angle as int, act.angle as int) == wrap360(
            p.angle - 18,
        ),
        0 <= heading_after(p.angle as int, act.angle as int) < 360,
{
}

/// Friction decay law: with zero thrust each velocity component is the old
/// one scaled by `17/20` and truncated toward zero, so each magnitude
/// strictly decreases while nonzero, and the squared speed strictly
/// decreases toward (though possibly never reaching) zero.
pub proof fn lemma_friction_decay(p: Pod, act: Action)
    requires
        p.wf(),
        act.thrust == 0,
    ensures
        vel_x_after(p, act) == tdiv(p.vx * 17, 20),
        vel_y_after(p, act) == tdiv(p.vy * 17, 20),
        p.vx > 0 ==> 0 <= vel_x_after(p, act) < p.vx,
        p.vx < 0 ==> p.vx < vel_x_after(p, act) <= 0,
        p.vx == 0 ==> vel_x_after(p, act) == 0,
        p.vy > 0 ==> 0 <= vel_y_after(p, act) < p.vy,
        p.vy < 0 ==> p.vy < vel_y_after(p, act) <= 0,
        p.vy == 0 ==> vel_y_after(p, act) == 0,
        (p.vx != 0 || p.vy != 0) ==> vel_x_after(p, act) * vel_x_after(p, act) + vel_y_after(
            p,
            act,
        ) * vel_y_after(p, act) < p.vx * p.vx + p.vy * p.vy,
{
    let h = heading_after(p.angle as int, act.angle as int);
    lemma_cos_deg_range(h);
    lemma_sin_deg_range(h);
    assert(vel_x_scaled(p, act) == p.vx * SCALE);
    assert(vel_y_scaled(p, act) == p.vy * SCALE);
    crate::num::lemma_tdiv_scale(p.vx * 17, 20, SCALE as int);
    crate::num::lemma_tdiv_scale(p.vy * 17, 20, SCALE as int);
    assert(p.vx * SCALE * 17 == (p.vx * 17) * SCALE && 20 * SCALE == 20 * SCALE);
    lemma_friction_component(p.vx as int);
    lemma_friction_component(p.vy as int);
    let qx = tdiv(p.vx * 17, 20);
    let qy = tdiv(p.vy * 17, 20);
    if p.vx != 0 || p.vy != 0 {
        assert(qx * qx + qy * qy < p.vx * p.vx + p.vy * p.vy) by (nonlinear_arith)
            requires
                p.vx > 0 ==> 0 <= qx < p.vx,
                p.vx < 0 ==> p.vx < qx <= 0,
                p.vx == 0 ==> qx == 0,
                p.vy > 0 ==> 0 <= qy < p.vy,
                p.vy < 0 ==> p.vy < qy <= 0,
                p.vy == 0 ==> qy == 0,
                p.vx != 0 || p.vy != 0,
        ;
    }
}

/// One friction step truncated toward zero keeps the sign and strictly
/// shrinks a nonzero component.
proof fn lemma_friction_component(v: int)
    ensures
        v > 0 ==> 0 <= tdiv(v * 17, 20) < v,
        v < 0 ==> v < tdiv(v * 17, 20) <= 0,
        v == 0 ==> tdiv(v * 17, 20) == 0,
{
    if v > 0 {
        vstd::arithmetic::div_mod::lemma_fundamental_div_mod(v * 17, 20);
        assert(0 <= (v * 17) / 20 < v) by (nonlinear_arith)
            requires
                v * 17 == 20 * ((v * 17) / 20) + (v * 17) % 20,
                0 <= (v * 17) % 20 < 20,
                v > 0,
        ;
    } else if v < 0 {
        vstd::arithmetic::div_mod::lemma_fundamental_div_mod(-(v * 17), 20);
        assert(0 <= (-(v * 17)) / 20 < -v) by (nonlinear_arith)
            requires
                -(v * 17) == 20 * ((-(v * 17)) / 20) + (-(v * 17)) % 20,
                0 <= (-(v * 17)) % 20 < 20,
                v < 0,
        ;
    }
}

/// Terminal velocity law: heading and steering zero, full thrust 200.  The
/// x velocity strictly increases every turn while below 1127 and never
/// exceeds 1127; 1127 is a fixed point.  A y velocity of zero stays zero.
pub proof fn lemma_terminal_velocity(p: Pod, act: Action)
    requires
        p.wf(),
        p.angle == 0,
        act.angle == 0,
        act.thrust == 200,
        0 <= p.vx <= 1127,
    ensures
        p.vx < 1127 ==> p.vx < vel_x_after(p, act) <= 1127,
        p.vx == 1127 ==> vel_x_after(p, act) == 1127,
        p.vy == 0 ==> vel_y_after(p, act) == 0,
{
    assert(heading_after(p.angle as int, act.angle as int) == 0);
    assert(vel_x_scaled(p, act) == (p.vx + 200) * SCALE);
    crate::num::lemma_tdiv_scale((p.vx + 200) * 17, 20, SCALE as int);
    assert((p.vx + 200) * SCALE * 17 == ((p.vx + 200) * 17) * SCALE);
    vstd::arithmetic::div_mod::lemma_fundamental_div_mod((p.vx + 200) * 17, 20);
    assert(p.vx < 1127 ==> p.vx < ((p.vx + 200) * 17) / 20 <= 1127) by (nonlinear_arith)
        requires
            (p.vx + 200) * 17 == 20 * (((p.vx + 200) * 17) / 20) + ((p.vx + 200) * 17) % 20,
            0 <= ((p.vx + 200) * 17) % 20 < 20,
            0 <= p.vx <= 1127,
    ;
    assert(p.vx == 1127 ==> ((p.vx + 200) * 17) / 20 == 1127) by (nonlinear_arith)
        requires
            (p.vx + 200) * 17 == 20 * (((p.vx + 200) * 17) / 20) + ((p.vx + 200) * 17) % 20,
            0 <= ((p.vx + 200) * 17) % 20 < 20,
            0 <= p.vx <= 1127,
    ;
    if p.vy == 0 {
        assert(vel_y_scaled(p, act) == 0);
    }
}

} // verus!
