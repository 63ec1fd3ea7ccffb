//! The episode controller: owns the checkpoint sequence and the pod, drives
//! repeated turns, and decides episode completion.
//!
//! An episode is done exactly when the pod's target has become the last
//! checkpoint of the sequence (a synthetic terminal checkpoint appended
//! after the real laps: the win condition) or the turn counter has reached
//! the turn cap.

use crate::action::Action;
use crate::checkpoint::CheckPoint;
use crate::pod::angle_to;
use crate::pod::cps_wf;
use crate::pod::crosses;
use crate::pod::cross_time_millis;
use crate::pod::pod_after;
use crate::pod::Pod;
use crate::pod::MOVE_LIMIT;
use crate::pod::POS_LIMIT;
use crate::point::Point;
use vstd::prelude::*;

verus! {

/// The default turn cap of a fresh episode.
pub const DEFAULT_MAX_TURN: usize = 600;

/// The episode controller.
#[derive(Debug)]
pub struct GameManager {
    pub checkpoints: Vec<CheckPoint>,
    pub pod: Pod,
    pub done: bool,
    pub turn: usize,
    pub max_turn: usize,
}

/// The pod an episode starts from: placed on the second-to-last checkpoint
/// of the laid-out course, at rest, heading rounded to the whole degree
/// that points at the first checkpoint, targeting checkpoint 0.
pub open spec fn reset_pod(cps: Seq<CheckPoint>) -> Pod {
    let sp = cps[cps.len() - 2];
    let base = Pod { x: sp.x, y: sp.y, vx: 0, vy: 0, angle: 0, next_checkpoint_id: 0, r: 100 };
    Pod {
        angle: angle_to(base, cps[0].pos()) as u16,
        x: sp.x,
        y: sp.y,
        vx: 0,
        vy: 0,
        next_checkpoint_id: 0,
        r: 100,
    }
}

/// Whether the starting position of a laid-out course (its second-to-last
/// checkpoint) is distinct from the first target, so that an initial
/// heading exists.
pub open spec fn start_distinct(cps: Seq<CheckPoint>) -> bool {
    cps[cps.len() - 2].x != cps[0].x || cps[cps.len() - 2].y != cps[0].y
}

/// Whether a course can start an episode: at least two well-formed
/// checkpoints, and the starting position distinct from the first target.
pub open spec fn can_reset(cps: Seq<CheckPoint>) -> bool {
    &&& cps.len() >= 2
    &&& cps_wf(cps)
    &&& start_distinct(cps)
}

/// The controller state after one action: the pod advances one turn, the
/// turn counter increments, and the episode is done exactly when the pod's
/// target has become the last (terminal) checkpoint or the counter has
/// reached the cap.
pub open spec fn manager_after(g: GameManager, act: Action) -> GameManager {
    let p = pod_after(g.pod, act, g.checkpoints@);
    GameManager {
        checkpoints: g.checkpoints,
        pod: p,
        done: p.next_checkpoint_id == g.checkpoints@.len() - 1 || g.turn + 1 == g.max_turn,
        turn: (g.turn + 1) as usize,
        max_turn: g.max_turn,
    }
}

/// The controller state after applying actions in order, stopping early
/// the turn the episode becomes done.
pub open spec fn manager_run(g: GameManager, actions: Seq<Action>) -> GameManager
    decreases actions.len(),
{
    if actions.len() == 0 {
        g
    } else {
        let g1 = manager_after(g, actions[0]);
        if g1.done {
            g1
        } else {
            manager_run(g1, actions.skip(1))
        }
    }
}

impl GameManager {
    /// The controller invariant: a well-formed course of at least two
    /// checkpoints, a well-formed pod, and a valid target index.
    pub open spec fn wf(self) -> bool {
        &&& cps_wf(self.checkpoints@)
        &&& self.checkpoints@.len() >= 2
        &&& self.pod.wf()
        &&& self.pod.next_checkpoint_id < self.checkpoints@.len()
    }

    /// An independent deep copy of the controller's full state: mutating
    /// either copy never affects the other.
    pub fn clone_manager(&self) -> (g: GameManager)
        ensures
            g.checkpoints@ == self.checkpoints@,
            g.pod == self.pod,
            g.done == self.done,
            g.turn == self.turn,
            g.max_turn == self.max_turn,
    {
        let mut cps: Vec<CheckPoint> = Vec::new();
        let mut i: usize = 0;
        while i < self.checkpoints.len()
            invariant
                i <= self.checkpoints@.len(),
                cps@ =~= self.checkpoints@.take(i as int),
            decreases self.checkpoints@.len() - i,
        {
            cps.push(self.checkpoints[i].clone_checkpoint());
            i = i + 1;
        }
        proof {
            assert(self.checkpoints@.take(self.checkpoints@.len() as int) =~= self.checkpoints@);
        }
        GameManager {
            checkpoints: cps,
            pod: self.pod.clone_pod(),
            done: self.done,
            turn: self.turn,
            max_turn: self.max_turn,
        }
    }

    /// Delegates one turn to the pod, increments the turn counter and
    /// recomputes the done flag.  Returns the done flag and the turn's
    /// crossing fraction, if any, in thousandths.
    pub fn apply_action(&mut self, action: &Action) -> (r: (bool, Option<u16>))
        requires
            old(self).wf(),
            old(self).pod.pos_in_range(),
            old(self).turn < usize::MAX,
        ensures
            *final(self) == manager_after(*old(self), *action),
            final(self).wf(),
            r.0 == final(self).done,
            r.1 is Some <==> crosses(
                old(self).pod,
                *action,
                old(self).checkpoints@[old(self).pod.next_checkpoint_id as int],
            ),
            r.1 is Some ==> r.1->0 == cross_time_millis(
                old(self).pod,
                *action,
                old(self).checkpoints@[old(self).pod.next_checkpoint_id as int],
            ),
            old(self).pod.x - MOVE_LIMIT <= final(self).pod.x <= old(self).pod.x + MOVE_LIMIT,
            old(self).pod.y - MOVE_LIMIT <= final(self).pod.y <= old(self).pod.y + MOVE_LIMIT,
    {
        let t = self.pod.apply_move(action, self.checkpoints.as_slice());
        self.turn = self.turn + 1;
        self.done = (self.pod.next_checkpoint_id == self.checkpoints.len() - 1) || (self.turn
            == self.max_turn);
        (self.done, t)
    }

    /// Applies the actions in order, stopping early the turn the episode
    /// becomes done; reports only whether it is done.
    #[verifier::rlimit(80)]
    #[verifier::loop_isolation(false)]
    pub fn apply_actions(&mut self, actions: &[Action]) -> (done: bool)
        requires
            old(self).wf(),
            old(self).turn + actions@.len() <= usize::MAX,
            -POS_LIMIT <= old(self).pod.x - MOVE_LIMIT * actions@.len(),
            old(self).pod.x + MOVE_LIMIT * actions@.len() <= POS_LIMIT,
            -POS_LIMIT <= old(self).pod.y - MOVE_LIMIT * actions@.len(),
            old(self).pod.y + MOVE_LIMIT * actions@.len() <= POS_LIMIT,
        ensures
            *final(self) == manager_run(*old(self), actions@),
            final(self).wf(),
            done == final(self).done,
    {
        let ghost g0 = *old(self);
        let mut i: usize = 0;
        proof {
            assert(actions@.skip(0) =~= actions@);
            assert(manager_run(g0, actions@) == manager_run(*self, actions@.skip(0)));
        }
        while i < actions.len()
            invariant
                i <= actions@.len(),
                manager_run(g0, actions@) == manager_run(*self, actions@.skip(i as int)),
                self.wf(),
                self.turn + (actions@.len() - i) <= usize::MAX,
                g0.pod.x - MOVE_LIMIT * i <= self.pod.x <= g0.pod.x + MOVE_LIMIT * i,
                g0.pod.y - MOVE_LIMIT * i <= self.pod.y <= g0.pod.y + MOVE_LIMIT * i,
                -POS_LIMIT <= g0.pod.x - MOVE_LIMIT * actions@.len(),
                g0.pod.x + MOVE_LIMIT * actions@.len() <= POS_LIMIT,
                -POS_LIMIT <= g0.pod.y - MOVE_LIMIT * actions@.len(),
                g0.pod.y + MOVE_LIMIT * actions@.len() <= POS_LIMIT,
            decreases actions@.len() - i,
        {
            proof {
                assert(actions@.skip(i as int)[0] == actions@[i as int]);
                assert(actions@.skip(i as int).skip(1) =~= actions@.skip(i + 1));
            }
            let ghost pre = *self;
            let (done, _) = self.apply_action(&actions[i]);
            proof {
                assert(*self == manager_after(pre, actions@[i as int]));
                assert(manager_run(pre, actions@.skip(i as int)) == (if self.done {
                    *self
                } else {
                    manager_run(*self, actions@.skip(i + 1))
                }));
                assert(manager_run(g0, actions@) == manager_run(pre, actions@.skip(i as int)));
            }
            if done {
                proof {
                    assert(manager_run(g0, actions@) == *self);
                }
                return true;
            }
            i = i + 1;
        }
        proof {
            assert(actions@.skip(actions@.len() as int) =~= Seq::<Action>::empty());
        }
        self.done
    }

    /// Places the pod at the second-to-last checkpoint, at rest, heading
    /// pointed at the first checkpoint, and restarts the episode.
    pub fn reset(&mut self)
        requires
            can_reset(old(self).checkpoints@),
        ensures
            final(self).checkpoints@ == old(self).checkpoints@,
            final(self).max_turn == old(self).max_turn,
            final(self).pod == reset_pod(old(self).checkpoints@),
            final(self).done == false,
            final(self).turn == 0,
            final(self).wf(),
            final(self).pod.pos_in_range(),
    {
        let n = self.checkpoints.len();
        let sp = self.checkpoints[n - 2];
        self.pod = Pod::new(sp.x, sp.y, 0, 0, 0, 0);
        let first = self.checkpoints[0];
        let target = Point { x: first.x, y: first.y };
        let a = self.pod.get_angle(&target);
        self.pod.angle = a;
        self.done = false;
        self.turn = 0;
    }

    /// Builds a controller over a laid-out course with the default turn
    /// cap, starting a fresh episode.
    pub fn from_checkpoints(checkpoints: Vec<CheckPoint>) -> (g: GameManager)
        requires
            can_reset(checkpoints@),
        ensures
            g.checkpoints@ == checkpoints@,
            g.pod == reset_pod(checkpoints@),
            g.done == false,
            g.turn == 0,
            g.max_turn == DEFAULT_MAX_TURN,
            g.wf(),
            g.pod.pos_in_range(),
    {
        let mut game = GameManager {
            checkpoints,
            pod: Pod::new(0, 0, 0, 0, 0, 0),
            done: false,
            turn: 0,
            max_turn: DEFAULT_MAX_TURN,
        };
        game.reset();
        game
    }
}

impl GameManager {
    /// Builds a fresh episode from a semicolon-separated course text.
    /// Succeeds exactly when the text describes a usable lap whose
    /// laid-out course can start an episode, and then returns the fresh
    /// episode over that lap's full course.
    pub fn from_course_text(s: &str) -> (r: Option<GameManager>)
        ensures
            r is Some <==> (crate::course::lap_ok(
                crate::course::lap_checkpoints(crate::course::course_pairs(s@, 0)),
            ) && start_distinct(
                crate::course::full_course(
                    crate::course::lap_checkpoints(crate::course::course_pairs(s@, 0)),
                ),
            )),
            r is Some ==> r->0.wf() && r->0.done == false && r->0.turn == 0 && r->0.max_turn
                == DEFAULT_MAX_TURN && r->0.checkpoints@ == crate::course::full_course(
                crate::course::lap_checkpoints(crate::course::course_pairs(s@, 0)),
            ) && r->0.pod == reset_pod(r->0.checkpoints@) && r->0.pod.pos_in_range(),
    {
        let course = crate::course::course_from_text(s);
        match course {
            Some(cps) => {
                let n = cps.len();
                let sp = cps[n - 2];
                let first = cps[0];
                if sp.x == first.x && sp.y == first.y {
                    proof {
                        assert(!start_distinct(cps@));
                    }
                    return None;
                }
                proof {
                    assert(start_distinct(cps@));
                    assert(can_reset(cps@));
                }
                Some(GameManager::from_checkpoints(cps))
            },
            None => None,
        }
    }
}

/// The starting pod of a course, as [`GameManager::reset`] places it.
pub fn get_initial_pod(checkpoints: &[CheckPoint]) -> (p: Pod)
    requires
        can_reset(checkpoints@),
    ensures
        p == reset_pod(checkpoints@),
        p.wf(),
        p.pos_in_range(),
{
    let n = checkpoints.len();
    let sp = checkpoints[n - 2];
    let mut pod = Pod::new(sp.x, sp.y, 0, 0, 0, 0);
    let first = checkpoints[0];
    let target = Point { x: first.x, y: first.y };
    let a = pod.get_angle(&target);
    pod.angle = a;
    pod
}

} // verus!
