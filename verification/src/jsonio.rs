//! The persisted test-case envelope: a JSON object whose `testIn` string
//! field holds the semicolon-separated course text.
//!
//! Only the unwrapping of the envelope goes through `serde_json`, behind
//! the one trusted wrapper below.  What the unwrap yields on a given
//! document is a function of the text alone, so it carries the name
//! [`testin_of`]; everything computed from the extracted course text is
//! verified ordinary code.

use crate::checkpoint::CheckPoint;
use crate::course::course_from_text;
use crate::course::course_pairs;
use crate::course::full_course;
use crate::course::lap_checkpoints;
use crate::course::lap_ok;
use crate::game_manager::can_reset;
use crate::game_manager::reset_pod;
use crate::game_manager::start_distinct;
use crate::game_manager::GameManager;
use crate::game_manager::DEFAULT_MAX_TURN;
use crate::pod::cps_wf;
use vstd::prelude::*;

verus! {

/// What unwrapping the test-case envelope yields on a given document: the
/// `testIn` string field of the JSON object the text parses to, if the
/// text is valid JSON, the value an object with that field, and the field
/// a string.
pub uninterp spec fn testin_of(s: Seq<char>) -> Option<Seq<char>>;

/// Relies on `serde_json::from_str::<Value>`, `Value::get` and
/// `Value::as_str`: parses the document and hands out its `testIn` string
/// field.  Each step depends on the document text alone, so the result is
/// the named [`testin_of`].
#[verifier::external_body]
fn json_testin(content: &str) -> (r: Option<String>)
    ensures
        r is Some <==> testin_of(content@) is Some,
        r is Some ==> r->0@ == testin_of(content@)->0,
{
    let value: serde_json::Value = serde_json::from_str(content).ok()?;
    let field = value.get("testIn")?;
    Some(field.as_str()?.to_string())
}

/// The course text of a persisted test case: the `testIn` string field of
/// its JSON envelope, exactly when the envelope has one.
pub fn course_text_from_json(content: &str) -> (r: Option<String>)
    ensures
        r is Some <==> testin_of(content@) is Some,
        r is Some ==> r->0@ == testin_of(content@)->0,
{
    json_testin(content)
}

/// Lays out the full course held in a persisted test case: succeeds
/// exactly when the envelope yields a course text whose lap can be laid
/// out, and then returns that lap's full course (three rotated laps and a
/// terminal checkpoint).
pub fn course_from_json(content: &str) -> (r: Option<Vec<CheckPoint>>)
    ensures
        r is Some <==> (testin_of(content@) is Some && lap_ok(
            lap_checkpoints(course_pairs(testin_of(content@)->0, 0)),
        )),
        r is Some ==> r->0@ == full_course(
            lap_checkpoints(course_pairs(testin_of(content@)->0, 0)),
        ),
        r is Some ==> cps_wf(r->0@) && r->0@.len() >= 7,
{
    let text = course_text_from_json(content);
    match text {
        Some(t) => course_from_text(t.as_str()),
        None => None,
    }
}

impl GameManager {
    /// Builds a fresh episode from a persisted test case: succeeds exactly
    /// when the envelope yields a usable course whose starting position is
    /// distinct from its first target.
    pub fn from_course_json(content: &str) -> (r: Option<GameManager>)
        ensures
            r is Some <==> (testin_of(content@) is Some && lap_ok(
                lap_checkpoints(course_pairs(testin_of(content@)->0, 0)),
            ) && start_distinct(
                full_course(lap_checkpoints(course_pairs(testin_of(content@)->0, 0))),
            )),
            r is Some ==> r->0.checkpoints@ == full_course(
                lap_checkpoints(course_pairs(testin_of(content@)->0, 0)),
            ),
            r is Some ==> r->0.wf() && r->0.done == false && r->0.turn == 0 && r->0.max_turn
                == DEFAULT_MAX_TURN && r->0.pod == reset_pod(r->0.checkpoints@)
                && r->0.pod.pos_in_range(),
    {
        let course = course_from_json(content);
        match course {
            Some(cps) => {
                let n = cps.len();
                let sp = cps[n - 2];
                let first = cps[0];
                if sp.x == first.x && sp.y == first.y {
                    proof {
                        assert(!start_distinct(cps@));
                    }
                    return None;
                }
                proof {
                    assert(start_distinct(cps@));
                    assert(can_reset(cps@));
                }
                Some(GameManager::from_checkpoints(cps))
            },
            None => None,
        }
    }
}

} // verus!
