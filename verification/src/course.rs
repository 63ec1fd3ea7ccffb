//! Course construction: from one lap's raw checkpoint coordinates to the
//! full race course.
//!
//! The construction contract: rotate the lap's checkpoint list left by one
//! (drop the first point, append it at the end), replicate the rotated
//! list three times consecutively (three laps), then append one synthetic
//! terminal checkpoint extrapolated 50000 distance units past the last
//! real checkpoint along the line from the second-to-last to the last,
//! truncated toward zero.  Reaching the terminal checkpoint is the win
//! condition.

use crate::action::all_digits;
use crate::action::digits_val;
use crate::checkpoint::CheckPoint;
use crate::checkpoint::CHECKPOINT_RADIUS;
use crate::checkpoint::CHECKPOINT_RADIUS_SQ;
use crate::num::isqrt;
use crate::num::lemma_sqrt_floor_bounds;
use crate::num::sqrt_floor;
use crate::pod::cps_wf;
use crate::point::dist_sq;
use vstd::prelude::*;
use vstd::string::StrSliceExecFns;

verus! {

/// Coordinate bound for one lap's raw checkpoints, leaving room within the
/// checkpoint bound for the 50000-unit terminal extrapolation.
pub const RAW_COORD_LIMIT: i64 = 1_900_000;

/// Every raw checkpoint coordinate lies within [`RAW_COORD_LIMIT`].
pub open spec fn raw_in_range(pts: Seq<CheckPoint>) -> bool {
    forall|i: int|
        0 <= i < pts.len() ==> -RAW_COORD_LIMIT <= (#[trigger] pts[i]).x <= RAW_COORD_LIMIT
            && -RAW_COORD_LIMIT <= pts[i].y <= RAW_COORD_LIMIT
}

/// The rotated lap: drop the first checkpoint, append it at the end.
pub open spec fn rotated_course(pts: Seq<CheckPoint>) -> Seq<CheckPoint> {
    pts.subrange(1, pts.len() as int) + pts.subrange(0, 1)
}

/// The floor of `c / sqrt(b)` for `b > 0`, decided exactly in integers.
pub open spec fn fdiv_sqrt(c: int, b: nat) -> int {
    if c >= 0 {
        sqrt_floor(((c * c) / (b as int)) as nat) as int
    } else {
        let k = sqrt_floor(((c * c) / (b as int)) as nat) as int;
        if k * k * b == c * c {
            -k
        } else {
            -(k + 1)
        }
    }
}

/// One coordinate of the synthetic terminal checkpoint: the truncation
/// toward zero of `p1 + 50000 * (p1 - p2) / sqrt(dsq)`, where `p1` is the
/// last checkpoint's coordinate, `p2` the second-to-last's, and `dsq`
/// their squared distance.
pub open spec fn terminal_coord(p1: int, p2: int, dsq: nat) -> int {
    let c = 50000 * (p1 - p2);
    let fl = p1 + fdiv_sqrt(c, dsq);
    if fl >= 0 {
        fl
    } else {
        -((-p1) + fdiv_sqrt(-c, dsq))
    }
}

/// The synthetic terminal checkpoint of a rotated course.
pub open spec fn terminal_checkpoint(rot: Seq<CheckPoint>) -> CheckPoint {
    let p2 = rot[rot.len() - 2];
    let p1 = rot[rot.len() - 1];
    let dsq = dist_sq(p1.pos(), p2.pos()) as nat;
    CheckPoint {
        x: terminal_coord(p1.x as int, p2.x as int, dsq) as i64,
        y: terminal_coord(p1.y as int, p2.y as int, dsq) as i64,
        r: CHECKPOINT_RADIUS,
        r2: CHECKPOINT_RADIUS_SQ,
    }
}

/// The full race course from one lap: the rotated lap three times, then
/// the terminal checkpoint.
pub open spec fn full_course(pts: Seq<CheckPoint>) -> Seq<CheckPoint> {
    let rot = rotated_course(pts);
    rot + rot + rot + seq![terminal_checkpoint(rot)]
}

/// Whether one lap's checkpoints can be laid out as a full course: at
/// least two points, coordinates in range, and the two checkpoints the
/// terminal is extrapolated from distinct.
pub open spec fn lap_ok(pts: Seq<CheckPoint>) -> bool {
    &&& pts.len() >= 2
    &&& cps_wf(pts)
    &&& raw_in_range(pts)
    &&& (pts[pts.len() - 1].x != pts[0].x || pts[pts.len() - 1].y != pts[0].y)
}

/// Computes [`fdiv_sqrt`] with an integer square root.  The magnitude
/// bound `c^2 <= 50000^2 * b` keeps every product inside the machine.
fn fdiv_sqrt_exec(c: i128, b: u128) -> (r: i64)
    requires
        0 < b <= 0x8000_0000_0000_0000u128,
        -0x8000_0000_0000_0000i128 <= c <= 0x8000_0000_0000_0000i128,
        c * c <= 2_500_000_000 * b,
    ensures
        r == fdiv_sqrt(c as int, b as nat),
        -50001 <= r <= 50000,
{
    proof {
        assert(0 <= c * c <= 0x4000_0000_0000_0000_0000_0000_0000_0000i128) by (nonlinear_arith)
            requires
                -0x8000_0000_0000_0000i128 <= c <= 0x8000_0000_0000_0000i128,
        ;
    }
    let csq: u128 = (c * c) as u128;
    let q: u128 = csq / b;
    let k: u128 = isqrt(q);
    proof {
        assert(q == (c * c) as int / (b as int));
        vstd::arithmetic::div_mod::lemma_fundamental_div_mod(csq as int, b as int);
        assert(q <= 2_500_000_000) by (nonlinear_arith)
            requires
                csq as int == (b as int) * q + (csq as int) % (b as int),
                0 <= (csq as int) % (b as int) < b,
                csq <= 2_500_000_000 * b,
                b > 0,
        ;
        lemma_sqrt_floor_bounds(q as nat);
        assert(k <= 50_000) by (nonlinear_arith)
            requires
                k * k <= 2_500_000_000,
                k >= 0,
        ;
    }
    if c >= 0 {
        k as i64
    } else {
        let kk: u128 = k * k;
        proof {
            assert(kk * b <= 2_500_000_000 * b <= 0x4000_0000_0000_0000_0000_0000_0000_0000u128)
                by (nonlinear_arith)
                requires
                    kk <= 2_500_000_000,
                    0 < b <= 0x8000_0000_0000_0000u128,
            ;
        }
        if kk * b == csq {
            -(k as i64)
        } else {
            -(k as i64) - 1
        }
    }
}

/// Computes one terminal coordinate (see [`terminal_coord`]).
fn terminal_coord_exec(p1: i64, p2: i64, dsq: u128) -> (t: i64)
    requires
        -RAW_COORD_LIMIT <= p1 <= RAW_COORD_LIMIT,
        -RAW_COORD_LIMIT <= p2 <= RAW_COORD_LIMIT,
        0 < dsq <= 0x8000_0000_0000_0000u128,
        (p1 - p2) * (p1 - p2) <= dsq,
    ensures
        t == terminal_coord(p1 as int, p2 as int, dsq as nat),
        p1 - 50001 <= t <= p1 + 50001,
{
    let c: i128 = 50000 * ((p1 as i128) - (p2 as i128));
    proof {
        assert(c * c <= 2_500_000_000 * dsq && -0x8000_0000_0000_0000i128 <= c
            <= 0x8000_0000_0000_0000i128 && (-c) * (-c) <= 2_500_000_000 * dsq)
            by (nonlinear_arith)
            requires
                c == 50000 * ((p1 as int) - (p2 as int)),
                (p1 - p2) * (p1 - p2) <= dsq,
                -RAW_COORD_LIMIT <= p1 <= RAW_COORD_LIMIT,
                -RAW_COORD_LIMIT <= p2 <= RAW_COORD_LIMIT,
        ;
    }
    let f1 = fdiv_sqrt_exec(c, dsq);
    let fl: i64 = p1 + f1;
    if fl >= 0 {
        fl
    } else {
        let f2 = fdiv_sqrt_exec(-c, dsq);
        -((-p1) + f2)
    }
}

/// Lays one lap's checkpoints out as the full race course (see
/// [`full_course`]).
pub fn build_course(points: Vec<CheckPoint>) -> (course: Vec<CheckPoint>)
    requires
        lap_ok(points@),
    ensures
        course@ == full_course(points@),
        cps_wf(course@),
        course@.len() == 3 * points@.len() + 1,
{
    let n = points.len();
    let mut rot: Vec<CheckPoint> = Vec::new();
    let mut i: usize = 1;
    while i < n
        invariant
            1 <= i <= n,
            n == points@.len(),
            lap_ok(points@),
            rot@ =~= points@.subrange(1, i as int),
        decreases n - i,
    {
        rot.push(points[i].clone_checkpoint());
        i = i + 1;
    }
    rot.push(points[0].clone_checkpoint());
    proof {
        assert(rot@ =~= rotated_course(points@));
    }
    let ghost rotg = rotated_course(points@);
    // The two checkpoints the terminal is extrapolated from.
    let p2 = rot[n - 2];
    let p1 = rot[n - 1];
    proof {
        assert(rotg[n - 2] == points@[n - 1]);
        assert(rotg[n - 1] == points@[0]);
        assert(p1.wf() && p2.wf());
    }
    let dx: i128 = (p1.x as i128) - (p2.x as i128);
    let dy: i128 = (p1.y as i128) - (p2.y as i128);
    proof {
        assert(0 <= dx * dx && 0 <= dy * dy && dx * dx + dy * dy <= 0x8000_0000_0000_0000i128
            && (p1.x - p2.x) * (p1.x - p2.x) <= dx * dx + dy * dy && (p1.y - p2.y) * (p1.y - p2.y)
            <= dx * dx + dy * dy) by (nonlinear_arith)
            requires
                dx == p1.x - p2.x,
                dy == p1.y - p2.y,
                -RAW_COORD_LIMIT <= p1.x <= RAW_COORD_LIMIT,
                -RAW_COORD_LIMIT <= p1.y <= RAW_COORD_LIMIT,
                -RAW_COORD_LIMIT <= p2.x <= RAW_COORD_LIMIT,
                -RAW_COORD_LIMIT <= p2.y <= RAW_COORD_LIMIT,
        ;
        assert(dx != 0 || dy != 0);
        assert(dx * dx + dy * dy > 0) by (nonlinear_arith)
            requires
                dx != 0 || dy != 0,
        ;
    }
    let dsq: u128 = (dx * dx + dy * dy) as u128;
    let tx = terminal_coord_exec(p1.x, p2.x, dsq);
    let ty = terminal_coord_exec(p1.y, p2.y, dsq);
    let term = CheckPoint::from_i64(tx, ty);
    proof {
        assert(term == terminal_checkpoint(rotg));
    }
    let mut course: Vec<CheckPoint> = Vec::new();
    let mut lap: usize = 0;
    while lap < 3
        invariant
            lap <= 3,
            rot@ == rotg,
            n == points@.len(),
            lap_ok(points@),
            lap == 0 ==> course@ =~= Seq::<CheckPoint>::empty(),
            lap == 1 ==> course@ =~= rotg,
            lap == 2 ==> course@ =~= rotg + rotg,
            lap == 3 ==> course@ =~= rotg + rotg + rotg,
        decreases 3 - lap,
    {
        let mut j: usize = 0;
        let ghost base = course@;
        while j < rot.len()
            invariant
                j <= rot@.len(),
                rot@ == rotg,
                course@ =~= base + rotg.take(j as int),
            decreases rot@.len() - j,
        {
            course.push(rot[j].clone_checkpoint());
            proof {
                assert(rotg.take(j + 1) =~= rotg.take(j as int).push(rotg[j as int]));
            }
            j = j + 1;
        }
        proof {
            assert(rotg.take(rotg.len() as int) =~= rotg);
        }
        lap = lap + 1;
    }
    course.push(term);
    proof {
        assert(course@ =~= full_course(points@));
        assert forall|k: int| 0 <= k < course@.len() implies (#[trigger] course@[k]).wf() by {
            if k < 3 * n {
                let m = if k < n {
                    k
                } else if k < 2 * n {
                    k - n
                } else {
                    k - 2 * n
                };
                assert(course@[k] == rotg[m]);
                assert(rotg[m] == (if m < n - 1 {
                    points@[m + 1]
                } else {
                    points@[0]
                }));
            }
        }
    }
    course
}

/// The index of the first occurrence of `ch` in `s` at or after `i`, or
/// `s.len()` if there is none.
pub open spec fn find_char(s: Seq<char>, i: int, ch: char) -> int
    decreases s.len() - i,
{
    if i < 0 || i >= s.len() {
        s.len() as int
    } else if s[i] == ch {
        i
    } else {
        find_char(s, i + 1, ch)
    }
}

/// The found index lies between the start of the search and the end.
proof fn lemma_find_char_range(s: Seq<char>, i: int, ch: char)
    requires
        0 <= i <= s.len(),
    ensures
        i <= find_char(s, i, ch) <= s.len(),
    decreases s.len() - i,
{
    if i < s.len() && s[i] != ch {
        lemma_find_char_range(s, i + 1, ch);
    }
}

/// `str::parse::<i32>` on a field: an optional leading plus or minus sign,
/// then one or more decimal digits whose signed value fits in an `i32`.
pub open spec fn parse_i32_field(s: Seq<char>) -> Option<i32> {
    if s.len() == 0 {
        None
    } else if s[0] == '+' || s[0] == '-' {
        let body = s.subrange(1, s.len() as int);
        if body.len() == 0 || !all_digits(body) {
            None
        } else if s[0] == '-' {
            if digits_val(body) > 2147483648 {
                None
            } else {
                Some((-digits_val(body)) as i32)
            }
        } else {
            if digits_val(body) > 2147483647 {
                None
            } else {
                Some(digits_val(body) as i32)
            }
        }
    } else if !all_digits(s) {
        None
    } else if digits_val(s) > 2147483647 {
        None
    } else {
        Some(digits_val(s) as i32)
    }
}

/// The numbers parsed out of one space-separated segment, in order,
/// skipping fields that do not parse.
pub open spec fn seg_coords(s: Seq<char>, i: int) -> Seq<i32>
    decreases s.len() - i,
        when 0 <= i <= s.len()
        via seg_coords_dec
{
    let j = find_char(s, i, ' ');
    let this = match parse_i32_field(s.subrange(i, j)) {
        Some(x) => seq![x],
        None => Seq::<i32>::empty(),
    };
    if j >= s.len() {
        this
    } else {
        this + seg_coords(s, j + 1)
    }
}

#[via_fn]
proof fn seg_coords_dec(s: Seq<char>, i: int) {
    lemma_find_char_range(s, i, ' ');
}

/// The coordinate pairs parsed out of a semicolon-separated course text:
/// each segment whose parsed numbers include at least two contributes its
/// first two as one checkpoint's coordinates.
pub open spec fn course_pairs(s: Seq<char>, i: int) -> Seq<(i32, i32)>
    decreases s.len() - i,
        when 0 <= i <= s.len()
        via course_pairs_dec
{
    let j = find_char(s, i, ';');
    let cs = seg_coords(s.subrange(i, j), 0);
    let this = if cs.len() >= 2 {
        seq![(cs[0], cs[1])]
    } else {
        Seq::<(i32, i32)>::empty()
    };
    if j >= s.len() {
        this
    } else {
        this + course_pairs(s, j + 1)
    }
}

#[via_fn]
proof fn course_pairs_dec(s: Seq<char>, i: int) {
    lemma_find_char_range(s, i, ';');
}

/// Finds the first occurrence of `ch` within `s[from..to]`, as an offset
/// from `from`, scanning from offset `k`.
fn find_char_rel(s: &str, from: usize, to: usize, k: usize, ch: char, n: usize) -> (r: usize)
    requires
        n == s@.len(),
        from <= to <= n,
        k <= to - from,
    ensures
        r == find_char(s@.subrange(from as int, to as int), k as int, ch),
        k <= r <= to - from,
{
    let ghost seg = s@.subrange(from as int, to as int);
    let mut m: usize = k;
    while from + m < to
        invariant
            k <= m,
            from + m <= to <= n,
            n == s@.len(),
            seg == s@.subrange(from as int, to as int),
            find_char(seg, k as int, ch) == find_char(seg, m as int, ch),
        decreases to - from - m,
    {
        let c = s.get_char(from + m);
        proof {
            assert(seg[m as int] == s@[from + m]);
        }
        if c == ch {
            return m;
        }
        m = m + 1;
    }
    to - from
}

/// Scans `s[from..to]` for digits with the value capped at `u32::MAX`,
/// like [`crate::action`]'s scanner but wide enough for 32-bit fields.
fn scan_digits_u64(s: &str, from: usize, to: usize, n: usize) -> (r: (bool, bool, u64))
    requires
        n == s@.len(),
        from <= to <= n,
    ensures
        r.0 == all_digits(s@.subrange(from as int, to as int)),
        r.0 ==> (r.1 <==> digits_val(s@.subrange(from as int, to as int)) > 4294967295),
        r.0 && !r.1 ==> r.2 == digits_val(s@.subrange(from as int, to as int)) && r.2 <= 4294967295,
{
    let ghost field = s@.subrange(from as int, to as int);
    let mut i: usize = from;
    let mut val: u64 = 0;
    let mut big: bool = false;
    proof {
        assert(field.take(0) =~= Seq::<char>::empty());
    }
    while i < to
        invariant
            from <= i <= to <= n,
            n == s@.len(),
            field == s@.subrange(from as int, to as int),
            all_digits(field.take(i - from)),
            !big ==> val == digits_val(field.take(i - from)) && val <= 4294967295,
            big ==> digits_val(field.take(i - from)) > 4294967295,
        decreases to - i,
    {
        let c = s.get_char(i);
        let cu = c as u32;
        if cu < 48 || cu > 57 {
            proof {
                assert(field[i - from] == s@[i as int]);
                assert(!crate::action::is_digit(field[i - from]));
            }
            return (false, false, 0);
        }
        let d: u64 = (cu - 48) as u64;
        proof {
            assert(field.take(i - from + 1).drop_last() =~= field.take(i - from));
            assert(field.take(i - from + 1).last() == s@[i as int]);
        }
        if big {
            proof {
                assert(digits_val(field.take(i - from + 1)) > 4294967295);
            }
        } else {
            let nv: u64 = val * 10 + d;
            if nv > 4294967295 {
                big = true;
                val = 0;
            } else {
                val = nv;
            }
        }
        i = i + 1;
    }
    proof {
        assert(field.take(to - from) =~= field);
    }
    (true, big, val)
}

/// Parses `s[from..to]` as `str::parse::<i32>` does.
fn parse_i32_exec(s: &str, from: usize, to: usize, n: usize) -> (r: Option<i32>)
    requires
        n == s@.len(),
        from <= to <= n,
    ensures
        r == parse_i32_field(s@.subrange(from as int, to as int)),
{
    let ghost field = s@.subrange(from as int, to as int);
    if to == from {
        return None;
    }
    let c0 = s.get_char(from);
    let signed = c0 == '+' || c0 == '-';
    let bf: usize = if signed {
        from + 1
    } else {
        from
    };
    proof {
        if signed {
            assert(s@.subrange(bf as int, to as int) =~= field.subrange(1, field.len() as int));
        } else {
            assert(s@.subrange(bf as int, to as int) =~= field);
        }
    }
    if bf >= to {
        return None;
    }
    let (ok, big, val) = scan_digits_u64(s, bf, to, n);
    if !ok || big {
        return None;
    }
    if c0 == '-' {
        if val > 2147483648 {
            None
        } else {
            Some((-(val as i64)) as i32)
        }
    } else {
        if val > 2147483647 {
            None
        } else {
            Some(val as i32)
        }
    }
}

/// The numbers parsed out of the segment `s[from..to]` (see
/// [`seg_coords`]).
fn collect_seg(s: &str, from: usize, to: usize, n: usize) -> (vals: Vec<i32>)
    requires
        n == s@.len(),
        from <= to <= n,
    ensures
        vals@ == seg_coords(s@.subrange(from as int, to as int), 0),
{
    let ghost seg = s@.subrange(from as int, to as int);
    let mut vals: Vec<i32> = Vec::new();
    let mut k: usize = 0;
    let mut stop: bool = false;
    proof {
        assert(seg_coords(seg, 0) == vals@ + seg_coords(seg, 0));
    }
    while !stop
        invariant
            k <= to - from,
            from <= to <= n,
            n == s@.len(),
            seg == s@.subrange(from as int, to as int),
            !stop ==> seg_coords(seg, 0) == vals@ + seg_coords(seg, k as int),
            stop ==> vals@ == seg_coords(seg, 0),
        decreases to - from - k + (if stop {
            0int
        } else {
            1int
        }),
    {
        let j = find_char_rel(s, from, to, k, ' ', n);
        proof {
            assert(s@.subrange(from + k, from + j) =~= seg.subrange(k as int, j as int));
        }
        let v = parse_i32_exec(s, from + k, from + j, n);
        let ghost pre = vals@;
        if let Some(x) = v {
            vals.push(x);
        }
        proof {
            let this = match parse_i32_field(seg.subrange(k as int, j as int)) {
                Some(x) => seq![x],
                None => Seq::<i32>::empty(),
            };
            assert(vals@ =~= pre + this);
            assert(seg_coords(seg, k as int) == (if j >= seg.len() {
                this
            } else {
                this + seg_coords(seg, j + 1)
            }));
        }
        if j >= to - from {
            stop = true;
            proof {
                assert(vals@ =~= (pre + seg_coords(seg, k as int)));
            }
        } else {
            proof {
                assert(pre + (this_of(seg, k as int, j as int) + seg_coords(seg, j + 1)) =~= (pre
                    + this_of(seg, k as int, j as int)) + seg_coords(seg, j + 1));
            }
            k = j + 1;
        }
    }
    vals
}

/// The one-or-zero-element sequence a token contributes.
pub open spec fn this_of(seg: Seq<char>, k: int, j: int) -> Seq<i32> {
    match parse_i32_field(seg.subrange(k, j)) {
        Some(x) => seq![x],
        None => Seq::<i32>::empty(),
    }
}

/// Parses a semicolon-separated course text into its coordinate pairs
/// (see [`course_pairs`]).
pub fn parse_course_text(s: &str) -> (pairs: Vec<(i32, i32)>)
    ensures
        pairs@ == course_pairs(s@, 0),
{
    let n = s.unicode_len();
    let mut pairs: Vec<(i32, i32)> = Vec::new();
    let mut i: usize = 0;
    let mut stop: bool = false;
    while !stop
        invariant
            i <= n,
            n == s@.len(),
            !stop ==> course_pairs(s@, 0) == pairs@ + course_pairs(s@, i as int),
            stop ==> pairs@ == course_pairs(s@, 0),
        decreases n - i + (if stop {
            0int
        } else {
            1int
        }),
    {
        let j = find_char_rel(s, 0, n, i, ';', n);
        proof {
            assert(s@.subrange(0, n as int) =~= s@);
            assert(find_char(s@, i as int, ';') == j);
        }
        let vals = collect_seg(s, i, j, n);
        let ghost pre = pairs@;
        let ghost cs = seg_coords(s@.subrange(i as int, j as int), 0);
        if vals.len() >= 2 {
            let a = vals[0];
            let b = vals[1];
            pairs.push((a, b));
        }
        proof {
            let this = if cs.len() >= 2 {
                seq![(cs[0], cs[1])]
            } else {
                Seq::<(i32, i32)>::empty()
            };
            assert(pairs@ =~= pre + this);
            assert(course_pairs(s@, i as int) == (if j >= s@.len() {
                this
            } else {
                this + course_pairs(s@, j + 1)
            }));
        }
        if j >= n {
            stop = true;
        } else {
            proof {
                let this = if cs.len() >= 2 {
                    seq![(cs[0], cs[1])]
                } else {
                    Seq::<(i32, i32)>::empty()
                };
                assert(pre + (this + course_pairs(s@, j + 1)) =~= (pre + this) + course_pairs(
                    s@,
                    j + 1,
                ));
            }
            i = j + 1;
        }
    }
    pairs
}

/// One lap's checkpoints from parsed coordinate pairs.
pub open spec fn lap_checkpoints(pairs: Seq<(i32, i32)>) -> Seq<CheckPoint> {
    Seq::new(
        pairs.len(),
        |i: int|
            CheckPoint {
                x: pairs[i].0 as i64,
                y: pairs[i].1 as i64,
                r: CHECKPOINT_RADIUS,
                r2: CHECKPOINT_RADIUS_SQ,
            },
    )
}

/// Lays out the full course described by a semicolon-separated course
/// text.  Returns `None` exactly when the parsed lap cannot start a race:
/// fewer than two checkpoints, a coordinate out of range, or the two
/// checkpoints the terminal would be extrapolated from coincident.
#[verifier::loop_isolation(false)]
pub fn course_from_text(s: &str) -> (r: Option<Vec<CheckPoint>>)
    ensures
        r is Some <==> lap_ok(lap_checkpoints(course_pairs(s@, 0))),
        r is Some ==> r->0@ == full_course(lap_checkpoints(course_pairs(s@, 0))),
        r is Some ==> cps_wf(r->0@) && r->0@.len() >= 7,
{
    let pairs = parse_course_text(s);
    let ghost lap = lap_checkpoints(course_pairs(s@, 0));
    let mut pts: Vec<CheckPoint> = Vec::new();
    let mut i: usize = 0;
    if pairs.len() < 2 {
        return None;
    }
    while i < pairs.len()
        invariant
            i <= pairs@.len(),
            lap == lap_checkpoints(pairs@),
            pts@ =~= lap.take(i as int),
            forall|m: int|
                0 <= m < i ==> -RAW_COORD_LIMIT <= (#[trigger] lap[m]).x <= RAW_COORD_LIMIT
                    && -RAW_COORD_LIMIT <= lap[m].y <= RAW_COORD_LIMIT,
        decreases pairs@.len() - i,
    {
        let (x, y) = pairs[i];
        if x < -1_900_000 || x > 1_900_000 || y < -1_900_000 || y > 1_900_000 {
            proof {
                assert(lap[i as int].x == x as i64 && lap[i as int].y == y as i64);
                assert(!(-RAW_COORD_LIMIT <= lap[i as int].x <= RAW_COORD_LIMIT
                    && -RAW_COORD_LIMIT <= lap[i as int].y <= RAW_COORD_LIMIT));
                assert(!raw_in_range(lap));
            }
            return None;
        }
        pts.push(CheckPoint::from_i64(x as i64, y as i64));
        proof {
            assert(lap.take(i + 1) =~= lap.take(i as int).push(lap[i as int]));
        }
        i = i + 1;
    }
    proof {
        assert(pts@ =~= lap);
        assert(raw_in_range(lap));
        assert(cps_wf(lap));
    }
    let last = pts[pts.len() - 1];
    let first = pts[0];
    if last.x == first.x && last.y == first.y {
        return None;
    }
    Some(build_course(pts))
}

} // verus!
