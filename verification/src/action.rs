//! Control input for one simulated turn: a thrust magnitude and a steering
//! angle delta, with a canonical `"thrust,angle"` text encoding.
//!
//! Parsing is lenient: a missing or invalid numeric field defaults to zero,
//! never failing the whole parse, for compatibility with externally
//! supplied action logs.  Encoding and parsing round-trip exactly for every
//! action value: see [`lemma_action_round_trip`].

use vstd::prelude::*;
use vstd::string::StrSliceExecFns;
use vstd::string::StringExecFns;

verus! {

/// One turn's control input.  `thrust` is a non-negative magnitude; `angle`
/// is a steering delta in degrees.  The action itself may carry an unclamped
/// angle; clamping to `[-18, 18]` is the pod's responsibility.
#[derive(Debug, Clone, Copy, PartialEq, Eq, Structural)]
pub struct Action {
    pub thrust: u8,
    pub angle: i16,
}

/// Whether `c` is an ASCII decimal digit.
pub open spec fn is_digit(c: char) -> bool {
    48 <= c as u32 <= 57
}

/// The numeric value of an ASCII decimal digit.
pub open spec fn digit_val(c: char) -> int {
    c as u32 - 48
}

/// The ASCII digit character for a value in `0..=9`.
pub open spec fn digit_char(n: int) -> char {
    if n == 0 {
        '0'
    } else if n == 1 {
        '1'
    } else if n == 2 {
        '2'
    } else if n == 3 {
        '3'
    } else if n == 4 {
        '4'
    } else if n == 5 {
        '5'
    } else if n == 6 {
        '6'
    } else if n == 7 {
        '7'
    } else if n == 8 {
        '8'
    } else {
        '9'
    }
}

/// Whether every character of `s` is an ASCII decimal digit.
pub open spec fn all_digits(s: Seq<char>) -> bool {
    forall|i: int| 0 <= i < s.len() ==> is_digit(#[trigger] s[i])
}

/// The numeric value of a digit string, most significant digit first.
pub open spec fn digits_val(s: Seq<char>) -> int
    decreases s.len(),
{
    if s.len() == 0 {
        0
    } else {
        digits_val(s.drop_last()) * 10 + digit_val(s.last())
    }
}

/// The canonical decimal representation of `n`, without sign or leading
/// zeros (except for `0` itself).
pub open spec fn dec_rep(n: nat) -> Seq<char>
    decreases n,
{
    if n < 10 {
        seq![digit_char(n as int)]
    } else {
        dec_rep(n / 10).push(digit_char((n % 10) as int))
    }
}

/// The index of the first comma in `s` at or after `i`, or `s.len()` if
/// there is none.
pub open spec fn find_comma(s: Seq<char>, i: int) -> int
    decreases s.len() - i,
{
    if i < 0 || i >= s.len() {
        s.len() as int
    } else if s[i] == ',' {
        i
    } else {
        find_comma(s, i + 1)
    }
}

/// `str::parse::<u8>` on a field: an optional leading plus sign, then one
/// or more decimal digits whose value fits in a `u8`; anything else fails.
pub open spec fn parse_u8_field(s: Seq<char>) -> Option<u8> {
    let body = if s.len() > 0 && s[0] == '+' {
        s.subrange(1, s.len() as int)
    } else {
        s
    };
    if body.len() == 0 {
        None
    } else if !all_digits(body) {
        None
    } else if digits_val(body) > 255 {
        None
    } else {
        Some(digits_val(body) as u8)
    }
}

/// `str::parse::<i16>` on a field: an optional leading plus or minus sign,
/// then one or more decimal digits whose signed value fits in an `i16`.
pub open spec fn parse_i16_field(s: Seq<char>) -> Option<i16> {
    if s.len() == 0 {
        None
    } else if s[0] == '+' || s[0] == '-' {
        let body = s.subrange(1, s.len() as int);
        if body.len() == 0 || !all_digits(body) {
            None
        } else if s[0] == '-' {
            if digits_val(body) > 32768 {
                None
            } else {
                Some((-digits_val(body)) as i16)
            }
        } else {
            if digits_val(body) > 32767 {
                None
            } else {
                Some(digits_val(body) as i16)
            }
        }
    } else if !all_digits(s) {
        None
    } else if digits_val(s) > 32767 {
        None
    } else {
        Some(digits_val(s) as i16)
    }
}

/// The lenient action parse: the text up to the first comma is the thrust
/// field, the text between the first and second commas is the angle field;
/// a missing or invalid field is zero.
pub open spec fn parse_action(s: Seq<char>) -> Action {
    let i1 = find_comma(s, 0);
    let thrust = match parse_u8_field(s.subrange(0, i1)) {
        Some(t) => t,
        None => 0u8,
    };
    let angle = if i1 >= s.len() {
        0i16
    } else {
        let i2 = find_comma(s, i1 + 1);
        match parse_i16_field(s.subrange(i1 + 1, i2)) {
            Some(a) => a,
            None => 0i16,
        }
    };
    Action { thrust, angle }
}

/// The canonical `"thrust,angle"` encoding of an action.
pub open spec fn encode_action(a: Action) -> Seq<char> {
    let angle_rep = if a.angle < 0 {
        seq!['-'] + dec_rep((-a.angle) as nat)
    } else {
        dec_rep(a.angle as nat)
    };
    dec_rep(a.thrust as nat) + seq![','] + angle_rep
}

impl Action {
    /// Builds an action from an explicit thrust and angle.
    pub fn new(thrust: u8, angle: i16) -> (a: Action)
        ensures
            a.thrust == thrust,
            a.angle == angle,
    {
        Action { thrust, angle }
    }

    /// Parses the `"thrust,angle"` text form leniently: a missing or
    /// invalid field defaults to zero.
    pub fn parse(s: &str) -> (a: Action)
        ensures
            a == parse_action(s@),
    {
        let n = s.unicode_len();
        let i1 = find_comma_exec(s, 0, n);
        let thrust = parse_u8_exec(s, 0, i1, n);
        let angle: i16 = if i1 >= n {
            proof {
                assert(parse_action(s@).angle == 0);
            }
            0
        } else {
            let i2 = find_comma_exec(s, i1 + 1, n);
            parse_i16_exec(s, i1 + 1, i2, n)
        };
        Action { thrust, angle }
    }

    /// The canonical `"thrust,angle"` text form.
    pub fn encode(&self) -> (r: String)
        ensures
            r@ == encode_action(*self),
    {
        let mut out = String::new();
        push_dec(&mut out, self.thrust as u32);
        proof {
            reveal_strlit(",");
        }
        out.append(",");
        if self.angle < 0 {
            proof {
                reveal_strlit("-");
            }
            out.append("-");
            let m: i32 = -(self.angle as i32);
            push_dec(&mut out, m as u32);
            proof {
                assert(out@ =~= encode_action(*self));
            }
        } else {
            push_dec(&mut out, self.angle as u32);
            proof {
                assert(out@ =~= encode_action(*self));
            }
        }
        out
    }
}

impl From<&str> for Action {
    /// The lenient parse, as a standard conversion.
    fn from(s: &str) -> (a: Action)
        ensures
            a == parse_action(s@),
    {
        Action::parse(s)
    }
}

impl vstd::std_specs::convert::FromSpecImpl<&str> for Action {
    open spec fn obeys_from_spec() -> bool {
        true
    }

    open spec fn from_spec(s: &str) -> Action {
        parse_action(s@)
    }
}

/// Finds the first comma at or after `from`, scanning forward.
fn find_comma_exec(s: &str, from: usize, n: usize) -> (r: usize)
    requires
        n == s@.len(),
        from <= n,
    ensures
        r == find_comma(s@, from as int),
        from <= r <= n,
{
    let mut i: usize = from;
    while i < n
        invariant
            from <= i <= n,
            n == s@.len(),
            find_comma(s@, from as int) == find_comma(s@, i as int),
        decreases n - i,
    {
        let c = s.get_char(i);
        if c == ',' {
            return i;
        }
        i = i + 1;
    }
    n
}

/// Scans `s[from..to]`: whether every character is a digit, whether the
/// value exceeds the 65535 cap, and the exact value when it does not.
fn scan_digits(s: &str, from: usize, to: usize, n: usize) -> (r: (bool, bool, u32))
    requires
        n == s@.len(),
        from <= to <= n,
    ensures
        r.0 == all_digits(s@.subrange(from as int, to as int)),
        r.0 ==> (r.1 <==> digits_val(s@.subrange(from as int, to as int)) > 65535),
        r.0 && !r.1 ==> r.2 == digits_val(s@.subrange(from as int, to as int)) && r.2 <= 65535,
{
    let ghost field = s@.subrange(from as int, to as int);
    let mut i: usize = from;
    let mut val: u32 = 0;
    let mut big: bool = false;
    proof {
        assert(field.take(0) =~= Seq::<char>::empty());
    }
    while i < to
        invariant
            from <= i <= to <= n,
            n == s@.len(),
            field == s@.subrange(from as int, to as int),
            all_digits(field.take(i - from)),
            !big ==> val == digits_val(field.take(i - from)) && val <= 65535,
            big ==> digits_val(field.take(i - from)) > 65535,
        decreases to - i,
    {
        let c = s.get_char(i);
        let cu = c as u32;
        if cu < 48 || cu > 57 {
            proof {
                assert(field[i - from] == s@[i as int]);
                assert(!is_digit(field[i - from]));
            }
            return (false, false, 0);
        }
        let d: u32 = cu - 48;
        proof {
            assert(field.take(i - from + 1).drop_last() =~= field.take(i - from));
            assert(field.take(i - from + 1).last() == s@[i as int]);
        }
        if big {
            proof {
                assert(digits_val(field.take(i - from + 1)) > 65535);
            }
        } else {
            let nv: u32 = val * 10 + d;
            if nv > 65535 {
                big = true;
                val = 0;
            } else {
                val = nv;
            }
        }
        i = i + 1;
    }
    proof {
        assert(field.take(to - from) =~= field);
    }
    (true, big, val)
}

/// Parses `s[from..to]` as `str::parse::<u8>` does, defaulting to zero on
/// failure.
fn parse_u8_exec(s: &str, from: usize, to: usize, n: usize) -> (r: u8)
    requires
        n == s@.len(),
        from <= to <= n,
    ensures
        r == (match parse_u8_field(s@.subrange(from as int, to as int)) {
            Some(t) => t,
            None => 0u8,
        }),
{
    let ghost field = s@.subrange(from as int, to as int);
    let mut bf: usize = from;
    if to > from {
        let c = s.get_char(from);
        if c == '+' {
            bf = from + 1;
        }
    }
    proof {
        assert(s@.subrange(bf as int, to as int) =~= (if field.len() > 0 && field[0] == '+' {
            field.subrange(1, field.len() as int)
        } else {
            field
        }));
    }
    if bf >= to {
        return 0;
    }
    let (ok, big, val) = scan_digits(s, bf, to, n);
    if !ok || big || val > 255 {
        0
    } else {
        val as u8
    }
}

/// Parses `s[from..to]` as `str::parse::<i16>` does, defaulting to zero on
/// failure.
fn parse_i16_exec(s: &str, from: usize, to: usize, n: usize) -> (r: i16)
    requires
        n == s@.len(),
        from <= to <= n,
    ensures
        r == (match parse_i16_field(s@.subrange(from as int, to as int)) {
            Some(a) => a,
            None => 0i16,
        }),
{
    let ghost field = s@.subrange(from as int, to as int);
    if to == from {
        return 0;
    }
    let c0 = s.get_char(from);
    let signed = c0 == '+' || c0 == '-';
    let bf: usize = if signed {
        from + 1
    } else {
        from
    };
    proof {
        if signed {
            assert(s@.subrange(bf as int, to as int) =~= field.subrange(1, field.len() as int));
        } else {
            assert(s@.subrange(bf as int, to as int) =~= field);
        }
    }
    if bf >= to {
        return 0;
    }
    let (ok, big, val) = scan_digits(s, bf, to, n);
    if !ok || big {
        return 0;
    }
    if c0 == '-' {
        if val > 32768 {
            0
        } else {
            (-(val as i32)) as i16
        }
    } else {
        if val > 32767 {
            0
        } else {
            val as i16
        }
    }
}

/// Appends the single ASCII digit for `d` to `out`.
fn append_digit(out: &mut String, d: u32)
    requires
        d < 10,
    ensures
        final(out)@ == old(out)@ + seq![digit_char(d as int)],
{
    proof {
        reveal_strlit("0");
        reveal_strlit("1");
        reveal_strlit("2");
        reveal_strlit("3");
        reveal_strlit("4");
        reveal_strlit("5");
        reveal_strlit("6");
        reveal_strlit("7");
        reveal_strlit("8");
        reveal_strlit("9");
    }
    match d {
        0 => out.append("0"),
        1 => out.append("1"),
        2 => out.append("2"),
        3 => out.append("3"),
        4 => out.append("4"),
        5 => out.append("5"),
        6 => out.append("6"),
        7 => out.append("7"),
        8 => out.append("8"),
        _ => out.append("9"),
    }
    proof {
        assert(final(out)@ =~= old(out)@ + seq![digit_char(d as int)]);
    }
}

/// Appends the canonical decimal representation of `n` to `out`.
fn push_dec(out: &mut String, n: u32)
    ensures
        final(out)@ == old(out)@ + dec_rep(n as nat),
    decreases n,
{
    if n < 10 {
        append_digit(out, n);
    } else {
        push_dec(out, n / 10);
        append_digit(out, n % 10);
        proof {
            assert(final(out)@ =~= old(out)@ + dec_rep(n as nat));
        }
    }
}

/// The decimal representation is nonempty, consists of digits alone, and
/// reads back to its own value.
pub proof fn lemma_dec_rep_props(n: nat)
    ensures
        dec_rep(n).len() >= 1,
        all_digits(dec_rep(n)),
        digits_val(dec_rep(n)) == n,
    decreases n,
{
    if n < 10 {
        assert(dec_rep(n) =~= seq![digit_char(n as int)]);
        assert(digits_val(dec_rep(n)) == digits_val(seq![digit_char(n as int)].drop_last()) * 10
            + digit_val(digit_char(n as int)));
        assert(seq![digit_char(n as int)].drop_last() =~= Seq::<char>::empty());
    } else {
        lemma_dec_rep_props(n / 10);
        let s = dec_rep(n / 10);
        let c = digit_char((n % 10) as int);
        assert(s.push(c).drop_last() =~= s);
        assert(s.push(c).last() == c);
        assert(forall|i: int|
            0 <= i < s.push(c).len() ==> is_digit(#[trigger] s.push(c)[i])) by {
            assert(forall|i: int| 0 <= i < s.len() ==> is_digit(#[trigger] s[i]));
        }
        assert(digits_val(s.push(c)) == (n / 10) * 10 + (n % 10));
        assert((n / 10) * 10 + (n % 10) == n) by (nonlinear_arith);
    }
}

/// If no character of `s` at or after `i` is a comma, the search runs to
/// the end.
proof fn lemma_find_comma_none(s: Seq<char>, i: int)
    requires
        forall|j: int| i <= j < s.len() ==> s[j] != ',',
    ensures
        find_comma(s, i) == s.len(),
    decreases s.len() - i,
{
    if 0 <= i < s.len() {
        lemma_find_comma_none(s, i + 1);
    }
}

/// If no character in `[i, k)` is a comma and `s[k]` is one, the search
/// from `i` finds exactly `k`.
proof fn lemma_find_comma_at(s: Seq<char>, i: int, k: int)
    requires
        0 <= i <= k < s.len(),
        forall|j: int| i <= j < k ==> s[j] != ',',
        s[k] == ',',
    ensures
        find_comma(s, i) == k,
    decreases k - i,
{
    if i < k {
        lemma_find_comma_at(s, i + 1, k);
    }
}

/// Round-trip law: encoding any action to its text form and re-parsing it
/// yields an equal action, for every representable thrust and angle.
pub proof fn lemma_action_round_trip(a: Action)
    ensures
        parse_action(encode_action(a)) == a,
{
    let e = encode_action(a);
    let t = dec_rep(a.thrust as nat);
    let angle_rep = if a.angle < 0 {
        seq!['-'] + dec_rep((-a.angle) as nat)
    } else {
        dec_rep(a.angle as nat)
    };
    lemma_dec_rep_props(a.thrust as nat);
    if a.angle < 0 {
        lemma_dec_rep_props((-a.angle) as nat);
    } else {
        lemma_dec_rep_props(a.angle as nat);
    }
    let k = t.len() as int;
    assert(e[k] == ',');
    assert(forall|j: int| 0 <= j < k ==> is_digit(#[trigger] e[j]) && e[j] != ',') by {
        assert(forall|j: int| 0 <= j < k ==> e[j] == t[j] && is_digit(#[trigger] t[j]));
    }
    lemma_find_comma_at(e, 0, k);
    assert(e.subrange(0, k) =~= t);
    assert(parse_u8_field(t) == Some(a.thrust)) by {
        assert(is_digit(t[0]) ==> t[0] != '+');
        assert(digits_val(t) == a.thrust as int);
    }
    // No comma occurs after the separator: the angle field is a minus sign
    // and digits, or digits alone.
    assert(forall|j: int| k + 1 <= j < e.len() ==> #[trigger] e[j] != ',') by {
        assert(forall|j: int|
            0 <= j < angle_rep.len() ==> (is_digit(#[trigger] angle_rep[j]) || angle_rep[j] == '-'));
        assert(forall|j: int| k + 1 <= j < e.len() ==> #[trigger] e[j] == angle_rep[j - k - 1]);
    }
    lemma_find_comma_none(e, k + 1);
    assert(e.subrange(k + 1, e.len() as int) =~= angle_rep);
    if a.angle < 0 {
        assert(angle_rep[0] == '-');
        assert(angle_rep.subrange(1, angle_rep.len() as int) =~= dec_rep((-a.angle) as nat));
        assert(digits_val(dec_rep((-a.angle) as nat)) == -a.angle);
        assert(parse_i16_field(angle_rep) == Some(a.angle));
    } else {
        assert(is_digit(angle_rep[0]) && angle_rep[0] != '+' && angle_rep[0] != '-');
        assert(digits_val(angle_rep) == a.angle as int);
        assert(parse_i16_field(angle_rep) == Some(a.angle));
    }
    assert(parse_action(e).thrust == a.thrust);
    assert(parse_action(e).angle == a.angle);
}

} // verus!
