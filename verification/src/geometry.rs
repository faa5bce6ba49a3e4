//! The geometry of the settings window: where it is put when no geometry
//! is saved, and the reading of a saved one, `x,y,width,height` in physical
//! pixels.

use vstd::prelude::*;
use crate::text::{chars_of, leading_end, trailing_start, trimmed, Strip};

verus! {

/// The value of a decimal digit.
pub open spec fn digit_value(c: char) -> Option<int> {
    if '0' <= c && c <= '9' {
        Some(c as int - '0' as int)
    } else {
        None
    }
}

/// The value of a numeral made of one or more decimal digits.
pub open spec fn digits_value(s: Seq<char>) -> Option<int>
    decreases s.len(),
{
    if s.len() == 0 {
        None
    } else if s.len() == 1 {
        digit_value(s[0])
    } else {
        match (digits_value(s.drop_last()), digit_value(s.last())) {
            (Some(a), Some(d)) => Some(10 * a + d),
            _ => None,
        }
    }
}

/// The value of a numeral with an optional sign: `+` always, `-` where
/// `signed` is set.
pub open spec fn number_value(s: Seq<char>, signed: bool) -> Option<int> {
    if s.len() > 0 && s[0] == '+' {
        digits_value(s.drop_first())
    } else if signed && s.len() > 0 && s[0] == '-' {
        match digits_value(s.drop_first()) {
            Some(v) => Some(-v),
            None => None,
        }
    } else {
        digits_value(s)
    }
}

/// The positions of the separators in `s`, ascending.
pub open spec fn cuts(s: Seq<char>, sep: char) -> Seq<int>
    decreases s.len(),
{
    if s.len() == 0 {
        Seq::empty()
    } else if s.last() == sep {
        cuts(s.drop_last(), sep).push(s.len() - 1)
    } else {
        cuts(s.drop_last(), sep)
    }
}

/// The `k`-th of the fields that the separators at `at` cut `s` into.
pub open spec fn field(s: Seq<char>, at: Seq<int>, k: int) -> Seq<char> {
    s.subrange(
        if k == 0 {
            0
        } else {
            at[k - 1] + 1
        },
        if k == at.len() {
            s.len() as int
        } else {
            at[k]
        },
    )
}

/// The number in a field, white space around it passed over.
pub open spec fn field_value(s: Seq<char>, k: int, signed: bool) -> Option<int> {
    number_value(trimmed(field(s, cuts(s, ','), k)), signed)
}

/// The geometry that a text gives: four fields, a position in the range of
/// `i32` and a size in the range of `u32` with neither side 0.
pub open spec fn geometry_of(s: Seq<char>) -> Option<(int, int, int, int)> {
    let x = field_value(s, 0, true);
    let y = field_value(s, 1, true);
    let w = field_value(s, 2, false);
    let h = field_value(s, 3, false);
    if cuts(s, ',').len() == 3 && x is Some && y is Some && w is Some && h is Some && i32::MIN
        <= x->0 <= i32::MAX && i32::MIN <= y->0 <= i32::MAX && 0 < w->0 <= u32::MAX && 0 < h->0
        <= u32::MAX {
        Some((x->0, y->0, w->0, h->0))
    } else {
        None
    }
}

/// The cuts lie in the text, each behind the one before.
proof fn lemma_cuts(s: Seq<char>, sep: char)
    ensures
        forall|k: int| 0 <= k < cuts(s, sep).len() ==> 0 <= #[trigger] cuts(s, sep)[k] < s.len(),
        forall|j: int, k: int|
            0 <= j < k < cuts(s, sep).len() ==> #[trigger] cuts(s, sep)[j] < #[trigger] cuts(
                s,
                sep,
            )[k],
    decreases s.len(),
{
    if s.len() > 0 {
        let rest = cuts(s.drop_last(), sep);
        lemma_cuts(s.drop_last(), sep);
        assert forall|k: int| 0 <= k < cuts(s, sep).len() implies 0 <= #[trigger] cuts(s, sep)[k]
            < s.len() by {
            if k < rest.len() {
                assert(cuts(s, sep)[k] == rest[k]);
            }
        }
        assert forall|j: int, k: int| 0 <= j < k < cuts(s, sep).len() implies #[trigger] cuts(
            s,
            sep,
        )[j] < #[trigger] cuts(s, sep)[k] by {
            assert(cuts(s, sep)[j] == rest[j]);
            if k < rest.len() {
                assert(cuts(s, sep)[k] == rest[k]);
            }
        }
    }
}

/// A numeral is at least as large as each of its beginnings.
proof fn lemma_digits_grow(s: Seq<char>, k: int)
    requires
        0 < k <= s.len(),
        digits_value(s) is Some,
    ensures
        digits_value(s.take(k)) is Some,
        0 <= digits_value(s.take(k))->0 <= digits_value(s)->0,
    decreases s.len(),
{
    if s.len() == 1 {
        assert(s.take(k) =~= s);
    } else if k == s.len() {
        assert(s.take(k) =~= s);
        lemma_digits_grow(s.drop_last(), k - 1);
        assert(s.drop_last().take(k - 1) =~= s.drop_last());
    } else {
        lemma_digits_grow(s.drop_last(), k);
        assert(s.drop_last().take(k) =~= s.take(k));
    }
}

fn digit_of(c: char) -> (d: Option<u64>)
    ensures
        d is Some == digit_value(c) is Some,
        d is Some ==> d->0 == digit_value(c)->0 && d->0 <= 9,
{
    if c == '0' {
        Some(0)
    } else if c == '1' {
        Some(1)
    } else if c == '2' {
        Some(2)
    } else if c == '3' {
        Some(3)
    } else if c == '4' {
        Some(4)
    } else if c == '5' {
        Some(5)
    } else if c == '6' {
        Some(6)
    } else if c == '7' {
        Some(7)
    } else if c == '8' {
        Some(8)
    } else if c == '9' {
        Some(9)
    } else {
        None
    }
}

/// Above this no number of a geometry lies.
const CEILING: u64 = 4294967296;

/// The value of the digits `v[from..to]`, unless there is none or it lies
/// above the ceiling.
fn parse_digits(v: &Vec<char>, from: usize, to: usize) -> (r: Option<u64>)
    requires
        from <= to <= v.len(),
    ensures
        r is Some ==> digits_value(v@.subrange(from as int, to as int)) == Some(r->0 as int)
            && r->0 <= CEILING,
        r is None ==> digits_value(v@.subrange(from as int, to as int)) is None || digits_value(
            v@.subrange(from as int, to as int),
        )->0 > CEILING,
{
    let ghost s = v@.subrange(from as int, to as int);
    if from == to {
        return None;
    }
    let mut acc: u64 = match digit_of(v[from]) {
        Some(d) => d,
        None => {
            proof {
                if digits_value(s) is Some {
                    lemma_digits_grow(s, 1);
                    assert(s.take(1)[0] == v@[from as int]);
                }
            }
            return None;
        },
    };
    let mut i: usize = from + 1;
    assert(s.take(1) =~= v@.subrange(from as int, from + 1));
    while i < to
        invariant
            from < i <= to <= v.len(),
            s == v@.subrange(from as int, to as int),
            digits_value(s.take(i - from)) == Some(acc as int),
            acc <= CEILING,
        decreases to - i,
    {
        let ghost before = s.take(i - from);
        let ghost now = s.take(i + 1 - from);
        proof {
            assert(now.drop_last() =~= before);
            assert(now.last() == v@[i as int]);
        }
        match digit_of(v[i]) {
            Some(d) => {
                if acc * 10 + d > CEILING {
                    proof {
                        if digits_value(s) is Some {
                            lemma_digits_grow(s, i + 1 - from);
                        }
                    }
                    return None;
                }
                acc = acc * 10 + d;
            },
            None => {
                proof {
                    if digits_value(s) is Some {
                        lemma_digits_grow(s, i + 1 - from);
                    }
                }
                return None;
            },
        }
        i += 1;
    }
    assert(s.take(to - from) =~= s);
    Some(acc)
}

/// The number in `v[from..to]`, white space around it passed over, where it
/// lies between `-below` and `above`.
fn parse_field(v: &Vec<char>, from: usize, to: usize, signed: bool, below: u64, above: u64) -> (r:
    Option<i64>)
    requires
        from <= to <= v.len(),
        below <= CEILING,
        above <= CEILING,
    ensures
        r == match number_value(trimmed(v@.subrange(from as int, to as int)), signed) {
            Some(n) => if -below <= n <= above {
                Some(n as i64)
            } else {
                None
            },
            None => None,
        },
{
    let a = leading_end(v, from, to, Strip::Space);
    let b = trailing_start(v, a, to, Strip::Space);
    let ghost t = v@.subrange(a as int, b as int);
    assert(t == trimmed(v@.subrange(from as int, to as int)));
    if a < b && (v[a] == '+' || (signed && v[a] == '-')) {
        let negative = v[a] == '-';
        assert(t.drop_first() =~= v@.subrange(a + 1, b as int));
        match parse_digits(v, a + 1, b) {
            Some(n) => {
                if negative {
                    if n <= below {
                        Some(-(n as i64))
                    } else {
                        None
                    }
                } else if n <= above {
                    Some(n as i64)
                } else {
                    None
                }
            },
            None => None,
        }
    } else {
        match parse_digits(v, a, b) {
            Some(n) => if n <= above {
                Some(n as i64)
            } else {
                None
            },
            None => None,
        }
    }
}

/// The positions of the commas in `v`.
fn find_cuts(v: &Vec<char>) -> (at: Vec<usize>)
    ensures
        at@.len() == cuts(v@, ',').len(),
        forall|k: int| 0 <= k < at@.len() ==> #[trigger] at@[k] as int == cuts(v@, ',')[k],
        forall|k: int| 0 <= k < at@.len() ==> #[trigger] at@[k] < v.len(),
        forall|j: int, k: int| 0 <= j < k < at@.len() ==> #[trigger] at@[j] < #[trigger] at@[k],
{
    let mut at: Vec<usize> = Vec::new();
    let mut i: usize = 0;
    while i < v.len()
        invariant
            i <= v.len(),
            at@.len() == cuts(v@.take(i as int), ',').len(),
            forall|k: int|
                0 <= k < at@.len() ==> #[trigger] at@[k] as int == cuts(v@.take(i as int), ',')[k],
        decreases v.len() - i,
    {
        assert(v@.take(i + 1).drop_last() =~= v@.take(i as int));
        if v[i] == ',' {
            at.push(i);
        }
        i += 1;
    }
    proof {
        assert(v@.take(v.len() as int) =~= v@);
        lemma_cuts(v@, ',');
    }
    at
}

/// Reads a saved geometry: position and size, or nothing where the text
/// does not give four numbers in range or a side of the size is 0.
pub fn parse_geometry(s: &str) -> (r: Option<(i32, i32, u32, u32)>)
    ensures
        match r {
            Some(g) => geometry_of(s@) == Some((g.0 as int, g.1 as int, g.2 as int, g.3 as int)),
            None => geometry_of(s@) is None,
        },
{
    let v = chars_of(s);
    let at = find_cuts(&v);
    if at.len() != 3 {
        return None;
    }
    let a = at[0];
    let b = at[1];
    let c = at[2];
    proof {
        let ghost at_spec = cuts(v@, ',');
        assert(at_spec[0] == a && at_spec[1] == b && at_spec[2] == c);
        assert(a < b < c < v.len());
        assert(field(v@, at_spec, 0) == v@.subrange(0, a as int));
        assert(field(v@, at_spec, 1) == v@.subrange(a + 1, b as int));
        assert(field(v@, at_spec, 2) == v@.subrange(b + 1, c as int));
        assert(field(v@, at_spec, 3) == v@.subrange(c + 1, v.len() as int));
    }
    let x = parse_field(&v, 0, a, true, 2147483648, 2147483647);
    let y = parse_field(&v, a + 1, b, true, 2147483648, 2147483647);
    let w = parse_field(&v, b + 1, c, false, 0, 4294967295);
    let h = parse_field(&v, c + 1, v.len(), false, 0, 4294967295);
    match (x, y, w, h) {
        (Some(x), Some(y), Some(w), Some(h)) => {
            if w == 0 || h == 0 {
                None
            } else {
                Some((x as i32, y as i32, w as u32, h as u32))
            }
        },
        _ => None,
    }
}

/// Width of the settings window where none is saved.
pub const DEFAULT_SETTINGS_WIDTH: u32 = 520;

/// Height of the settings window where none is saved.
pub const DEFAULT_SETTINGS_HEIGHT: u32 = 640;

/// Distance that the settings window keeps from the edges of the work area.
pub const TRAY_SIDE_MARGIN: i32 = 16;

/// `n`, or the nearest number in the range of `i32`.
pub open spec fn within_i32(n: int) -> int {
    if n < i32::MIN {
        i32::MIN as int
    } else if n > i32::MAX {
        i32::MAX as int
    } else {
        n
    }
}

/// Where the settings window goes in a work area at `(x, y)` of size
/// `(w, h)`: to the right, a margin from the edge, but not left of the work
/// area; and a margin from the top, but no lower than the window fits.
pub open spec fn default_position(x: int, y: int, w: int, h: int) -> (int, int) {
    let right = x + w - DEFAULT_SETTINGS_WIDTH - TRAY_SIDE_MARGIN;
    let low = y + h - DEFAULT_SETTINGS_HEIGHT;
    (
        if right > x {
            right
        } else {
            x
        },
        if y + TRAY_SIDE_MARGIN < low {
            y + TRAY_SIDE_MARGIN
        } else {
            low
        },
    )
}

fn into_i32(n: i64) -> (r: i32)
    ensures
        r == within_i32(n as int),
{
    if n < -2147483648 {
        -2147483648
    } else if n > 2147483647 {
        2147483647
    } else {
        n as i32
    }
}

/// Where the settings window is put when no geometry is saved, for the
/// work area of the primary monitor.
pub fn default_window_position(wa_x: i32, wa_y: i32, wa_w: u32, wa_h: u32) -> (r: (i32, i32))
    ensures
        r.0 == within_i32(default_position(wa_x as int, wa_y as int, wa_w as int, wa_h as int).0),
        r.1 == within_i32(default_position(wa_x as int, wa_y as int, wa_w as int, wa_h as int).1),
{
    let x = wa_x as i64;
    let y = wa_y as i64;
    let right = x + wa_w as i64 - DEFAULT_SETTINGS_WIDTH as i64 - TRAY_SIDE_MARGIN as i64;
    let low = y + wa_h as i64 - DEFAULT_SETTINGS_HEIGHT as i64;
    let px = if right > x {
        right
    } else {
        x
    };
    let py = if y + (TRAY_SIDE_MARGIN as i64) < low {
        y + TRAY_SIDE_MARGIN as i64
    } else {
        low
    };
    (into_i32(px), into_i32(py))
}

} // verus!
