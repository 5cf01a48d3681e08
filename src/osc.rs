//! Operating System Command (OSC) sequences in terminal input: finding them,
//! and reading the palette reports that answer OSC 4, 10 and 11 queries.
//!
//! A palette report payload is `4;<index>;rgb:<r>/<g>/<b>` for one of the 16
//! base colors, or `10;rgb:...` (foreground) / `11;rgb:...` (background).
//! Each component has 2 or 4 hex digits; 4-digit ones are rounded to 8 bits.
//! A component of another length, or one that is not a hex number, is left
//! out.

use vstd::prelude::*;
use crate::oklab::StraightRgba;

verus! {

pub const ESC: u8 = 0x1b;
pub const BEL: u8 = 0x07;

/// The first index in `[i, b)` holding `sep`, or `b`.
pub open spec fn find_in(s: Seq<u8>, sep: u8, i: int, b: int) -> int
    decreases b - i,
{
    if i >= b {
        b
    } else if s[i] == sep {
        i
    } else {
        find_in(s, sep, i + 1, b)
    }
}

/// Where the field after the one ending at `e` starts, within `[.., b)`.
pub open spec fn after(e: int, b: int) -> int {
    if e < b {
        e + 1
    } else {
        b
    }
}

pub open spec fn is_digit(c: u8) -> bool {
    0x30 <= c <= 0x39
}

pub open spec fn hex_digit_value(c: u8) -> int {
    if 0x30 <= c <= 0x39 {
        c - 0x30
    } else if 0x61 <= c <= 0x66 {
        c - 0x61 + 10
    } else if 0x41 <= c <= 0x46 {
        c - 0x41 + 10
    } else {
        -1
    }
}

/// Where the digits of the number in `[i, j)` start: past an optional `+`.
pub open spec fn digits_start(s: Seq<u8>, i: int, j: int) -> int {
    if i < j && s[i] == 0x2B {
        i + 1
    } else {
        i
    }
}

/// `[i, j)` holds an unsigned number in base `radix` (10 or 16) as Rust's
/// integer parsing reads it: an optional `+`, then at least one digit.
pub open spec fn is_number(s: Seq<u8>, i: int, j: int, radix: int) -> bool {
    let d = digits_start(s, i, j);
    &&& d < j
    &&& forall|k: int|
        d <= k < j ==> if radix == 10 {
            is_digit(#[trigger] s[k])
        } else {
            hex_digit_value(s[k]) >= 0
        }
}

/// The value of the digits in `[i, j)`, in base `radix`.
pub open spec fn digits_value(s: Seq<u8>, i: int, j: int, radix: int) -> int
    decreases j - i,
{
    if j <= i {
        0
    } else {
        digits_value(s, i, j - 1, radix) * radix + hex_digit_value(s[j - 1])
    }
}

/// The value of the number in `[i, j)`.
pub open spec fn number_value(s: Seq<u8>, i: int, j: int, radix: int) -> int {
    digits_value(s, digits_start(s, i, j), j, radix)
}

/// The 8-bit value of the color component in `[c, e)`, if it has one.
pub open spec fn component(s: Seq<u8>, c: int, e: int) -> Option<u32> {
    if (e - c == 2 || e - c == 4) && is_number(s, c, e, 16) {
        let v = number_value(s, c, e, 16);
        Some((if e - c == 4 { (v * 0xff + 0x7fff) / 0xffff } else { v }) as u32)
    } else {
        None
    }
}

/// Shifts a component in from the top: after three, `0x00BBGGRR`.
pub open spec fn fold_rgb(rgb: u32, comp: Option<u32>) -> u32 {
    match comp {
        Some(v) => (rgb >> 8u32) | (v << 16u32),
        None => rgb,
    }
}

/// The color written `rgb:<r>/<g>/<b>` in `[a, b)`, read from after `rgb:`.
pub open spec fn rgb_value(s: Seq<u8>, a: int, b: int) -> u32 {
    let c0 = a + 4;
    let e0 = find_in(s, 0x2F, c0, b);
    let c1 = after(e0, b);
    let e1 = find_in(s, 0x2F, c1, b);
    let c2 = after(e1, b);
    let e2 = find_in(s, 0x2F, c2, b);
    fold_rgb(fold_rgb(fold_rgb(0, component(s, c0, e0)), component(s, c1, e1)), component(s, c2, e2))
}

pub open spec fn starts_rgb(s: Seq<u8>, a: int, b: int) -> bool {
    &&& b - a >= 4
    &&& s[a] == 0x72
    &&& s[a + 1] == 0x67
    &&& s[a + 2] == 0x62
    &&& s[a + 3] == 0x3A
}

/// The field `[i, j)` is exactly the ASCII text `t`.
pub open spec fn field_is(s: Seq<u8>, i: int, j: int, t: Seq<u8>) -> bool {
    j - i == t.len() && forall|k: int| 0 <= k < t.len() ==> s[i + k] == #[trigger] t[k]
}

/// The palette slot and color that the report payload `s` sets, if any.
pub open spec fn color_report(s: Seq<u8>) -> Option<(usize, StraightRgba)> {
    let n = s.len() as int;
    let e0 = find_in(s, 0x3B, 0, n);
    let start1 = after(e0, n);
    let e1 = find_in(s, 0x3B, start1, n);
    let start2 = after(e1, n);
    let e2 = find_in(s, 0x3B, start2, n);
    let target: Option<(int, int, int)> = if field_is(s, 0, e0, seq![0x34u8]) {
        if is_number(s, start1, e1, 10) && number_value(s, start1, e1, 10) < 16 {
            Some((number_value(s, start1, e1, 10), start2, e2))
        } else {
            None
        }
    } else if field_is(s, 0, e0, seq![0x31u8, 0x30u8]) {
        Some((17, start1, e1))
    } else if field_is(s, 0, e0, seq![0x31u8, 0x31u8]) {
        Some((16, start1, e1))
    } else {
        None
    };
    match target {
        Some((idx, a, b)) => if starts_rgb(s, a, b) {
            Some((idx as usize, StraightRgba(rgb_value(s, a, b) | 0xff000000u32)))
        } else {
            None
        },
        None => None,
    }
}

fn find_byte(s: &[u8], sep: u8, i: usize, b: usize) -> (r: usize)
    requires
        i <= b <= s@.len(),
    ensures
        r == find_in(s@, sep, i as int, b as int),
        i <= r <= b,
{
    let mut k: usize = i;
    while k < b && s[k] != sep
        invariant
            i <= k <= b <= s@.len(),
            find_in(s@, sep, k as int, b as int) == find_in(s@, sep, i as int, b as int),
        decreases b - k,
    {
        k = k + 1;
    }
    k
}

fn after_exec(e: usize, b: usize) -> (r: usize)
    requires
        e <= b,
    ensures
        r == after(e as int, b as int),
        r <= b,
{
    if e < b {
        e + 1
    } else {
        b
    }
}

fn hex_value_of(c: u8) -> (r: i32)
    ensures
        r == hex_digit_value(c),
{
    if c >= 0x30 && c <= 0x39 {
        (c - 0x30) as i32
    } else if c >= 0x61 && c <= 0x66 {
        (c - 0x61 + 10) as i32
    } else if c >= 0x41 && c <= 0x46 {
        (c - 0x41 + 10) as i32
    } else {
        -1
    }
}

proof fn lemma_digits_value_bounds(s: Seq<u8>, i: int, j: int, radix: int)
    requires
        i <= j,
        radix == 10 || radix == 16,
        forall|k: int| i <= k < j ==> 0 <= #[trigger] hex_digit_value(s[k]) < radix,
    ensures
        0 <= digits_value(s, i, j, radix),
    decreases j - i,
{
    if j > i {
        lemma_digits_value_bounds(s, i, j - 1, radix);
    }
}

/// The number in `[i, j)`, in base `radix`, capped at `cap`; `None` when
/// `[i, j)` is not a number.
fn parse_number(s: &[u8], i: usize, j: usize, radix: u32, cap: u32) -> (r: Option<u32>)
    requires
        i <= j <= s@.len(),
        radix == 10 || radix == 16,
        1 <= cap <= 0x10000,
    ensures
        r is Some <==> is_number(s@, i as int, j as int, radix as int),
        r matches Some(v) ==> v == if number_value(s@, i as int, j as int, radix as int)
            < cap {
            number_value(s@, i as int, j as int, radix as int)
        } else {
            cap as int
        },
{
    let d: usize = if i < j && s[i] == 0x2B { i + 1 } else { i };
    if d >= j {
        return None;
    }
    let mut k: usize = d;
    let mut v: u32 = 0;
    while k < j
        invariant
            d <= k <= j <= s@.len(),
            radix == 10 || radix == 16,
            1 <= cap <= 0x10000,
            d == digits_start(s@, i as int, j as int),
            forall|m: int|
                d <= m < k ==> if radix == 10 {
                    is_digit(#[trigger] s@[m])
                } else {
                    hex_digit_value(s@[m]) >= 0
                },
            forall|m: int| d <= m < k ==> 0 <= #[trigger] hex_digit_value(s@[m]) < radix,
            v == if digits_value(s@, d as int, k as int, radix as int) < cap {
                digits_value(s@, d as int, k as int, radix as int)
            } else {
                cap as int
            },
        decreases j - k,
    {
        let c = s[k];
        let dv = hex_value_of(c);
        if radix == 10 {
            if !(c >= 0x30 && c <= 0x39) {
                return None;
            }
        } else if dv < 0 {
            return None;
        }
        proof {
            lemma_digits_value_bounds(s@, d as int, k as int, radix as int);
            let x = digits_value(s@, d as int, k as int, radix as int);
            let y = x * (radix as int) + dv;
            assert(digits_value(s@, d as int, k + 1, radix as int) == y);
            assert(0 <= x * (radix as int)) by (nonlinear_arith)
                requires
                    0 <= x,
                    radix == 10 || radix == 16,
            ;
            if x >= cap {
                assert(y >= cap) by (nonlinear_arith)
                    requires
                        y == x * (radix as int) + dv,
                        x >= cap,
                        cap >= 1,
                        radix == 10 || radix == 16,
                        0 <= dv,
                ;
            }
        }
        assert(0 <= dv < 16 && v <= 0x10000);
        assert((v as int) * (radix as int) <= 0x100000) by (nonlinear_arith)
            requires
                v <= 0x10000,
                radix == 10 || radix == 16,
        ;
        let next: u64 = (v as u64) * (radix as u64) + (dv as u64);
        v = if next < cap as u64 { next as u32 } else { cap };
        k = k + 1;
    }
    Some(v)
}

/// The 8-bit value of the color component in `[c, e)`.
fn component_of(s: &[u8], c: usize, e: usize) -> (r: Option<u32>)
    requires
        c <= e <= s@.len(),
    ensures
        r == component(s@, c as int, e as int),
{
    let n = e - c;
    if n != 2 && n != 4 {
        return None;
    }
    match parse_number(s, c, e, 16, 0x10000) {
        Some(v) => {
            proof {
                let d = digits_start(s@, c as int, e as int);
                lemma_digits_value_bounds(s@, d, e as int, 16);
                lemma_four_hex_digits(s@, d, e as int);
            }
            if n == 4 {
                assert(v * 0xff + 0x7fff <= u32::MAX);
                Some((v * 0xff + 0x7fff) / 0xffff)
            } else {
                Some(v)
            }
        },
        None => None,
    }
}

proof fn lemma_four_hex_digits(s: Seq<u8>, i: int, j: int)
    requires
        i <= j <= i + 4,
        forall|k: int| i <= k < j ==> 0 <= #[trigger] hex_digit_value(s[k]) < 16,
    ensures
        j - i <= 1 ==> digits_value(s, i, j, 16) < 0x10,
        j - i <= 2 ==> digits_value(s, i, j, 16) < 0x100,
        j - i <= 3 ==> digits_value(s, i, j, 16) < 0x1000,
        digits_value(s, i, j, 16) < 0x10000,
    decreases j - i,
{
    if j > i {
        lemma_four_hex_digits(s, i, j - 1);
        lemma_digits_value_bounds(s, i, j - 1, 16);
        let x = digits_value(s, i, j - 1, 16);
        let d = hex_digit_value(s[j - 1]);
        assert(digits_value(s, i, j, 16) == x * 16 + d);
        assert(0 <= d < 16);
        if j - i <= 1 {
            assert(x == 0);
        } else if j - i == 2 {
            assert(x * 16 + d < 0x100) by (nonlinear_arith)
                requires
                    0 <= x < 0x10,
                    0 <= d < 16,
            ;
        } else if j - i == 3 {
            assert(x * 16 + d < 0x1000) by (nonlinear_arith)
                requires
                    0 <= x < 0x100,
                    0 <= d < 16,
            ;
        } else {
            assert(x * 16 + d < 0x10000) by (nonlinear_arith)
                requires
                    0 <= x < 0x1000,
                    0 <= d < 16,
            ;
        }
    }
}

fn fold_rgb_exec(rgb: u32, comp: Option<u32>) -> (r: u32)
    ensures
        r == fold_rgb(rgb, comp),
{
    match comp {
        Some(v) => (rgb >> 8) | (v << 16),
        None => rgb,
    }
}

/// Reads a palette report payload: the palette slot it sets (0..=15 for the
/// base colors, 16 for the background, 17 for the foreground) and the color,
/// fully opaque.
pub fn parse_color_report(s: &[u8]) -> (r: Option<(usize, StraightRgba)>)
    ensures
        r == color_report(s@),
{
    let n = s.len();
    let e0 = find_byte(s, 0x3B, 0, n);
    let start1 = after_exec(e0, n);
    let e1 = find_byte(s, 0x3B, start1, n);
    let start2 = after_exec(e1, n);
    let e2 = find_byte(s, 0x3B, start2, n);
    let target: Option<(usize, usize, usize)> = if e0 == 1 && s[0] == 0x34 {
        assert(field_is(s@, 0, e0 as int, seq![0x34u8]));
        match parse_number(s, start1, e1, 10, 16) {
            Some(v) => if v < 16 {
                Some((v as usize, start2, e2))
            } else {
                None
            },
            None => None,
        }
    } else if e0 == 2 && s[0] == 0x31 && s[1] == 0x30 {
        assert(field_is(s@, 0, e0 as int, seq![0x31u8, 0x30u8]));
        Some((17, start1, e1))
    } else if e0 == 2 && s[0] == 0x31 && s[1] == 0x31 {
        assert(field_is(s@, 0, e0 as int, seq![0x31u8, 0x31u8]));
        Some((16, start1, e1))
    } else {
        proof {
            if field_is(s@, 0, e0 as int, seq![0x34u8]) {
                assert(s@[0] == seq![0x34u8][0]);
            }
            if field_is(s@, 0, e0 as int, seq![0x31u8, 0x30u8]) {
                assert(s@[0] == seq![0x31u8, 0x30u8][0]);
                assert(s@[1] == seq![0x31u8, 0x30u8][1]);
            }
            if field_is(s@, 0, e0 as int, seq![0x31u8, 0x31u8]) {
                assert(s@[0] == seq![0x31u8, 0x31u8][0]);
                assert(s@[1] == seq![0x31u8, 0x31u8][1]);
            }
        }
        None
    };
    let (idx, a, b) = match target {
        Some(t) => t,
        None => {
            return None;
        },
    };
    if !(b - a >= 4 && s[a] == 0x72 && s[a + 1] == 0x67 && s[a + 2] == 0x62 && s[a + 3] == 0x3A) {
        return None;
    }
    let c0 = a + 4;
    let f0 = find_byte(s, 0x2F, c0, b);
    let c1 = after_exec(f0, b);
    let f1 = find_byte(s, 0x2F, c1, b);
    let c2 = after_exec(f1, b);
    let f2 = find_byte(s, 0x2F, c2, b);
    let mut rgb: u32 = 0;
    rgb = fold_rgb_exec(rgb, component_of(s, c0, f0));
    rgb = fold_rgb_exec(rgb, component_of(s, c1, f1));
    rgb = fold_rgb_exec(rgb, component_of(s, c2, f2));
    Some((idx, StraightRgba(rgb | 0xff000000)))
}

/// An OSC sequence starts at `k`: ESC `]`.
pub open spec fn osc_start_at(s: Seq<u8>, k: int) -> bool {
    0 <= k && k + 1 < s.len() && s[k] == ESC && s[k + 1] == 0x5D
}

/// An OSC sequence may end at `m`: BEL, or ESC `\` (the string terminator).
pub open spec fn terminator_at(s: Seq<u8>, m: int) -> bool {
    0 <= m < s.len() && (s[m] == BEL || (s[m] == ESC && m + 1 < s.len() && s[m + 1] == 0x5C))
}

/// Finds the first complete OSC sequence that starts at or after `from`.
/// Returns where its payload begins and ends, and where the input after its
/// terminator continues; `None` when no sequence that starts there is
/// complete yet.
pub fn find_osc(s: &[u8], from: usize) -> (r: Option<(usize, usize, usize)>)
    ensures
        r matches Some((b, e, next)) ==> {
            &&& from + 2 <= b <= e < next <= s@.len()
            &&& osc_start_at(s@, b - 2)
            &&& forall|k: int| from <= k < b - 2 ==> !#[trigger] osc_start_at(s@, k)
            &&& terminator_at(s@, e as int)
            &&& forall|m: int| b <= m < e ==> !#[trigger] terminator_at(s@, m)
            &&& next == if s@[e as int] == BEL { e + 1 } else { e + 2 }
        },
        r is None ==> forall|k: int, m: int|
            from <= k && k + 2 <= m && #[trigger] osc_start_at(s@, k) ==> !#[trigger] terminator_at(
                s@,
                m,
            ),
{
    let len = s.len();
    let mut k: usize = from;
    while k < len && !(k + 1 < len && s[k] == ESC && s[k + 1] == 0x5D)
        invariant
            from <= k || len <= k,
            forall|q: int| from <= q < k ==> !#[trigger] osc_start_at(s@, q),
            len == s@.len(),
        decreases len - k,
    {
        k = k + 1;
    }
    if k >= len {
        return None;
    }
    let b: usize = k + 2;
    let mut m: usize = b;
    while m < len && !(s[m] == BEL || (s[m] == ESC && m + 1 < len && s[m + 1] == 0x5C))
        invariant
            b <= m,
            forall|q: int| b <= q < m ==> !#[trigger] terminator_at(s@, q),
            len == s@.len(),
        decreases len - m,
    {
        m = m + 1;
    }
    if m >= len {
        assert forall|q: int, t: int|
            from <= q && q + 2 <= t && #[trigger] osc_start_at(s@, q) implies !#[trigger] terminator_at(
            s@,
            t,
        ) by {
            if q < k {
            } else {
                assert(b <= t);
            }
        }
        return None;
    }
    let next: usize = if s[m] == BEL { m + 1 } else { m + 2 };
    Some((b, m, next))
}

} // verus!
