//! Lossy UTF-8 repair: valid scalars are kept, and each maximal invalid
//! subpart is replaced by one U+FFFD.

use vstd::prelude::*;
use vstd::utf8::*;

verus! {

broadcast use vstd::seq::group_seq_axioms;

/// The UTF-8 encoding of U+FFFD.
pub open spec fn replacement() -> Seq<u8> {
    seq![0xEFu8, 0xBFu8, 0xBDu8]
}

/// Whether `b1` may follow the leading byte `b0` in a well-formed sequence.
pub open spec fn second_byte_ok(b0: u8, b1: u8) -> bool {
    if b0 == 0xE0 {
        0xA0 <= b1 <= 0xBF
    } else if b0 == 0xED {
        0x80 <= b1 <= 0x9F
    } else if b0 == 0xF0 {
        0x90 <= b1 <= 0xBF
    } else if b0 == 0xF4 {
        0x80 <= b1 <= 0x8F
    } else {
        is_continuation_byte(b1)
    }
}

/// The length of a well-formed sequence that starts with `b0`, or 1 when no
/// well-formed sequence starts with it.
pub open spec fn expected_len(b0: u8) -> int {
    if 0xC2 <= b0 <= 0xDF {
        2
    } else if 0xE0 <= b0 <= 0xEF {
        3
    } else if 0xF0 <= b0 <= 0xF4 {
        4
    } else {
        1
    }
}

/// Length of the maximal prefix of `s` that could still start a well-formed
/// sequence (at least 1): the invalid subpart that one U+FFFD stands for.
pub open spec fn invalid_prefix_len(s: Seq<u8>) -> int {
    let n = expected_len(s[0]);
    if n == 1 || s.len() < 2 || !second_byte_ok(s[0], s[1]) {
        1
    } else if n == 2 || s.len() < 3 || !is_continuation_byte(s[2]) {
        2
    } else {
        3
    }
}

/// The lossy decoding of `s`, as bytes.
pub open spec fn lossy(s: Seq<u8>) -> Seq<u8>
    decreases s.len(),
{
    if s.len() == 0 {
        Seq::empty()
    } else if valid_first_scalar(s) {
        take_first_scalar(s) + lossy(pop_first_scalar(s))
    } else {
        replacement() + lossy(s.subrange(invalid_prefix_len(s), s.len() as int))
    }
}

pub proof fn lemma_replacement_valid()
    ensures
        valid_utf8(replacement()),
{
    let r = replacement();
    assert(codepoint_width_3(0xEFu8, 0xBFu8, 0xBDu8) == 0xFFFDu32) by (bit_vector);
    assert(pop_first_scalar(r) =~= Seq::<u8>::empty());
    reveal_with_fuel(valid_utf8, 2);
}

proof fn lemma_take_first_valid(s: Seq<u8>)
    requires
        s.len() > 0,
        valid_first_scalar(s),
    ensures
        valid_utf8(take_first_scalar(s)),
{
    let t = take_first_scalar(s);
    assert(t.len() == length_of_first_scalar(s));
    assert(valid_first_scalar(t));
    assert(pop_first_scalar(t) =~= Seq::<u8>::empty());
    reveal_with_fuel(valid_utf8, 2);
}

/// The lossy decoding is always valid UTF-8.
pub proof fn lemma_lossy_valid(s: Seq<u8>)
    ensures
        valid_utf8(lossy(s)),
    decreases s.len(),
{
    if s.len() == 0 {
    } else if valid_first_scalar(s) {
        lemma_lossy_valid(pop_first_scalar(s));
        lemma_take_first_valid(s);
        valid_utf8_concat(take_first_scalar(s), lossy(pop_first_scalar(s)));
    } else {
        lemma_lossy_valid(s.subrange(invalid_prefix_len(s), s.len() as int));
        lemma_replacement_valid();
        valid_utf8_concat(
            replacement(),
            lossy(s.subrange(invalid_prefix_len(s), s.len() as int)),
        );
    }
}

/// A valid prefix passes through the lossy decoding unchanged.
pub proof fn lemma_lossy_valid_prefix(a: Seq<u8>, t: Seq<u8>)
    requires
        valid_utf8(a),
    ensures
        lossy(a + t) == a + lossy(t),
    decreases a.len(),
{
    if a.len() == 0 {
        assert(a + t =~= t);
        assert(a + lossy(t) =~= lossy(t));
    } else {
        let s = a + t;
        let n = length_of_first_scalar(a);
        assert(forall|i: int| 0 <= i < a.len() ==> s[i] == a[i]);
        assert(valid_first_scalar(s));
        assert(length_of_first_scalar(s) == n);
        assert(pop_first_scalar(s) =~= pop_first_scalar(a) + t);
        assert(take_first_scalar(s) =~= take_first_scalar(a));
        lemma_lossy_valid_prefix(pop_first_scalar(a), t);
        assert(a =~= take_first_scalar(a) + pop_first_scalar(a));
        assert(lossy(s) == take_first_scalar(a) + (pop_first_scalar(a) + lossy(t)));
        assert(lossy(s) =~= a + lossy(t));
    }
}

/// Lossy decoding of valid UTF-8 gives back the same bytes.
pub proof fn lemma_lossy_of_valid(s: Seq<u8>)
    requires
        valid_utf8(s),
    ensures
        lossy(s) == s,
{
    lemma_lossy_valid_prefix(s, Seq::empty());
    assert(s + Seq::<u8>::empty() =~= s);
    assert(s + lossy(Seq::<u8>::empty()) =~= s);
}

/// One byte that cannot start a scalar, between two valid runs, becomes
/// exactly one U+FFFD; the bytes around it are kept as they are.
pub proof fn lemma_lossy_single_invalid_byte(a: Seq<u8>, b: u8, c: Seq<u8>)
    requires
        valid_utf8(a),
        valid_utf8(c),
        b >= 0x80,
    ensures
        lossy(a + seq![b] + c) == a + replacement() + c,
        valid_utf8(lossy(a + seq![b] + c)),
{
    let t = seq![b] + c;
    assert(a + seq![b] + c =~= a + t);
    lemma_lossy_valid_prefix(a, t);
    if c.len() > 0 {
        assert(valid_first_scalar(c));
        assert(!is_continuation_byte(c[0]));
    }
    assert(t[0] == b);
    assert(t.len() >= 2 ==> t[1] == c[0]);
    assert(!valid_first_scalar(t));
    assert(invalid_prefix_len(t) == 1);
    assert(t.subrange(1, t.len() as int) =~= c);
    lemma_lossy_of_valid(c);
    assert(lossy(t) == replacement() + c);
    assert(a + (replacement() + c) =~= a + replacement() + c);
    lemma_lossy_valid(a + seq![b] + c);
}

/// The length of the well-formed scalar that starts at `bytes[i]`, or 0 when
/// none does.
pub fn scalar_len(bytes: &[u8], i: usize) -> (n: usize)
    requires
        i < bytes@.len(),
    ensures
        n == 0 <==> !valid_first_scalar(bytes@.subrange(i as int, bytes@.len() as int)),
        n != 0 ==> n == length_of_first_scalar(bytes@.subrange(i as int, bytes@.len() as int)),
{
    let ghost s = bytes@.subrange(i as int, bytes@.len() as int);
    let len = bytes.len();
    let b0 = bytes[i];
    if b0 <= 0x7F {
        return 1;
    }
    if b0 >= 0xC0 && b0 <= 0xDF {
        if len - i < 2 || !(bytes[i + 1] >= 0x80 && bytes[i + 1] <= 0xBF) {
            return 0;
        }
        let b1 = bytes[i + 1];
        let cp: u32 = ((b0 & 0x1F) as u32) << 6 | ((b1 & 0x3F) as u32);
        assert(cp == codepoint_width_2(s[0], s[1]));
        if cp >= 0x80 {
            assert(cp < 0x800) by (bit_vector)
                requires
                    cp == ((b0 & 0x1F) as u32) << 6 | ((b1 & 0x3F) as u32),
            ;
            return 2;
        }
        return 0;
    }
    if b0 >= 0xE0 && b0 <= 0xEF {
        if len - i < 3 || !(bytes[i + 1] >= 0x80 && bytes[i + 1] <= 0xBF) || !(bytes[i + 2]
            >= 0x80 && bytes[i + 2] <= 0xBF) {
            return 0;
        }
        let cp: u32 = ((b0 & 0x0F) as u32) << 12 | ((bytes[i + 1] & 0x3F) as u32) << 6 | ((bytes[i
            + 2] & 0x3F) as u32);
        assert(cp == codepoint_width_3(s[0], s[1], s[2]));
        if cp >= 0x800 && !(cp >= 0xD800 && cp <= 0xDFFF) {
            return 3;
        }
        return 0;
    }
    if b0 >= 0xF0 && b0 <= 0xF7 {
        if len - i < 4 || !(bytes[i + 1] >= 0x80 && bytes[i + 1] <= 0xBF) || !(bytes[i + 2]
            >= 0x80 && bytes[i + 2] <= 0xBF) || !(bytes[i + 3] >= 0x80 && bytes[i + 3] <= 0xBF) {
            return 0;
        }
        let cp: u32 = ((b0 & 0x07) as u32) << 18 | ((bytes[i + 1] & 0x3F) as u32) << 12 | ((bytes[i
            + 2] & 0x3F) as u32) << 6 | ((bytes[i + 3] & 0x3F) as u32);
        assert(cp == codepoint_width_4(s[0], s[1], s[2], s[3]));
        if cp >= 0x10000 && cp <= 0x10FFFF {
            return 4;
        }
        return 0;
    }
    0
}

/// The length of the invalid subpart that starts at `bytes[i]`.
pub fn invalid_len(bytes: &[u8], i: usize) -> (n: usize)
    requires
        i < bytes@.len(),
    ensures
        n == invalid_prefix_len(bytes@.subrange(i as int, bytes@.len() as int)),
        1 <= n <= bytes@.len() - i,
{
    let ghost s = bytes@.subrange(i as int, bytes@.len() as int);
    let len = bytes.len();
    let b0 = bytes[i];
    let n: usize = if b0 >= 0xC2 && b0 <= 0xDF {
        2
    } else if b0 >= 0xE0 && b0 <= 0xEF {
        3
    } else if b0 >= 0xF0 && b0 <= 0xF4 {
        4
    } else {
        1
    };
    if n == 1 || len - i < 2 {
        return 1;
    }
    let b1 = bytes[i + 1];
    let second_ok = if b0 == 0xE0 {
        b1 >= 0xA0 && b1 <= 0xBF
    } else if b0 == 0xED {
        b1 >= 0x80 && b1 <= 0x9F
    } else if b0 == 0xF0 {
        b1 >= 0x90 && b1 <= 0xBF
    } else if b0 == 0xF4 {
        b1 >= 0x80 && b1 <= 0x8F
    } else {
        b1 >= 0x80 && b1 <= 0xBF
    };
    if !second_ok {
        return 1;
    }
    if n == 2 || len - i < 3 || !(bytes[i + 2] >= 0x80 && bytes[i + 2] <= 0xBF) {
        return 2;
    }
    3
}

} // verus!
