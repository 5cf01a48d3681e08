//! Base64 encoding (standard alphabet, with padding) into an arena string.

use vstd::prelude::*;
use crate::release::{self, AllocError};
use crate::string::{grown_cap, ArenaString};

verus! {

broadcast use vstd::seq::group_seq_axioms;

/// The base64 digit for a 6-bit value.
pub open spec fn digit(v: u8) -> u8 {
    if v < 26 {
        (0x41 + v) as u8
    } else if v < 52 {
        (0x61 + (v - 26)) as u8
    } else if v < 62 {
        (0x30 + (v - 52)) as u8
    } else if v == 62 {
        0x2Bu8
    } else {
        0x2Fu8
    }
}

/// The base64 encoding of `s`.
pub open spec fn encoded(s: Seq<u8>) -> Seq<u8>
    decreases s.len(),
{
    if s.len() == 0 {
        Seq::empty()
    } else if s.len() == 1 {
        seq![digit(s[0] >> 2u8), digit((s[0] & 3u8) << 4u8), 0x3Du8, 0x3Du8]
    } else if s.len() == 2 {
        seq![
            digit(s[0] >> 2u8),
            digit(((s[0] & 3u8) << 4u8) | (s[1] >> 4u8)),
            digit((s[1] & 15u8) << 2u8),
            0x3Du8,
        ]
    } else {
        seq![
            digit(s[0] >> 2u8),
            digit(((s[0] & 3u8) << 4u8) | (s[1] >> 4u8)),
            digit(((s[1] & 15u8) << 2u8) | (s[2] >> 6u8)),
            digit(s[2] & 63u8),
        ] + encoded(s.subrange(3, s.len() as int))
    }
}

/// The encoded length of `src_len` bytes.
pub open spec fn encoded_len(src_len: int) -> int {
    (src_len + 2) / 3 * 4
}

proof fn lemma_encoded_len(s: Seq<u8>)
    ensures
        encoded(s).len() == encoded_len(s.len() as int),
    decreases s.len(),
{
    if s.len() >= 3 {
        lemma_encoded_len(s.subrange(3, s.len() as int));
    }
}

/// The length of the base64 encoding of `src_len` bytes, known in advance.
pub fn encode_len(src_len: usize) -> (r: usize)
    requires
        encoded_len(src_len as int) <= usize::MAX,
    ensures
        r == encoded_len(src_len as int),
{
    (src_len / 3 + if src_len % 3 == 0 { 0 } else { 1 }) * 4
}

fn digit_of(v: u8) -> (r: u8)
    ensures
        r == digit(v),
        r < 0x80,
{
    if v < 26 {
        0x41 + v
    } else if v < 52 {
        0x61 + (v - 26)
    } else if v < 62 {
        0x30 + (v - 52)
    } else if v == 62 {
        0x2B
    } else {
        0x2F
    }
}

/// Appends the base64 encoding of `src` to `dst`, making room first; fails,
/// changing nothing, when `dst` cannot grow that far in `arena`.
pub fn encode(dst: &mut ArenaString, arena: &mut release::Arena, src: &[u8]) -> (r: Result<
    (),
    AllocError,
>)
    requires
        old(dst).wf(&*old(arena)),
        encoded_len(src@.len() as int) <= usize::MAX,
    ensures
        final(dst).wf(&*final(arena)),
        r is Ok <==> (old(dst).len_spec() + encoded_len(src@.len() as int)
            <= old(dst).capacity_spec() || old(arena).fits(
            grown_cap(
                old(dst).capacity_spec(),
                old(dst).len_spec() + encoded_len(src@.len() as int),
            ),
            1,
        )),
        r is Ok ==> final(dst).text(&*final(arena)) == old(dst).text(&*old(arena)) + encoded(src@),
        r is Err ==> *final(dst) == *old(dst) && *final(arena) == *old(arena),
{
    let len = src.len();
    let out_len = encode_len(len);
    match dst.reserve(arena, out_len) {
        Ok(()) => {},
        Err(e) => {
            return Err(e);
        },
    }
    proof {
        lemma_encoded_len(src@);
        assert(src@.subrange(0, len as int) =~= src@);
    }
    let mut i: usize = 0;
    while len - i >= 3
        invariant
            i <= len == src@.len(),
            dst.wf(&*arena),
            old(dst).text(&*old(arena)) + encoded(src@) == dst.text(&*arena) + encoded(
                src@.subrange(i as int, len as int),
            ),
            dst.len_spec() + encoded_len(len - i) <= dst.capacity_spec(),
        decreases len - i,
    {
        let ghost rest = src@.subrange(i as int, len as int);
        proof {
            lemma_encoded_len(rest.subrange(3, rest.len() as int));
            assert(rest.subrange(3, rest.len() as int) =~= src@.subrange(i + 3, len as int));
            assert(encoded_len(len - i) == 4 + encoded_len(len - i - 3));
        }
        let b0 = src[i];
        let b1 = src[i + 1];
        let b2 = src[i + 2];
        let ghost before = dst.text(&*arena);
        dst.push_ascii(arena, digit_of(b0 >> 2));
        dst.push_ascii(arena, digit_of(((b0 & 3) << 4) | (b1 >> 4)));
        dst.push_ascii(arena, digit_of(((b1 & 15) << 2) | (b2 >> 6)));
        dst.push_ascii(arena, digit_of(b2 & 63));
        proof {
            assert(dst.text(&*arena) + encoded(src@.subrange(i + 3, len as int)) =~= before + encoded(rest));
        }
        i = i + 3;
    }
    let ghost rest = src@.subrange(i as int, len as int);
    let ghost before = dst.text(&*arena);
    if len - i == 2 {
        let b0 = src[i];
        let b1 = src[i + 1];
        dst.push_ascii(arena, digit_of(b0 >> 2));
        dst.push_ascii(arena, digit_of(((b0 & 3) << 4) | (b1 >> 4)));
        dst.push_ascii(arena, digit_of((b1 & 15) << 2));
        dst.push_ascii(arena, 0x3D);
        assert(dst.text(&*arena) =~= before + encoded(rest));
    } else if len - i == 1 {
        let b0 = src[i];
        dst.push_ascii(arena, digit_of(b0 >> 2));
        dst.push_ascii(arena, digit_of((b0 & 3) << 4));
        dst.push_ascii(arena, 0x3D);
        dst.push_ascii(arena, 0x3D);
        assert(dst.text(&*arena) =~= before + encoded(rest));
    } else {
        assert(rest.len() == 0);
        assert(dst.text(&*arena) =~= before + encoded(rest));
    }
    Ok(())
}

} // verus!
