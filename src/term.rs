//! Byte-level helpers for terminal input and output: searching, splitting off
//! an incomplete UTF-8 sequence at the end of a read, and sanitizing text for
//! a window title.

use vstd::prelude::*;

verus! {

/// The index of the first byte at or after `offset` (clipped to the length)
/// that equals `needle1` or `needle2`, or the length when there is none.
pub fn memchr2(needle1: u8, needle2: u8, haystack: &[u8], offset: usize) -> (r: usize)
    ensures
        (if offset < haystack@.len() { offset as int } else { haystack@.len() as int }) <= r
            <= haystack@.len(),
        forall|k: int|
            offset <= k < r ==> #[trigger] haystack@[k] != needle1 && haystack@[k] != needle2,
        r < haystack@.len() ==> haystack@[r as int] == needle1 || haystack@[r as int] == needle2,
{
    let len = haystack.len();
    let mut i: usize = if offset < len { offset } else { len };
    while i < len
        invariant
            (if offset < len { offset as int } else { len as int }) <= i <= len == haystack@.len(),
            forall|k: int|
                offset <= k < i ==> #[trigger] haystack@[k] != needle1 && haystack@[k] != needle2,
        decreases len - i,
    {
        let ch = haystack[i];
        if ch == needle1 || ch == needle2 {
            return i;
        }
        i = i + 1;
    }
    i
}

/// Whether `b` has the form of a UTF-8 continuation byte (10xxxxxx).
pub open spec fn is_cont(b: u8) -> bool {
    0x80 <= b <= 0xBF
}

/// The sequence length that the lead byte `b` announces, or 0 when `b`
/// cannot lead a sequence.
pub open spec fn announced_len(b: u8) -> int {
    if b < 0x80 {
        1
    } else if 0xC0 <= b <= 0xDF {
        2
    } else if 0xE0 <= b <= 0xEF {
        3
    } else if 0xF0 <= b <= 0xF7 {
        4
    } else {
        0
    }
}

/// Stepping back from `off` over continuation bytes, but not below `lim`.
pub open spec fn back_over_cont(s: Seq<u8>, off: int, lim: int) -> int
    decreases off,
{
    if off > lim && off > 0 && is_cont(s[off]) {
        back_over_cont(s, off - 1, lim)
    } else {
        off
    }
}

/// Where a read buffer `s` is cut so that an incomplete multi-byte sequence
/// at its very end (at most three bytes) is held back for the next read:
/// `s.len()` when nothing is held back.
pub open spec fn incomplete_tail_start(s: Seq<u8>) -> int {
    if s.len() == 0 {
        0
    } else {
        let lim = if s.len() >= 3 { s.len() - 3 } else { 0 };
        let off = back_over_cont(s, s.len() - 1, lim);
        if off + announced_len(s[off]) > s.len() {
            off
        } else {
            s.len() as int
        }
    }
}

proof fn lemma_back_over_cont_bounds(s: Seq<u8>, off: int, lim: int)
    requires
        0 <= lim,
        0 <= off < s.len(),
    ensures
        0 <= back_over_cont(s, off, lim) <= off,
        (lim <= off ==> lim <= back_over_cont(s, off, lim)),
    decreases off,
{
    if off > lim && off > 0 && is_cont(s[off]) {
        lemma_back_over_cont_bounds(s, off - 1, lim);
    }
}

/// Where to cut a read buffer; see `incomplete_tail_start`.
pub fn incomplete_utf8_tail(buf: &[u8]) -> (r: usize)
    ensures
        r == incomplete_tail_start(buf@),
        r <= buf@.len(),
        buf@.len() - 3 <= r,
{
    let len = buf.len();
    if len == 0 {
        return 0;
    }
    let lim: usize = if len >= 3 { len - 3 } else { 0 };
    let mut off: usize = len - 1;
    proof {
        lemma_back_over_cont_bounds(buf@, off as int, lim as int);
    }
    while off > lim && off > 0 && buf[off] >= 0x80 && buf[off] <= 0xBF
        invariant
            lim <= off < len == buf@.len(),
            back_over_cont(buf@, off as int, lim as int) == back_over_cont(
                buf@,
                len - 1,
                lim as int,
            ),
        decreases off,
    {
        off = off - 1;
    }
    let b = buf[off];
    let seq_len: usize = if b < 0x80 {
        1
    } else if b >= 0xC0 && b <= 0xDF {
        2
    } else if b >= 0xE0 && b <= 0xEF {
        3
    } else if b >= 0xF0 && b <= 0xF7 {
        4
    } else {
        0
    };
    if seq_len > len - off {
        off
    } else {
        len
    }
}

/// `s` with every C0 control byte (below 0x20) replaced by `_`.
pub open spec fn sanitized(s: Seq<u8>) -> Seq<u8> {
    Seq::new(s.len(), |i: int| if s[i] < 0x20 { 0x5Fu8 } else { s[i] })
}

/// Replaces every C0 control byte in `text` with `_`.
pub fn sanitize_control_chars(text: &[u8]) -> (r: Vec<u8>)
    ensures
        r@ == sanitized(text@),
{
    let mut out: Vec<u8> = Vec::new();
    let mut i: usize = 0;
    while i < text.len()
        invariant
            i <= text@.len(),
            out@ =~= sanitized(text@).subrange(0, i as int),
        decreases text@.len() - i,
    {
        let b = text[i];
        out.push(if b < 0x20 { 0x5F } else { b });
        i = i + 1;
    }
    assert(out@ =~= sanitized(text@));
    out
}

} // verus!
