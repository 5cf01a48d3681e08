//! Small helpers shared by the arena and its string.

use vstd::prelude::*;

verus! {

/// Identity comparison of two optional arena identities: equal when both are
/// absent or both name the same arena.
pub fn opt_ptr_eq(a: Option<usize>, b: Option<usize>) -> (r: bool)
    ensures
        r == (a == b),
{
    match (a, b) {
        (Some(x), Some(y)) => x == y,
        (None, None) => true,
        _ => false,
    }
}

/// The start of the effective replacement window: `start`, clipped to `len`.
pub open spec fn window_start(len: int, start: int) -> int {
    if start < len {
        start
    } else {
        len
    }
}

/// The number of elements the window `[start, end)` removes from a sequence
/// of length `len`, after clipping it to the sequence.
pub open spec fn window_len(len: int, start: int, end: int) -> int {
    let off = window_start(len, start);
    if end <= off {
        0
    } else if end - off < len - off {
        end - off
    } else {
        len - off
    }
}

/// `dst` with the window `[start, end)` (clipped to `dst`) replaced by `src`.
pub open spec fn replaced<T>(dst: Seq<T>, start: int, end: int, src: Seq<T>) -> Seq<T> {
    let off = window_start(dst.len() as int, start);
    let del = window_len(dst.len() as int, start, end);
    dst.subrange(0, off) + src + dst.subrange(off + del, dst.len() as int)
}

/// Replaces a range of elements by shifting the tail once, rather than
/// removing and inserting element by element.
pub trait ReplaceRange<T: Copy>: View<V = Seq<T>> + Sized {
    /// Replaces the elements in `[start, end)` (clipped to the current length)
    /// with `src`.
    fn replace_range(&mut self, start: usize, end: usize, src: &[T])
        ensures
            final(self)@ == replaced(old(self)@, start as int, end as int, src@),
    ;
}

impl<T: Copy> ReplaceRange<T> for Vec<T> {
    fn replace_range(&mut self, start: usize, end: usize, src: &[T]) {
        vec_replace_impl(self, start, end, src);
    }
}

fn vec_replace_impl<T: Copy>(dst: &mut Vec<T>, start: usize, end: usize, src: &[T])
    ensures
        final(dst)@ == replaced(old(dst)@, start as int, end as int, src@),
{
    let dst_len: usize = dst.len();
    let off: usize = if start < dst_len { start } else { dst_len };
    let del_len: usize = if end <= off {
        0
    } else if end - off < dst_len - off {
        end - off
    } else {
        dst_len - off
    };
    if del_len == 0 && src.len() == 0 {
        assert(dst@ =~= replaced(old(dst)@, start as int, end as int, src@));
        return;
    }
    let mut tail = dst.split_off(off + del_len);
    dst.truncate(off);
    let ghost head = dst@;
    let mut i: usize = 0;
    while i < src.len()
        invariant
            i <= src@.len(),
            dst@ =~= head + src@.subrange(0, i as int),
        decreases src@.len() - i,
    {
        dst.push(src[i]);
        i = i + 1;
    }
    dst.append(&mut tail);
    assert(dst@ =~= replaced(old(dst)@, start as int, end as int, src@));
}

} // verus!
