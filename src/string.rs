//! A growable UTF-8 string stored in one arena.
//!
//! The string's bytes live in the arena region `[beg, beg + cap)`. Growing
//! takes a new, larger region from the same arena and copies the bytes over
//! (the old region becomes dead space); shrinking gives space back only when
//! the string's region is the most recent allocation of its arena. Every
//! operation takes the arena the string lives in.

use vstd::prelude::*;
use vstd::string::StringSliceAdditionalSpecFns;
use vstd::utf8::*;
use crate::helpers::replaced;
use crate::release::{self, AllocError};
use crate::utf8::{invalid_len, lossy, replacement, scalar_len};

verus! {

broadcast use vstd::seq::group_seq_axioms;

/// The smallest capacity a growing string takes.
pub const MIN_STRING_CAP: usize = 8;

/// The capacity a string of capacity `cap` grows to when it needs `required`
/// bytes: at least double, at least `required`, at least `MIN_STRING_CAP`.
pub open spec fn grown_cap(cap: int, required: int) -> int {
    let doubled = 2 * cap;
    let m = if doubled > required {
        doubled
    } else {
        required
    };
    if m > MIN_STRING_CAP as int {
        m
    } else {
        MIN_STRING_CAP as int
    }
}

/// Why a range replacement was refused.
#[derive(Debug, Clone, Copy, PartialEq, Eq, Structural)]
pub enum ReplaceError {
    /// An endpoint of the range is not on a character boundary.
    NotCharBoundary,
    /// The string had to grow and its arena could not hold it.
    Alloc,
}

/// Relies on `std::str::from_utf8`: on valid UTF-8 it returns the same bytes
/// viewed as a `str`.
#[verifier::external_body]
fn str_of_valid(bytes: &[u8]) -> (r: &str)
    requires
        valid_utf8(bytes@),
    ensures
        encode_utf8(r@) == bytes@,
{
    std::str::from_utf8(bytes).unwrap()
}

pub struct ArenaString {
    beg: usize,
    len: usize,
    cap: usize,
}

/// `after` holds the same bytes as `before` below `before`'s offset, except
/// possibly in `[lo, hi)`.
pub open spec fn unchanged_outside(
    before: &release::Arena,
    after: &release::Arena,
    lo: int,
    hi: int,
) -> bool {
    forall|i: int|
        0 <= i < before.off() && !(lo <= i < hi) ==> #[trigger] after.mem()[i] == before.mem()[i]
}

impl ArenaString {
    /// Start of the string's region in its arena.
    pub closed spec fn region_beg(&self) -> int {
        self.beg as int
    }

    /// Length in bytes.
    pub closed spec fn len_spec(&self) -> int {
        self.len as int
    }

    /// Size of the string's region in its arena.
    pub closed spec fn capacity_spec(&self) -> int {
        self.cap as int
    }

    /// The string's bytes, as stored in `arena`.
    pub open spec fn text(&self, arena: &release::Arena) -> Seq<u8> {
        arena.mem().subrange(self.region_beg(), self.region_beg() + self.len_spec())
    }

    /// The string lives in the allocated part of `arena` and holds valid UTF-8.
    pub open spec fn wf(&self, arena: &release::Arena) -> bool {
        &&& arena.wf()
        &&& 0 <= self.region_beg()
        &&& 0 <= self.len_spec() <= self.capacity_spec()
        &&& self.region_beg() + self.capacity_spec() <= arena.off()
        &&& valid_utf8(self.text(arena))
    }

    /// The string's region is the most recent allocation of `arena`.
    pub open spec fn on_top(&self, arena: &release::Arena) -> bool {
        self.region_beg() + self.capacity_spec() == arena.off()
    }

    /// An empty string at the current end of `arena`; it takes no space yet.
    pub fn new_in(arena: &release::Arena) -> (r: Self)
        requires
            arena.wf(),
        ensures
            r.wf(arena),
            r.text(arena) == Seq::<u8>::empty(),
            r.capacity_spec() == 0,
            r.region_beg() == arena.off(),
    {
        let r = ArenaString { beg: arena.offset(), len: 0, cap: 0 };
        assert(r.text(arena) =~= Seq::<u8>::empty());
        r
    }

    /// Length in bytes.
    pub fn len(&self) -> (r: usize)
        ensures
            r == self.len_spec(),
    {
        self.len
    }

    /// Size of the string's arena region.
    pub fn capacity(&self) -> (r: usize)
        ensures
            r == self.capacity_spec(),
    {
        self.cap
    }

    /// Start of the string's arena region.
    pub fn region_start(&self) -> (r: usize)
        ensures
            r == self.region_beg(),
    {
        self.beg
    }

    /// The contents as bytes.
    pub fn as_bytes<'a>(&self, arena: &'a release::Arena) -> (r: &'a [u8])
        requires
            self.wf(arena),
        ensures
            r@ == self.text(arena),
    {
        arena.bytes(self.beg, self.beg + self.len)
    }

    /// The contents as a `str`.
    pub fn as_str<'a>(&self, arena: &'a release::Arena) -> (r: &'a str)
        requires
            self.wf(arena),
        ensures
            encode_utf8(r@) == self.text(arena),
    {
        str_of_valid(self.as_bytes(arena))
    }

    /// Whether byte index `index` is the start of a character or the end.
    pub fn is_char_boundary(&self, arena: &release::Arena, index: usize) -> (r: bool)
        requires
            self.wf(arena),
        ensures
            r == is_char_boundary(self.text(arena), index as int),
    {
        proof {
            is_char_boundary_start_end_of_seq(self.text(arena));
        }
        if index == 0 || index == self.len {
            true
        } else if index > self.len {
            false
        } else {
            proof {
                is_char_boundary_iff_not_is_continuation_byte(self.text(arena), index as int);
            }
            let b = arena.byte_at(self.beg + index);
            !(b >= 0x80 && b <= 0xBF)
        }
    }

    /// Makes room for `additional` more bytes. When the region is too small,
    /// a new region of `grown_cap` bytes is taken from `arena` and the bytes
    /// are copied there.
    pub fn reserve(&mut self, arena: &mut release::Arena, additional: usize) -> (r: Result<
        (),
        AllocError,
    >)
        requires
            old(self).wf(&*old(arena)),
        ensures
            final(self).wf(&*final(arena)),
            final(self).text(&*final(arena)) == old(self).text(&*old(arena)),
            final(self).len_spec() == old(self).len_spec(),
            unchanged_outside(&*old(arena), &*final(arena), 0, 0),
            r is Ok <==> (old(self).len_spec() + additional <= old(self).capacity_spec()
                || old(arena).fits(
                grown_cap(old(self).capacity_spec(), old(self).len_spec() + additional),
                1,
            )),
            r is Ok ==> final(self).len_spec() + additional <= final(self).capacity_spec(),
            (old(self).len_spec() + additional <= old(self).capacity_spec() || r is Err) ==> {
                &&& *final(arena) == *old(arena)
                &&& *final(self) == *old(self)
            },
            (old(self).len_spec() + additional > old(self).capacity_spec() && r is Ok) ==> {
                let want = grown_cap(old(self).capacity_spec(), old(self).len_spec() + additional);
                &&& final(self).capacity_spec() == want
                &&& final(self).region_beg() == release::align_up(old(arena).off(), 1)
                &&& final(self).on_top(&*final(arena))
                &&& final(arena).off() == final(self).region_beg() + want
            },
    {
        if additional <= self.cap - self.len {
            return Ok(());
        }
        if additional > usize::MAX - self.len || self.cap > usize::MAX / 2 {
            proof {
                release::lemma_align_up(arena.off(), 1, 0);
            }
            return Err(AllocError);
        }
        let required: usize = self.len + additional;
        let doubled: usize = 2 * self.cap;
        let m: usize = if doubled > required { doubled } else { required };
        let want: usize = if m > MIN_STRING_CAP { m } else { MIN_STRING_CAP };
        assert(release::is_pow2(1));
        let ghost before = *arena;
        match arena.alloc_raw(want, 1) {
            Ok(g) => {
                proof {
                    release::lemma_align_up(before.off(), 1, 0);
                }
                let ghost allocated = *arena;
                arena.copy_within(self.beg, g.beg, self.len);
                proof {
                    assert(self.text(&before) =~= allocated.mem().subrange(
                        self.beg as int,
                        self.beg + self.len,
                    ));
                    assert(arena.mem().subrange(g.beg as int, g.beg + self.len) =~= self.text(
                        &before,
                    ));
                }
                self.beg = g.beg;
                self.cap = want;
                Ok(())
            },
            Err(e) => Err(e),
        }
    }

    /// Writes `bytes[from..to]` after the current contents; they are valid
    /// UTF-8 and fit.
    fn extend_valid(&mut self, arena: &mut release::Arena, bytes: &[u8], from: usize, to: usize)
        requires
            old(self).wf(&*old(arena)),
            from <= to <= bytes@.len(),
            valid_utf8(bytes@.subrange(from as int, to as int)),
            old(self).len_spec() + (to - from) <= old(self).capacity_spec(),
        ensures
            final(self).wf(&*final(arena)),
            final(self).text(&*final(arena)) == old(self).text(&*old(arena)) + bytes@.subrange(
                from as int,
                to as int,
            ),
            final(self).region_beg() == old(self).region_beg(),
            final(self).capacity_spec() == old(self).capacity_spec(),
            final(arena).off() == old(arena).off(),
            final(arena).cap() == old(arena).cap(),
            final(arena).committed() == old(arena).committed(),
            final(arena).generation() == old(arena).generation(),
            unchanged_outside(
                &*old(arena),
                &*final(arena),
                old(self).region_beg() + old(self).len_spec(),
                old(self).region_beg() + old(self).capacity_spec(),
            ),
    {
        let ghost old_text = self.text(arena);
        let mut i: usize = from;
        while i < to
            invariant
                from <= i <= to <= bytes@.len(),
                arena.wf(),
                self.beg == old(self).beg,
                self.cap == old(self).cap,
                self.len == old(self).len + (i - from),
                self.beg + self.cap <= arena.off(),
                old(self).len + (to - from) <= self.cap,
                arena.off() == old(arena).off(),
                arena.cap() == old(arena).cap(),
                arena.committed() == old(arena).committed(),
                arena.generation() == old(arena).generation(),
                self.text(arena) =~= old_text + bytes@.subrange(from as int, i as int),
                unchanged_outside(
                    &*old(arena),
                    &*arena,
                    old(self).beg + old(self).len,
                    old(self).beg + old(self).cap,
                ),
            decreases to - i,
        {
            let ghost prev = self.text(arena);
            arena.set_byte(self.beg + self.len, bytes[i]);
            self.len = self.len + 1;
            proof {
                assert(self.text(arena) =~= prev.push(bytes@[i as int]));
                assert(bytes@.subrange(from as int, i + 1) =~= bytes@.subrange(from as int, i as int).push(
                    bytes@[i as int],
                ));
            }
            i = i + 1;
        }
        proof {
            valid_utf8_concat(old_text, bytes@.subrange(from as int, to as int));
        }
    }

    /// Appends `s`, growing into a new region of `arena` when needed.
    pub fn push_str(&mut self, arena: &mut release::Arena, s: &str) -> (r: Result<(), AllocError>)
        requires
            old(self).wf(&*old(arena)),
        ensures
            final(self).wf(&*final(arena)),
            unchanged_outside(
                &*old(arena),
                &*final(arena),
                old(self).region_beg() + old(self).len_spec(),
                old(self).region_beg() + old(self).capacity_spec(),
            ),
            r is Ok <==> (old(self).len_spec() + s.spec_bytes().len() <= old(self).capacity_spec()
                || old(arena).fits(
                grown_cap(
                    old(self).capacity_spec(),
                    (old(self).len_spec() + s.spec_bytes().len()) as int,
                ),
                1,
            )),
            r is Ok ==> final(self).text(&*final(arena)) == old(self).text(&*old(arena))
                + s.spec_bytes(),
            r is Err ==> *final(self) == *old(self) && *final(arena) == *old(arena),
            old(self).len_spec() + s.spec_bytes().len() <= old(self).capacity_spec() ==> {
                &&& final(arena).off() == old(arena).off()
                &&& final(self).capacity_spec() == old(self).capacity_spec()
                &&& final(self).region_beg() == old(self).region_beg()
            },
    {
        let bytes = s.as_bytes();
        proof {
            encode_utf8_valid_utf8(s@);
            assert(bytes@.subrange(0, bytes@.len() as int) =~= bytes@);
        }
        match self.reserve(arena, bytes.len()) {
            Ok(()) => {},
            Err(e) => {
                return Err(e);
            },
        }
        self.extend_valid(arena, bytes, 0, bytes.len());
        Ok(())
    }

    /// Appends `bytes`, which are valid UTF-8 and fit.
    pub(crate) fn push_valid(&mut self, arena: &mut release::Arena, bytes: &[u8])
        requires
            old(self).wf(&*old(arena)),
            valid_utf8(bytes@),
            old(self).len_spec() + bytes@.len() <= old(self).capacity_spec(),
        ensures
            final(self).wf(&*final(arena)),
            final(self).text(&*final(arena)) == old(self).text(&*old(arena)) + bytes@,
            final(self).region_beg() == old(self).region_beg(),
            final(self).capacity_spec() == old(self).capacity_spec(),
            final(arena).off() == old(arena).off(),
            unchanged_outside(
                &*old(arena),
                &*final(arena),
                old(self).region_beg() + old(self).len_spec(),
                old(self).region_beg() + old(self).capacity_spec(),
            ),
    {
        assert(bytes@.subrange(0, bytes@.len() as int) =~= bytes@);
        self.extend_valid(arena, bytes, 0, bytes.len());
    }

    /// Appends one ASCII byte, which fits.
    pub(crate) fn push_ascii(&mut self, arena: &mut release::Arena, b: u8)
        requires
            old(self).wf(&*old(arena)),
            b < 0x80,
            old(self).len_spec() + 1 <= old(self).capacity_spec(),
        ensures
            final(self).wf(&*final(arena)),
            final(self).text(&*final(arena)) == old(self).text(&*old(arena)).push(b),
            final(self).region_beg() == old(self).region_beg(),
            final(self).len_spec() == old(self).len_spec() + 1,
            final(self).capacity_spec() == old(self).capacity_spec(),
            final(arena).off() == old(arena).off(),
    {
        let one = [b];
        proof {
            let v = seq![b];
            assert(one@ =~= v);
            assert(pop_first_scalar(v) =~= Seq::<u8>::empty());
            assert(valid_utf8(v)) by {
                reveal_with_fuel(valid_utf8, 2);
            }
        }
        self.push_valid(arena, &one);
        assert(old(self).text(&*old(arena)) + one@ =~= old(self).text(&*old(arena)).push(b));
    }

    /// Appends U+FFFD, which fits.
    fn push_replacement(&mut self, arena: &mut release::Arena)
        requires
            old(self).wf(&*old(arena)),
            old(self).len_spec() + 3 <= old(self).capacity_spec(),
        ensures
            final(self).wf(&*final(arena)),
            final(self).text(&*final(arena)) == old(self).text(&*old(arena)) + replacement(),
            final(self).region_beg() == old(self).region_beg(),
            final(self).capacity_spec() == old(self).capacity_spec(),
            final(arena).off() == old(arena).off(),
            unchanged_outside(
                &*old(arena),
                &*final(arena),
                old(self).region_beg() + old(self).len_spec(),
                old(self).region_beg() + old(self).capacity_spec(),
            ),
    {
        let r = [0xEFu8, 0xBFu8, 0xBDu8];
        proof {
            crate::utf8::lemma_replacement_valid();
            assert(r@ =~= replacement());
        }
        self.push_valid(arena, &r);
    }

    /// Checks whether `text` is valid UTF-8. If it is, returns it as a `str`
    /// without allocating. Otherwise returns a new string in `arena` with every
    /// maximal invalid subpart replaced by U+FFFD; the string takes one region
    /// sized for exactly the repaired text (at least `MIN_STRING_CAP`).
    pub fn from_utf8_lossy<'s>(arena: &mut release::Arena, text: &'s [u8]) -> (r: Result<
        Result<&'s str, ArenaString>,
        AllocError,
    >)
        requires
            old(arena).wf(),
        ensures
            final(arena).wf(),
            unchanged_outside(&*old(arena), &*final(arena), 0, 0),
            valid_utf8(text@) ==> (r matches Ok(Ok(v)) && encode_utf8(v@) == text@),
            valid_utf8(text@) ==> *final(arena) == *old(arena),
            !valid_utf8(text@) ==> match r {
                Ok(Ok(_)) => false,
                Ok(Err(s)) => {
                    &&& s.wf(&*final(arena))
                    &&& s.text(&*final(arena)) == lossy(text@)
                    &&& old(arena).fits(grown_cap(0, lossy(text@).len() as int), 1)
                    &&& s.on_top(&*final(arena))
                },
                Err(_) => {
                    &&& !old(arena).fits(grown_cap(0, lossy(text@).len() as int), 1)
                    &&& *final(arena) == *old(arena)
                },
            },
    {
        let len = text.len();
        let mut i: usize = 0;
        let mut stop = false;
        proof {
            assert(text@.subrange(0, len as int) =~= text@);
            assert(text@.subrange(0, 0) + lossy(text@) =~= lossy(text@));
            assert(text@.subrange(0, 0) =~= Seq::<u8>::empty());
        }
        while i < len && !stop
            invariant
                i <= len == text@.len(),
                valid_utf8(text@.subrange(0, i as int)),
                lossy(text@) == text@.subrange(0, i as int) + lossy(
                    text@.subrange(i as int, len as int),
                ),
                stop ==> i < len && !valid_first_scalar(text@.subrange(i as int, len as int)),
            decreases len - i, if stop { 0int } else { 1int },
        {
            let n = scalar_len(text, i);
            if n == 0 {
                stop = true;
            } else {
                proof {
                    let rest = text@.subrange(i as int, len as int);
                    assert(pop_first_scalar(rest) =~= text@.subrange(i + n, len as int));
                    assert(take_first_scalar(rest) =~= text@.subrange(i as int, i + n));
                    partial_valid_utf8_extend(text@, i as int);
                    assert(text@.subrange(0, i + n) =~= text@.subrange(0, i as int)
                        + take_first_scalar(rest));
                }
                i = i + n;
            }
        }
        if i == len {
            proof {
                assert(text@.subrange(0, len as int) =~= text@);
            }
            return Ok(Ok(str_of_valid(text)));
        }
        proof {
            let rest = text@.subrange(i as int, len as int);
            assert(!valid_first_scalar(rest));
            assert(!valid_utf8(rest));
            partial_valid_partial_invalid_utf8(text@, i as int);
        }
        // Count the repaired length.
        let mut count: usize = i;
        let mut j: usize = i;
        while j < len
            invariant
                i <= j <= len == text@.len(),
                count + lossy(text@.subrange(j as int, len as int)).len() == lossy(text@).len(),
                arena.wf(),
                *arena == *old(arena),
                !valid_utf8(text@),
            decreases len - j,
        {
            let ghost rest = text@.subrange(j as int, len as int);
            let n = scalar_len(text, j);
            let step: usize;
            let adv: usize;
            if n > 0 {
                step = n;
                adv = n;
                proof {
                    assert(pop_first_scalar(rest) =~= text@.subrange(j + n, len as int));
                }
            } else {
                step = 3;
                adv = invalid_len(text, j);
                proof {
                    assert(rest.subrange(adv as int, rest.len() as int) =~= text@.subrange(
                        j + adv,
                        len as int,
                    ));
                }
            }
            if count > usize::MAX - step {
                proof {
                    release::lemma_align_up(arena.off(), 1, 0);
                }
                return Err(AllocError);
            }
            count = count + step;
            j = j + adv;
        }
        proof {
            assert(text@.subrange(len as int, len as int) =~= Seq::<u8>::empty());
        }
        let mut res = ArenaString::new_in(arena);
        match res.reserve(arena, count) {
            Ok(()) => {},
            Err(e) => {
                return Err(e);
            },
        }
        let ghost reserved = *arena;
        proof {
            assert(text@.subrange(0, i as int) =~= text@.subrange(0, i as int));
        }
        res.extend_valid(arena, text, 0, i);
        proof {
            assert(res.text(arena) =~= text@.subrange(0, i as int));
        }
        let mut j: usize = i;
        while j < len
            invariant
                i <= j <= len == text@.len(),
                res.wf(&*arena),
                res.text(&*arena) + lossy(text@.subrange(j as int, len as int)) == lossy(text@),
                res.len_spec() + lossy(text@.subrange(j as int, len as int)).len()
                    <= res.capacity_spec(),
                res.on_top(&*arena),
                !valid_utf8(text@),
                old(arena).fits(grown_cap(0, lossy(text@).len() as int), 1),
                unchanged_outside(&*old(arena), &*arena, 0, 0),
                arena.off() >= old(arena).off(),
                res.region_beg() >= old(arena).off(),
            decreases len - j,
        {
            let ghost rest = text@.subrange(j as int, len as int);
            let ghost before = res.text(&*arena);
            let ghost a0 = *arena;
            let n = scalar_len(text, j);
            if n > 0 {
                proof {
                    assert(pop_first_scalar(rest) =~= text@.subrange(j + n, len as int));
                    assert(take_first_scalar(rest) =~= text@.subrange(j as int, j + n));
                    let t = take_first_scalar(rest);
                    assert(valid_utf8(t)) by {
                        assert(t.len() == n);
                        assert(valid_first_scalar(t));
                        assert(pop_first_scalar(t) =~= Seq::<u8>::empty());
                        reveal_with_fuel(valid_utf8, 2);
                    }
                }
                res.extend_valid(arena, text, j, j + n);
                proof {
                    assert(res.text(&*arena) + lossy(text@.subrange(j + n, len as int)) =~= before
                        + lossy(rest));
                }
                j = j + n;
            } else {
                let adv = invalid_len(text, j);
                proof {
                    crate::utf8::lemma_replacement_valid();
                    assert(rest.subrange(adv as int, rest.len() as int) =~= text@.subrange(
                        j + adv,
                        len as int,
                    ));
                }
                res.push_replacement(arena);
                proof {
                    assert(res.text(&*arena) + lossy(text@.subrange(j + adv, len as int))
                        =~= before + lossy(rest));
                }
                j = j + adv;
            }
            proof {
                assert forall|q: int|
                    0 <= q < old(arena).off() && !(0 <= q < 0) implies #[trigger] arena.mem()[q]
                    == old(arena).mem()[q] by {
                    assert(a0.mem()[q] == old(arena).mem()[q]);
                    assert(arena.mem()[q] == a0.mem()[q]);
                }
            }
        }
        proof {
            assert(text@.subrange(len as int, len as int) =~= Seq::<u8>::empty());
            assert(res.text(&*arena) =~= lossy(text@));
        }
        Ok(Err(res))
    }

    /// Replaces the bytes in `[start, end)` (an `end` before `start` inserts
    /// at `start`) with `text`, shifting the tail in place. Both endpoints
    /// must be character boundaries; otherwise nothing changes. When the
    /// result does not fit, the string first grows as `reserve` does.
    pub fn replace_range(
        &mut self,
        arena: &mut release::Arena,
        start: usize,
        end: usize,
        text: &str,
    ) -> (r: Result<(), ReplaceError>)
        requires
            old(self).wf(&*old(arena)),
        ensures
            final(self).wf(&*final(arena)),
            unchanged_outside(
                &*old(arena),
                &*final(arena),
                old(self).region_beg(),
                old(self).region_beg() + old(self).capacity_spec(),
            ),
            !(is_char_boundary(old(self).text(&*old(arena)), start as int) && is_char_boundary(
                old(self).text(&*old(arena)),
                end as int,
            )) ==> r == Err::<(), ReplaceError>(ReplaceError::NotCharBoundary),
            r is Ok ==> final(self).text(&*final(arena)) == replaced(
                old(self).text(&*old(arena)),
                start as int,
                end as int,
                text.spec_bytes(),
            ),
            r is Ok <==> {
                &&& is_char_boundary(old(self).text(&*old(arena)), start as int)
                &&& is_char_boundary(old(self).text(&*old(arena)), end as int)
                &&& {
                    let need = replaced(
                        old(self).text(&*old(arena)),
                        start as int,
                        end as int,
                        text.spec_bytes(),
                    ).len() as int;
                    need <= old(self).capacity_spec() || old(arena).fits(
                        grown_cap(old(self).capacity_spec(), need),
                        1,
                    )
                }
            },
            r is Err ==> *final(self) == *old(self) && *final(arena) == *old(arena),
    {
        if !self.is_char_boundary(arena, start) || !self.is_char_boundary(arena, end) {
            return Err(ReplaceError::NotCharBoundary);
        }
        let bytes = text.as_bytes();
        let len = self.len;
        let ghost t0 = self.text(arena);
        proof {
            encode_utf8_valid_utf8(text@);
            is_char_boundary_start_end_of_seq(t0);
            valid_utf8_split(t0, start as int);
            valid_utf8_split(t0, end as int);
        }
        let del: usize = if end <= start {
            0
        } else {
            end - start
        };
        let ghost want = replaced(t0, start as int, end as int, bytes@);
        assert(want.len() == len - del + bytes@.len());
        if bytes.len() > del {
            match self.reserve(arena, bytes.len() - del) {
                Ok(()) => {},
                Err(_) => {
                    return Err(ReplaceError::Alloc);
                },
            }
        }
        self.shift_and_write(arena, start, del, bytes);
        proof {
            let tail_from = if end <= start {
                start as int
            } else {
                end as int
            };
            assert(want =~= t0.subrange(0, start as int) + bytes@ + t0.subrange(
                tail_from,
                len as int,
            ));
            valid_utf8_concat(t0.subrange(0, start as int), bytes@);
            valid_utf8_concat(
                t0.subrange(0, start as int) + bytes@,
                t0.subrange(tail_from, len as int),
            );
        }
        Ok(())
    }

    /// Moves the bytes after `start + del` to just after `start + bytes.len()`
    /// and writes `bytes` at `start`.
    fn shift_and_write(&mut self, arena: &mut release::Arena, start: usize, del: usize, bytes: &[u8])
        requires
            old(self).wf(&*old(arena)),
            start + del <= old(self).len_spec(),
            old(self).len_spec() - del + bytes@.len() <= old(self).capacity_spec(),
        ensures
            final(arena).wf(),
            final(self).region_beg() == old(self).region_beg(),
            final(self).capacity_spec() == old(self).capacity_spec(),
            final(self).len_spec() == old(self).len_spec() - del + bytes@.len(),
            final(self).region_beg() + final(self).capacity_spec() <= final(arena).off(),
            final(self).text(&*final(arena)) == old(self).text(&*old(arena)).subrange(
                0,
                start as int,
            ) + bytes@ + old(self).text(&*old(arena)).subrange(
                start + del,
                old(self).len_spec(),
            ),
            final(arena).off() == old(arena).off(),
            unchanged_outside(
                &*old(arena),
                &*final(arena),
                old(self).region_beg(),
                old(self).region_beg() + old(self).capacity_spec(),
            ),
    {
        let ghost t0 = self.text(arena);
        let len = self.len;
        let b = self.beg;
        let tail = len - start - del;
        let blen = bytes.len();
        arena.copy_within(b + start + del, b + start + blen, tail);
        let ghost a2 = *arena;
        let mut i: usize = 0;
        while i < blen
            invariant
                i <= blen == bytes@.len(),
                b == self.beg,
                self.len == len,
                b + start + blen + tail <= b + self.cap <= arena.off(),
                arena.wf(),
                arena.off() == a2.off(),
                arena.cap() == a2.cap(),
                arena.committed() == a2.committed(),
                arena.generation() == a2.generation(),
                arena.mem().len() == a2.mem().len(),
                forall|j: int|
                    0 <= j < a2.mem().len() ==> #[trigger] arena.mem()[j] == if b + start <= j < b
                        + start + i {
                        bytes@[j - b - start]
                    } else {
                        a2.mem()[j]
                    },
            decreases blen - i,
        {
            arena.set_byte(b + start + i, bytes[i]);
            i = i + 1;
        }
        self.len = len - del + blen;
        proof {
            assert(self.text(arena) =~= t0.subrange(0, start as int) + bytes@ + t0.subrange(
                start + del,
                len as int,
            ));
        }
    }

    /// Gives the unused end of the string's region back to `arena`. Only
    /// valid while the region is the most recent allocation of `arena`.
    pub fn shrink_to_fit(&mut self, arena: &mut release::Arena)
        requires
            old(self).wf(&*old(arena)),
            old(self).on_top(&*old(arena)),
        ensures
            final(self).wf(&*final(arena)),
            final(self).text(&*final(arena)) == old(self).text(&*old(arena)),
            final(self).region_beg() == old(self).region_beg(),
            final(self).capacity_spec() == old(self).len_spec(),
            old(arena).reset_post(&*final(arena), old(self).region_beg() + old(self).len_spec()),
            final(self).on_top(&*final(arena)),
    {
        let keep: usize = self.beg + self.len;
        arena.reset(keep);
        self.cap = self.len;
        proof {
            assert(self.text(arena) =~= old(self).text(&*old(arena)));
        }
    }
}

} // verus!
