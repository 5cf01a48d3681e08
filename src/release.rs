//! The base arena: one fixed reservation, a committed watermark that only
//! grows, and a bump offset that only moves back on an explicit reset.

use vstd::prelude::*;

verus! {

/// Granularity of reservations and commits, in bytes.
pub const ALLOC_CHUNK_SIZE: usize = 65536;

/// Byte written over freshly granted memory (and a small lookahead after it).
pub const ALLOC_FILL: u8 = 0xCD;

/// Byte written over memory that a reset gave back.
pub const RESET_FILL: u8 = 0xDD;

/// How far past the end of a range the poison fills reach.
pub const FILL_LOOKAHEAD: usize = 128;

/// The one recoverable failure of an arena: the request does not fit.
#[derive(Debug, Clone, Copy, PartialEq, Eq, Structural)]
pub struct AllocError;

/// A granted range of arena memory: `len` bytes starting at offset `beg`.
#[derive(Debug, Clone, Copy, PartialEq, Eq, Structural)]
pub struct Region {
    pub beg: usize,
    pub len: usize,
}

/// `x` rounded up to the next multiple of `a`.
pub open spec fn align_up(x: int, a: int) -> int {
    if x % a == 0 {
        x
    } else {
        x + (a - x % a)
    }
}

/// `x` rounded up to a whole number of chunks.
pub open spec fn chunk_ceil(x: int) -> int {
    align_up(x, ALLOC_CHUNK_SIZE as int)
}

/// The capacity that a reservation of `requested` bytes ends up with.
pub open spec fn reserved_capacity(requested: int) -> int {
    chunk_ceil(if requested < 1 { 1 } else { requested })
}

pub open spec fn is_pow2(a: int) -> bool
    decreases a,
{
    if a <= 0 {
        false
    } else if a == 1 {
        true
    } else {
        a % 2 == 0 && is_pow2(a / 2)
    }
}

/// Basic facts about rounding up: it lands on a multiple of `a`, at most
/// `a - 1` past `x`, and never past a multiple of `a` that is at least `x`.
pub proof fn lemma_align_up(x: int, a: int, c: int)
    requires
        0 <= x,
        0 < a,
    ensures
        x <= align_up(x, a) < x + a,
        align_up(x, a) % a == 0,
        c % a == 0 && x <= c ==> align_up(x, a) <= c,
{
    let q = x / a;
    let r = x % a;
    assert(x == a * q + r && 0 <= r < a) by (nonlinear_arith)
        requires
            0 < a,
            q == x / a,
            r == x % a,
    ;
    if r != 0 {
        assert((a * (q + 1)) % a == 0) by (nonlinear_arith)
            requires
                0 < a,
        ;
        assert(align_up(x, a) == a * (q + 1)) by (nonlinear_arith)
            requires
                x == a * q + r,
                align_up(x, a) == x + (a - r),
        ;
        if c % a == 0 && x <= c {
            let k = c / a;
            assert(c == a * k) by (nonlinear_arith)
                requires
                    0 < a,
                    k == c / a,
                    c % a == 0,
            ;
            assert(a * (q + 1) <= c) by (nonlinear_arith)
                requires
                    0 < a,
                    x == a * q + r,
                    0 < r < a,
                    c == a * k,
                    x <= c,
            ;
        }
    }
}

/// A single-threaded bump arena.
///
/// `memory` holds the committed bytes: its length is the committed watermark.
/// Bytes past it are reserved but not yet usable. While `poison` is on (the
/// default), granted and reset memory is overwritten with fill bytes so that
/// reads of uninitialized or released memory stand out.
pub struct Arena {
    capacity: usize,
    commit: usize,
    offset: usize,
    borrows: usize,
    memory: Vec<u8>,
    poison: bool,
}

impl Arena {
    /// Total reserved capacity in bytes.
    pub closed spec fn cap(&self) -> int {
        self.capacity as int
    }

    /// Committed watermark in bytes.
    pub closed spec fn committed(&self) -> int {
        self.commit as int
    }

    /// Current bump offset in bytes.
    pub closed spec fn off(&self) -> int {
        self.offset as int
    }

    /// Live borrow generation: how many delegates currently borrow this arena.
    pub closed spec fn generation(&self) -> int {
        self.borrows as int
    }

    /// Contents of the committed memory.
    pub closed spec fn mem(&self) -> Seq<u8> {
        self.memory@
    }

    /// Whether allocations and resets write fill bytes.
    pub closed spec fn poisons(&self) -> bool {
        self.poison
    }

    pub open spec fn wf(&self) -> bool {
        &&& 0 <= self.off() <= self.committed() <= self.cap() <= usize::MAX
        &&& 0 <= self.generation() <= usize::MAX
        &&& self.mem().len() == self.committed()
        &&& self.cap() % (ALLOC_CHUNK_SIZE as int) == 0
        &&& self.committed() % (ALLOC_CHUNK_SIZE as int) == 0
    }

    /// Whether `bytes` bytes aligned to `alignment` still fit below the capacity.
    pub open spec fn fits(&self, bytes: int, alignment: int) -> bool {
        align_up(self.off(), alignment) + bytes <= self.cap()
    }

    /// The committed watermark after a successful allocation ending at `end`.
    pub open spec fn commit_after(&self, end: int) -> int {
        if end <= self.committed() {
            self.committed()
        } else {
            chunk_ceil(end)
        }
    }

    /// What a call of `alloc_raw(bytes, alignment)` on `self` that left
    /// `after` and returned `r` guarantees about the offsets.
    pub open spec fn alloc_post(
        &self,
        after: &Arena,
        bytes: int,
        alignment: int,
        r: Result<Region, AllocError>,
    ) -> bool {
        &&& (r is Ok <==> self.fits(bytes, alignment))
        &&& after.cap() == self.cap()
        &&& after.poisons() == self.poisons()
        &&& after.committed() >= self.committed()
        &&& (r matches Ok(g) ==> {
            &&& g.beg == align_up(self.off(), alignment)
            &&& g.len == bytes
            &&& after.off() == g.beg + g.len
            &&& after.committed() == self.commit_after(g.beg + g.len)
        })
        &&& (r is Err ==> after.off() == self.off() && after.committed() == self.committed())
    }

    /// What a call of `reset(to)` on `self` that left `after` guarantees about
    /// the offsets.
    pub open spec fn reset_post(&self, after: &Arena, to: int) -> bool {
        &&& after.off() == to
        &&& after.cap() == self.cap()
        &&& after.poisons() == self.poisons()
        &&& after.committed() == self.committed()
    }

    /// `other` differs from `self` at most in its borrow generation.
    pub open spec fn same_space(&self, other: &Arena) -> bool {
        &&& other.cap() == self.cap()
        &&& other.committed() == self.committed()
        &&& other.off() == self.off()
        &&& other.mem() == self.mem()
        &&& other.poisons() == self.poisons()
    }

    /// An arena with no capacity; every allocation from it fails.
    pub fn empty() -> (r: Self)
        ensures
            r.wf(),
            r.cap() == 0,
            r.committed() == 0,
            r.off() == 0,
            r.generation() == 0,
            r.poisons(),
    {
        Arena { capacity: 0, commit: 0, offset: 0, borrows: 0, memory: Vec::new(), poison: true }
    }

    /// Reserves `capacity` bytes, rounded up to whole chunks (at least one).
    /// Nothing is committed yet.
    pub fn new(capacity: usize) -> (r: Result<Self, AllocError>)
        ensures
            r is Ok <==> reserved_capacity(capacity as int) <= usize::MAX,
            r matches Ok(a) ==> {
                &&& a.wf()
                &&& a.cap() == reserved_capacity(capacity as int)
                &&& a.committed() == 0
                &&& a.off() == 0
                &&& a.generation() == 0
                &&& a.poisons()
            },
    {
        let requested: usize = if capacity < 1 { 1 } else { capacity };
        proof {
            lemma_align_up(requested as int, ALLOC_CHUNK_SIZE as int, 0);
        }
        let rem: usize = requested % ALLOC_CHUNK_SIZE;
        if rem == 0 {
            Ok(Arena { capacity: requested, commit: 0, offset: 0, borrows: 0, memory: Vec::new(), poison: true })
        } else if requested > usize::MAX - (ALLOC_CHUNK_SIZE - rem) {
            Err(AllocError)
        } else {
            let rounded: usize = requested + (ALLOC_CHUNK_SIZE - rem);
            Ok(Arena { capacity: rounded, commit: 0, offset: 0, borrows: 0, memory: Vec::new(), poison: true })
        }
    }

    /// The current bump offset.
    pub fn offset(&self) -> (r: usize)
        ensures
            r == self.off(),
    {
        self.offset
    }

    /// The reserved capacity.
    pub fn capacity(&self) -> (r: usize)
        ensures
            r == self.cap(),
    {
        self.capacity
    }

    /// The committed watermark.
    pub fn committed_bytes(&self) -> (r: usize)
        ensures
            r == self.committed(),
    {
        self.commit
    }

    /// The live borrow generation.
    pub fn borrows(&self) -> (r: usize)
        ensures
            r == self.generation(),
    {
        self.borrows
    }

    /// Reads one committed byte.
    pub fn byte_at(&self, i: usize) -> (r: u8)
        requires
            self.wf(),
            i < self.committed(),
        ensures
            r == self.mem()[i as int],
    {
        self.memory[i]
    }

    /// Writes one byte inside the allocated part of the arena.
    pub fn set_byte(&mut self, i: usize, value: u8)
        requires
            old(self).wf(),
            i < old(self).off(),
        ensures
            final(self).wf(),
            final(self).cap() == old(self).cap(),
            final(self).committed() == old(self).committed(),
            final(self).off() == old(self).off(),
            final(self).generation() == old(self).generation(),
            final(self).poisons() == old(self).poisons(),
            final(self).mem() == old(self).mem().update(i as int, value),
    {
        self.memory.set(i, value);
    }

    /// Copies `n` bytes from offset `src` to offset `dst` inside the
    /// allocated part of the arena; the ranges may overlap.
    pub fn copy_within(&mut self, src: usize, dst: usize, n: usize)
        requires
            old(self).wf(),
            src + n <= old(self).off(),
            dst + n <= old(self).off(),
        ensures
            final(self).wf(),
            final(self).cap() == old(self).cap(),
            final(self).committed() == old(self).committed(),
            final(self).off() == old(self).off(),
            final(self).generation() == old(self).generation(),
            final(self).poisons() == old(self).poisons(),
            final(self).mem().len() == old(self).mem().len(),
            forall|j: int|
                0 <= j < old(self).mem().len() ==> #[trigger] final(self).mem()[j] == if dst <= j
                    < dst + n {
                    old(self).mem()[src + (j - dst)]
                } else {
                    old(self).mem()[j]
                },
    {
        if dst <= src {
            let mut i: usize = 0;
            while i < n
                invariant
                    dst <= src,
                    i <= n,
                    src + n <= self.offset,
                    dst + n <= self.offset,
                    self.capacity == old(self).capacity,
                    self.commit == old(self).commit,
                    self.offset == old(self).offset,
                    self.borrows == old(self).borrows,
                    self.poison == old(self).poison,
                    self.memory@.len() == old(self).memory@.len(),
                    old(self).wf(),
                    forall|j: int|
                        0 <= j < old(self).memory@.len() ==> #[trigger] self.memory@[j] == if dst
                            <= j < dst + i {
                            old(self).memory@[src + (j - dst)]
                        } else {
                            old(self).memory@[j]
                        },
                decreases n - i,
            {
                let b = self.memory[src + i];
                self.memory.set(dst + i, b);
                i = i + 1;
            }
        } else {
            let mut i: usize = n;
            while i > 0
                invariant
                    src < dst,
                    i <= n,
                    src + n <= self.offset,
                    dst + n <= self.offset,
                    self.capacity == old(self).capacity,
                    self.commit == old(self).commit,
                    self.offset == old(self).offset,
                    self.borrows == old(self).borrows,
                    self.poison == old(self).poison,
                    self.memory@.len() == old(self).memory@.len(),
                    old(self).wf(),
                    forall|j: int|
                        0 <= j < old(self).memory@.len() ==> #[trigger] self.memory@[j] == if dst
                            + i <= j < dst + n {
                            old(self).memory@[src + (j - dst)]
                        } else {
                            old(self).memory@[j]
                        },
                decreases i,
            {
                let b = self.memory[src + i - 1];
                self.memory.set(dst + i - 1, b);
                i = i - 1;
            }
        }
    }

    /// The allocated bytes `[beg, end)`.
    pub fn bytes(&self, beg: usize, end: usize) -> (r: &[u8])
        requires
            self.wf(),
            beg <= end <= self.off(),
        ensures
            r@ == self.mem().subrange(beg as int, end as int),
    {
        vstd::slice::slice_subrange(self.memory.as_slice(), beg, end)
    }

    pub(crate) fn set_borrows(&mut self, borrows: usize)
        requires
            old(self).wf(),
        ensures
            final(self).wf(),
            old(self).same_space(&*final(self)),
            final(self).generation() == borrows,
    {
        self.borrows = borrows;
    }

    /// Overwrites `memory[from..to]` with `value`.
    fn fill(&mut self, from: usize, to: usize, value: u8)
        requires
            from <= to <= old(self).memory@.len(),
        ensures
            final(self).capacity == old(self).capacity,
            final(self).commit == old(self).commit,
            final(self).offset == old(self).offset,
            final(self).borrows == old(self).borrows,
            final(self).poison == old(self).poison,
            final(self).memory@.len() == old(self).memory@.len(),
            forall|i: int|
                0 <= i < old(self).memory@.len() ==> #[trigger] final(self).memory@[i] == if from
                    <= i < to {
                    value
                } else {
                    old(self).memory@[i]
                },
    {
        let mut i: usize = from;
        while i < to
            invariant
                from <= i <= to <= self.memory@.len(),
                self.capacity == old(self).capacity,
                self.commit == old(self).commit,
                self.offset == old(self).offset,
                self.borrows == old(self).borrows,
                self.poison == old(self).poison,
                self.memory@.len() == old(self).memory@.len(),
                forall|j: int|
                    0 <= j < old(self).memory@.len() ==> #[trigger] self.memory@[j] == if from <= j
                        < i {
                        value
                    } else {
                        old(self).memory@[j]
                    },
            decreases to - i,
        {
            self.memory.set(i, value);
            i = i + 1;
        }
    }

    /// Moves the offset to `to`, a previously observed offset. When that moves
    /// it back and poisoning is on, what was given back (and a bounded
    /// lookahead past the old offset) is overwritten with `RESET_FILL`.
    pub fn reset(&mut self, to: usize)
        requires
            old(self).wf(),
            to <= old(self).committed(),
        ensures
            final(self).wf(),
            old(self).reset_post(&*final(self), to as int),
            final(self).off() == to,
            final(self).cap() == old(self).cap(),
            final(self).committed() == old(self).committed(),
            final(self).generation() == old(self).generation(),
            final(self).mem().len() == old(self).mem().len(),
            forall|i: int|
                0 <= i < old(self).committed() ==> #[trigger] final(self).mem()[i] == if old(
                    self,
                ).poisons() && to <= i < old(self).off() + FILL_LOOKAHEAD && to < old(self).off() {
                    RESET_FILL
                } else {
                    old(self).mem()[i]
                },
    {
        if self.poison && self.offset > to {
            let lim: usize = if self.commit - self.offset >= FILL_LOOKAHEAD {
                self.offset + FILL_LOOKAHEAD
            } else {
                self.commit
            };
            self.fill(to, lim, RESET_FILL);
        }
        self.offset = to;
    }

    /// Grants `bytes` bytes aligned to `alignment` (a power of two).
    ///
    /// Succeeds exactly when the aligned range fits below the capacity. When it
    /// ends past the committed watermark, the watermark grows to the next chunk
    /// boundary first. With poisoning on, the granted bytes, the alignment
    /// padding before them and a bounded lookahead after them are filled with
    /// `ALLOC_FILL`. Everything below the old offset is left as it was. On
    /// failure nothing changes.
    pub fn alloc_raw(&mut self, bytes: usize, alignment: usize) -> (r: Result<Region, AllocError>)
        requires
            old(self).wf(),
            is_pow2(alignment as int),
        ensures
            final(self).wf(),
            old(self).alloc_post(&*final(self), bytes as int, alignment as int, r),
            r is Ok <==> old(self).fits(bytes as int, alignment as int),
            r matches Ok(g) ==> {
                &&& g.beg == align_up(old(self).off(), alignment as int)
                &&& g.len == bytes
                &&& (g.beg as int) % (alignment as int) == 0
                &&& old(self).off() <= g.beg
                &&& final(self).off() == g.beg + g.len
                &&& final(self).cap() == old(self).cap()
                &&& final(self).generation() == old(self).generation()
                &&& final(self).committed() == old(self).commit_after(g.beg + g.len)
                &&& forall|i: int|
                    0 <= i < final(self).committed() ==> #[trigger] final(self).mem()[i] == if i
                        < old(self).off() {
                        old(self).mem()[i]
                    } else if old(self).poisons() && i < g.beg + g.len + FILL_LOOKAHEAD {
                        ALLOC_FILL
                    } else if i < old(self).committed() {
                        old(self).mem()[i]
                    } else {
                        0u8
                    }
            },
            r is Err ==> *final(self) == *old(self),
    {
        proof {
            lemma_pow2_positive(alignment as int);
            lemma_align_up(self.offset as int, alignment as int, self.capacity as int);
        }
        let rem: usize = self.offset % alignment;
        let pad: usize = if rem == 0 { 0 } else { alignment - rem };
        if pad > self.capacity - self.offset {
            return Err(AllocError);
        }
        let beg: usize = self.offset + pad;
        if bytes > self.capacity - beg {
            return Err(AllocError);
        }
        let end: usize = beg + bytes;
        if end > self.commit {
            return self.alloc_raw_bump(beg, end);
        }
        self.fill_granted(end);
        self.offset = end;
        Ok(Region { beg, len: bytes })
    }

    /// Cold path of `alloc_raw`: commits up to the chunk boundary past `end`.
    fn alloc_raw_bump(&mut self, beg: usize, end: usize) -> (r: Result<Region, AllocError>)
        requires
            old(self).wf(),
            old(self).off() <= beg <= end <= old(self).cap(),
            old(self).committed() < end,
        ensures
            r matches Ok(g) && g.beg == beg && g.len == end - beg,
            final(self).wf(),
            final(self).off() == end,
            final(self).cap() == old(self).cap(),
            final(self).generation() == old(self).generation(),
            final(self).poisons() == old(self).poisons(),
            final(self).committed() == chunk_ceil(end as int),
            forall|i: int|
                0 <= i < final(self).committed() ==> #[trigger] final(self).mem()[i] == if i
                    < old(self).off() {
                    old(self).mem()[i]
                } else if old(self).poisons() && i < end + FILL_LOOKAHEAD {
                    ALLOC_FILL
                } else if i < old(self).committed() {
                    old(self).mem()[i]
                } else {
                    0u8
                },
    {
        proof {
            lemma_align_up(end as int, ALLOC_CHUNK_SIZE as int, self.capacity as int);
        }
        let rem: usize = end % ALLOC_CHUNK_SIZE;
        let commit_new: usize = if rem == 0 { end } else { end + (ALLOC_CHUNK_SIZE - rem) };
        self.commit_to(commit_new);
        self.fill_granted(end);
        self.offset = end;
        Ok(Region { beg, len: end - beg })
    }

    /// Grows the committed watermark to `commit_new`; new bytes read as zero.
    fn commit_to(&mut self, commit_new: usize)
        requires
            old(self).wf(),
            old(self).committed() <= commit_new <= old(self).cap(),
            commit_new % ALLOC_CHUNK_SIZE == 0,
        ensures
            final(self).wf(),
            final(self).off() == old(self).off(),
            final(self).cap() == old(self).cap(),
            final(self).generation() == old(self).generation(),
            final(self).poisons() == old(self).poisons(),
            final(self).committed() == commit_new,
            forall|i: int|
                0 <= i < commit_new ==> #[trigger] final(self).mem()[i] == if i < old(
                    self,
                ).committed() {
                    old(self).mem()[i]
                } else {
                    0u8
                },
    {
        let mut n: usize = self.commit;
        while n < commit_new
            invariant
                self.capacity == old(self).capacity,
                self.commit == old(self).commit,
                self.offset == old(self).offset,
                self.borrows == old(self).borrows,
                self.poison == old(self).poison,
                old(self).commit <= n <= commit_new,
                self.memory@.len() == n,
                forall|i: int|
                    0 <= i < n ==> #[trigger] self.memory@[i] == if i < old(self).commit {
                        old(self).memory@[i]
                    } else {
                        0u8
                    },
            decreases commit_new - n,
        {
            self.memory.push(0);
            n = n + 1;
        }
        self.commit = commit_new;
    }

    /// With poisoning on, fills from the current offset up to `end` plus the
    /// lookahead (clipped to the committed watermark) with `ALLOC_FILL`.
    fn fill_granted(&mut self, end: usize)
        requires
            old(self).wf(),
            old(self).off() <= end <= old(self).committed(),
        ensures
            final(self).wf(),
            final(self).off() == old(self).off(),
            final(self).cap() == old(self).cap(),
            final(self).committed() == old(self).committed(),
            final(self).generation() == old(self).generation(),
            final(self).poisons() == old(self).poisons(),
            forall|i: int|
                0 <= i < old(self).committed() ==> #[trigger] final(self).mem()[i] == if old(
                    self,
                ).poisons() && old(self).off() <= i < end + FILL_LOOKAHEAD {
                    ALLOC_FILL
                } else {
                    old(self).mem()[i]
                },
    {
        let lim: usize = if self.commit - end >= FILL_LOOKAHEAD {
            end + FILL_LOOKAHEAD
        } else {
            self.commit
        };
        let from: usize = self.offset;
        if self.poison {
            self.fill(from, lim, ALLOC_FILL);
        }
    }

    /// Turns the fill bytes of allocations and resets on or off.
    pub fn set_poison(&mut self, on: bool)
        requires
            old(self).wf(),
        ensures
            final(self).wf(),
            final(self).poisons() == on,
            final(self).cap() == old(self).cap(),
            final(self).committed() == old(self).committed(),
            final(self).off() == old(self).off(),
            final(self).generation() == old(self).generation(),
            final(self).mem() == old(self).mem(),
    {
        self.poison = on;
    }
}

pub proof fn lemma_pow2_positive(a: int)
    requires
        is_pow2(a),
    ensures
        a >= 1,
{
}

/// Within one scope, an allocation starts at a multiple of its alignment, no
/// earlier than the offset before it, and the allocation after it starts no
/// earlier than where it ends: addresses only go up.
pub proof fn lemma_allocations_ascend(
    a: Arena,
    after: Arena,
    bytes: int,
    alignment: int,
    r: Result<Region, AllocError>,
    next_alignment: int,
)
    requires
        a.wf(),
        is_pow2(alignment),
        is_pow2(next_alignment),
        a.alloc_post(&after, bytes, alignment, r),
    ensures
        r matches Ok(g) ==> {
            &&& (g.beg as int) % alignment == 0
            &&& a.off() <= g.beg
            &&& g.beg + g.len <= align_up(after.off(), next_alignment)
        },
{
    lemma_pow2_positive(alignment);
    lemma_pow2_positive(next_alignment);
    lemma_align_up(a.off(), alignment, 0);
    if let Ok(g) = r {
        lemma_align_up(after.off(), next_alignment, 0);
    }
}

/// Space reuse is deterministic: once `reset(x)` has put an arena back at
/// offset `x`, an allocation gives the same result as the first allocation of
/// the same request made when the offset was `x`.
pub proof fn lemma_reset_reuses_space(
    first: Arena,
    first_after: Arena,
    first_r: Result<Region, AllocError>,
    before_reset: Arena,
    x: int,
    reset_state: Arena,
    later_after: Arena,
    later_r: Result<Region, AllocError>,
    bytes: int,
    alignment: int,
)
    requires
        first.off() == x,
        before_reset.cap() == first.cap(),
        first.alloc_post(&first_after, bytes, alignment, first_r),
        before_reset.reset_post(&reset_state, x),
        reset_state.alloc_post(&later_after, bytes, alignment, later_r),
    ensures
        later_r == first_r,
        later_after.off() == first_after.off(),
{
    match (first_r, later_r) {
        (Ok(g1), Ok(g2)) => {
            assert(g1 == g2);
        },
        (Err(e1), Err(e2)) => {
            assert(e1 == e2);
        },
        _ => {},
    }
}

} // verus!
