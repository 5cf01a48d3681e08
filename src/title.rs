//! The terminal window title: `● name - whitedew` for a changed document,
//! `name - whitedew` for a saved one, and `whitedew` without a document.

use vstd::prelude::*;
use vstd::string::StringSliceAdditionalSpecFns;
use vstd::utf8::*;
use crate::release::{self, AllocError};
use crate::string::{grown_cap, ArenaString};
use crate::term::{sanitize_control_chars, sanitized};

verus! {

broadcast use vstd::seq::group_seq_axioms;

/// Sanitizing keeps valid UTF-8 valid: only ASCII bytes change, into ASCII.
pub proof fn lemma_sanitized_valid(s: Seq<u8>)
    requires
        valid_utf8(s),
    ensures
        valid_utf8(sanitized(s)),
    decreases s.len(),
{
    if s.len() > 0 {
        let t = sanitized(s);
        let n = length_of_first_scalar(s);
        let rest = pop_first_scalar(s);
        lemma_sanitized_valid(rest);
        if n == 1 {
            assert(t[0] < 0x80);
        } else {
            assert(forall|i: int| 0 <= i < n ==> s[i] >= 0x80);
            assert(forall|i: int| 0 <= i < n ==> t[i] == s[i]);
        }
        assert(valid_first_scalar(t));
        assert(length_of_first_scalar(t) == n);
        assert(pop_first_scalar(t) =~= sanitized(rest));
    }
}

/// "\x1b]0;"
pub open spec fn title_open() -> Seq<u8> {
    seq![0x1Bu8, 0x5Du8, 0x30u8, 0x3Bu8]
}

/// "● " (U+25CF and a space)
pub open spec fn dirty_mark() -> Seq<u8> {
    seq![0xE2u8, 0x97u8, 0x8Fu8, 0x20u8]
}

/// " - "
pub open spec fn name_sep() -> Seq<u8> {
    seq![0x20u8, 0x2Du8, 0x20u8]
}

/// "whitedew\x1b\\"
pub open spec fn title_close() -> Seq<u8> {
    seq![0x77u8, 0x68u8, 0x69u8, 0x74u8, 0x65u8, 0x64u8, 0x65u8, 0x77u8, 0x1Bu8, 0x5Cu8]
}

/// The OSC 0 sequence that sets the title for `filename`.
pub open spec fn title_sequence(filename: Seq<u8>, dirty: bool) -> Seq<u8> {
    if filename.len() == 0 {
        title_open() + title_close()
    } else {
        title_open() + (if dirty {
            dirty_mark()
        } else {
            Seq::empty()
        }) + sanitized(filename) + name_sep() + title_close()
    }
}

/// The title that was last written.
pub struct TitleStatus {
    filename: Vec<u8>,
    dirty: bool,
}

impl TitleStatus {
    pub closed spec fn last(&self) -> (Seq<u8>, bool) {
        (self.filename@, self.dirty)
    }

    /// No title written yet (which reads as an unnamed, saved document).
    pub fn new() -> (r: Self)
        ensures
            r.last() == (Seq::<u8>::empty(), false),
    {
        let r = TitleStatus { filename: Vec::new(), dirty: false };
        assert(r.filename@ =~= Seq::<u8>::empty());
        r
    }
}

/// Whether two byte slices hold the same bytes.
fn same_bytes(a: &[u8], b: &[u8]) -> (r: bool)
    ensures
        r == (a@ == b@),
{
    if a.len() != b.len() {
        return false;
    }
    let mut i: usize = 0;
    while i < a.len()
        invariant
            i <= a@.len() == b@.len(),
            forall|k: int| 0 <= k < i ==> a@[k] == b@[k],
        decreases a@.len() - i,
    {
        if a[i] != b[i] {
            return false;
        }
        i = i + 1;
    }
    assert(a@ =~= b@);
    true
}

/// Appends the title sequence for `filename` to `output`, unless the title
/// already shows it; records what was written in `status`.
pub fn write_terminal_title(
    output: &mut ArenaString,
    arena: &mut release::Arena,
    status: &mut TitleStatus,
    filename: &str,
    dirty: bool,
) -> (r: Result<(), AllocError>)
    requires
        old(output).wf(&*old(arena)),
    ensures
        final(output).wf(&*final(arena)),
        old(status).last() == (filename.spec_bytes(), dirty) ==> {
            &&& r is Ok
            &&& *final(output) == *old(output)
            &&& *final(arena) == *old(arena)
            &&& final(status).last() == old(status).last()
        },
        old(status).last() != (filename.spec_bytes(), dirty) ==> {
            let want = title_sequence(filename.spec_bytes(), dirty);
            &&& r is Ok <==> (old(output).len_spec() + want.len() <= old(output).capacity_spec()
                || old(arena).fits(
                grown_cap(old(output).capacity_spec(), old(output).len_spec() + want.len()),
                1,
            ))
            &&& r is Ok ==> final(output).text(&*final(arena)) == old(output).text(&*old(arena))
                + want && final(status).last() == (filename.spec_bytes(), dirty)
            &&& r is Err ==> *final(output) == *old(output) && *final(arena) == *old(arena)
                && final(status).last() == old(status).last()
        },
{
    let name = filename.as_bytes();
    if dirty == status.dirty && same_bytes(name, status.filename.as_slice()) {
        return Ok(());
    }
    let clean = sanitize_control_chars(name);
    let mut t: Vec<u8> = Vec::new();
    t.push(0x1B);
    t.push(0x5D);
    t.push(0x30);
    t.push(0x3B);
    if name.len() > 0 {
        if dirty {
            t.push(0xE2);
            t.push(0x97);
            t.push(0x8F);
            t.push(0x20);
        }
        let mut i: usize = 0;
        let ghost head = t@;
        while i < clean.len()
            invariant
                i <= clean@.len(),
                t@ == head + clean@.subrange(0, i as int),
            decreases clean@.len() - i,
        {
            t.push(clean[i]);
            i = i + 1;
        }
        t.push(0x20);
        t.push(0x2D);
        t.push(0x20);
    }
    let close: [u8; 10] = [0x77, 0x68, 0x69, 0x74, 0x65, 0x64, 0x65, 0x77, 0x1B, 0x5C];
    let mut j: usize = 0;
    let ghost body = t@;
    while j < 10
        invariant
            j <= 10,
            t@ == body + close@.subrange(0, j as int),
        decreases 10 - j,
    {
        t.push(close[j]);
        j = j + 1;
    }
    proof {
        assert(close@ =~= title_close());
        assert(clean@.subrange(0, clean@.len() as int) =~= clean@);
        assert(t@ =~= title_sequence(name@, dirty));
        encode_utf8_valid_utf8(filename@);
        lemma_sanitized_valid(name@);
        lemma_title_valid(name@, dirty);
    }
    match output.reserve(arena, t.len()) {
        Ok(()) => {},
        Err(e) => {
            return Err(e);
        },
    }
    output.push_valid(arena, t.as_slice());
    status.filename = vstd::slice::slice_to_vec(name);
    status.dirty = dirty;
    Ok(())
}

proof fn lemma_ascii_valid(s: Seq<u8>)
    requires
        forall|i: int| 0 <= i < s.len() ==> #[trigger] s[i] < 0x80,
    ensures
        valid_utf8(s),
    decreases s.len(),
{
    if s.len() > 0 {
        assert(pop_first_scalar(s) =~= s.subrange(1, s.len() as int));
        lemma_ascii_valid(s.subrange(1, s.len() as int));
    }
}

proof fn lemma_title_valid(filename: Seq<u8>, dirty: bool)
    requires
        valid_utf8(sanitized(filename)),
    ensures
        valid_utf8(title_sequence(filename, dirty)),
{
    lemma_ascii_valid(title_open());
    lemma_ascii_valid(title_close());
    lemma_ascii_valid(name_sep());
    lemma_ascii_valid(Seq::<u8>::empty());
    let m = dirty_mark();
    assert(codepoint_width_3(0xE2u8, 0x97u8, 0x8Fu8) == 0x25CFu32) by (bit_vector);
    assert(pop_first_scalar(m) =~= seq![0x20u8]);
    lemma_ascii_valid(seq![0x20u8]);
    assert(valid_utf8(m));
    let d = if dirty {
        m
    } else {
        Seq::<u8>::empty()
    };
    valid_utf8_concat(title_open(), title_close());
    valid_utf8_concat(title_open(), d);
    valid_utf8_concat(title_open() + d, sanitized(filename));
    valid_utf8_concat(title_open() + d + sanitized(filename), name_sep());
    valid_utf8_concat(title_open() + d + sanitized(filename) + name_sep(), title_close());
}

} // verus!
