//! Viewport coordinates and byte-size units.

use vstd::prelude::*;
use vstd::string::StringSliceAdditionalSpecFns;

verus! {

/// `b` with ASCII upper case folded to lower case.
pub open spec fn ascii_lower(b: u8) -> u8 {
    if 0x41 <= b <= 0x5A {
        (b + 0x20) as u8
    } else {
        b
    }
}

/// `s` starts with `prefix`, comparing ASCII letters without regard to case.
pub open spec fn starts_with_ci(s: Seq<u8>, prefix: Seq<u8>) -> bool {
    &&& prefix.len() <= s.len()
    &&& forall|i: int| 0 <= i < prefix.len() ==> ascii_lower(#[trigger] s[i]) == ascii_lower(prefix[i])
}

pub trait AsciiStringHelpers {
    /// The bytes the comparison looks at.
    spec fn ascii_view(&self) -> Seq<u8>;

    /// Whether `self` starts with `prefix`, ignoring ASCII case.
    fn starts_with_ignore_ascii_case(&self, prefix: &str) -> (r: bool)
        ensures
            r == starts_with_ci(self.ascii_view(), prefix.spec_bytes()),
    ;
}

impl AsciiStringHelpers for str {
    open spec fn ascii_view(&self) -> Seq<u8> {
        self.spec_bytes()
    }

    fn starts_with_ignore_ascii_case(&self, prefix: &str) -> (r: bool) {
        let s = self.as_bytes();
        let p = prefix.as_bytes();
        if p.len() > s.len() {
            return false;
        }
        let mut i: usize = 0;
        while i < p.len()
            invariant
                i <= p@.len() <= s@.len(),
                s@ == self.spec_bytes(),
                p@ == prefix.spec_bytes(),
                forall|k: int| 0 <= k < i ==> ascii_lower(#[trigger] s@[k]) == ascii_lower(p@[k]),
            decreases p@.len() - i,
        {
            let a = s[i];
            let b = p[i];
            let la = if a >= 0x41 && a <= 0x5A { a + 0x20 } else { a };
            let lb = if b >= 0x41 && b <= 0x5A { b + 0x20 } else { b };
            if la != lb {
                return false;
            }
            i = i + 1;
        }
        true
    }
}

pub const KILO: usize = 1000;
pub const MEGA: usize = 1000000;
pub const KIBI: usize = 1024;
pub const MEBI: usize = 1048576;

/// A viewport coordinate.
pub type CoordType = isize;

/// A 2D point.
#[derive(Debug, Default, Clone, Copy, PartialEq, Eq, Structural)]
pub struct Point {
    pub x: CoordType,
    pub y: CoordType,
}

/// A 2D rectangle: `left`/`top` inclusive, `right`/`bottom` exclusive.
#[derive(Debug, Default, Clone, Copy, PartialEq, Eq, Structural)]
pub struct Rect {
    pub left: CoordType,
    pub top: CoordType,
    pub right: CoordType,
    pub bottom: CoordType,
}

/// A 2D size.
#[derive(Debug, Default, Clone, Copy, PartialEq, Eq, Structural)]
pub struct Size {
    pub width: CoordType,
    pub height: CoordType,
}

impl Size {
    /// The rectangle of this size at the origin.
    pub fn as_rect(&self) -> (r: Rect)
        ensures
            r == (Rect { left: 0, top: 0, right: self.width, bottom: self.height }),
    {
        Rect { left: 0, top: 0, right: self.width, bottom: self.height }
    }
}

} // verus!
