//! The terminal UI's persistent state: palette, default colors, modifier
//! names, viewport size and clipboard.

use vstd::prelude::*;
use crate::apperr::Error;
use crate::clipboard::Clipboard;
use crate::coords::Size;
use crate::framebuffer::{Framebuffer, IndexedColor, INDEXED_COLORS_COUNT};
use crate::oklab::StraightRgba;
use std::time::Duration;

verus! {

/// The names shown for the Ctrl/Alt/Shift modifiers.
pub struct ModifierTranslations {
    pub ctrl: &'static str,
    pub alt: &'static str,
    pub shift: &'static str,
}

/// Relies on `Duration::MAX`: the timeout that means "wait for input".
#[verifier::external_body]
fn no_timeout() -> (r: Duration) {
    Duration::MAX
}

pub struct Tui {
    framebuffer: Framebuffer,
    modifier_translations: ModifierTranslations,
    floater_default_bg: StraightRgba,
    floater_default_fg: StraightRgba,
    modal_default_bg: StraightRgba,
    modal_default_fg: StraightRgba,
    read_timeout: Duration,
    settling_have: i32,
    settling_want: i32,
    size: Size,
    clipboard: Clipboard,
}

impl Tui {
    pub closed spec fn fb(&self) -> Framebuffer {
        self.framebuffer
    }

    /// Default colors: (floater bg, floater fg, modal bg, modal fg).
    pub closed spec fn defaults(&self) -> (StraightRgba, StraightRgba, StraightRgba, StraightRgba) {
        (self.floater_default_bg, self.floater_default_fg, self.modal_default_bg, self.modal_default_fg)
    }

    pub closed spec fn modifiers(&self) -> (&'static str, &'static str, &'static str) {
        (
            self.modifier_translations.ctrl,
            self.modifier_translations.alt,
            self.modifier_translations.shift,
        )
    }

    pub closed spec fn timeout(&self) -> Duration {
        self.read_timeout
    }

    pub closed spec fn settling(&self) -> (i32, i32) {
        (self.settling_have, self.settling_want)
    }

    pub closed spec fn size_spec(&self) -> Size {
        self.size
    }

    pub closed spec fn clip(&self) -> Clipboard {
        self.clipboard
    }

    pub open spec fn wf(&self) -> bool {
        &&& self.fb().palette().len() == INDEXED_COLORS_COUNT
        &&& self.fb().auto().len() == 2
    }

    /// A TUI with the fallback palette, English modifier names, transparent
    /// default colors and an empty clipboard.
    pub fn new() -> (r: Result<Self, Error>)
        ensures
            r matches Ok(t) && {
                &&& t.wf()
                &&& t.defaults() == (
                    StraightRgba(0),
                    StraightRgba(0),
                    StraightRgba(0),
                    StraightRgba(0),
                )
                &&& t.modifiers() == ("Ctrl", "Alt", "Shift")
                &&& t.settling() == (0i32, 0i32)
                &&& t.size_spec() == (Size { width: 0, height: 0 })
                &&& t.clip().contents().len() == 0
            },
    {
        let tui = Tui {
            framebuffer: Framebuffer::new(),
            modifier_translations: ModifierTranslations { ctrl: "Ctrl", alt: "Alt", shift: "Shift" },
            floater_default_bg: StraightRgba::zero(),
            floater_default_fg: StraightRgba::zero(),
            modal_default_bg: StraightRgba::zero(),
            modal_default_fg: StraightRgba::zero(),
            read_timeout: no_timeout(),
            settling_have: 0,
            settling_want: 0,
            size: Size { width: 0, height: 0 },
            clipboard: Clipboard::default(),
        };
        Ok(tui)
    }

    /// Sets the palette; see `Framebuffer::set_indexed_colors`.
    pub fn setup_indexed_colors(
        &mut self,
        colors: [StraightRgba; INDEXED_COLORS_COUNT],
        black_is_dark: bool,
    )
        ensures
            final(self).wf(),
            final(self).fb().palette() == colors@,
            black_is_dark ==> final(self).fb().auto() == seq![colors@[0], colors@[15]],
            !black_is_dark ==> final(self).fb().auto() == seq![colors@[15], colors@[0]],
            final(self).defaults() == old(self).defaults(),
    {
        self.framebuffer.set_indexed_colors(colors, black_is_dark);
        assert(black_is_dark ==> self.framebuffer.auto() =~= seq![colors@[0], colors@[15]]);
        assert(!black_is_dark ==> self.framebuffer.auto() =~= seq![colors@[15], colors@[0]]);
    }

    /// A color of the palette.
    pub fn indexed(&self, index: IndexedColor) -> (r: StraightRgba)
        requires
            self.wf(),
        ensures
            r == self.fb().palette()[index.idx()],
    {
        self.framebuffer.indexed(index)
    }

    /// A color of the palette with alpha; see `Framebuffer::indexed_alpha`.
    pub fn indexed_alpha(&self, index: IndexedColor, numerator: u32, denominator: u32) -> (r:
        StraightRgba)
        requires
            self.wf(),
            denominator > 0,
            numerator <= denominator,
            255 * (numerator as int) <= u32::MAX,
        ensures
            r.0 == ((crate::framebuffer::alpha(numerator, denominator) << 24u32) | (
            self.fb().palette()[index.idx()].0 & 0x00ffffffu32)),
    {
        self.framebuffer.indexed_alpha(index, numerator, denominator)
    }

    /// The palette color that contrasts with `color`; see
    /// `Framebuffer::contrasted`.
    pub fn contrasted(&self, color: StraightRgba, color_is_dark: bool) -> (r: StraightRgba)
        requires
            self.wf(),
        ensures
            r == self.fb().auto()[if color_is_dark { 1int } else { 0int }],
    {
        self.framebuffer.contrasted(color, color_is_dark)
    }

    pub fn setup_modifier_translations(&mut self, translations: ModifierTranslations)
        ensures
            final(self).modifiers() == (translations.ctrl, translations.alt, translations.shift),
            final(self).fb() == old(self).fb(),
            final(self).defaults() == old(self).defaults(),
    {
        self.modifier_translations = translations;
    }

    /// Default background for floaters (dropdowns and the like).
    pub fn set_floater_default_bg(&mut self, color: StraightRgba)
        ensures
            final(self).defaults() == (color, old(self).defaults().1, old(self).defaults().2, old(
                self,
            ).defaults().3),
            final(self).fb() == old(self).fb(),
    {
        self.floater_default_bg = color;
    }

    /// Default foreground for floaters.
    pub fn set_floater_default_fg(&mut self, color: StraightRgba)
        ensures
            final(self).defaults() == (old(self).defaults().0, color, old(self).defaults().2, old(
                self,
            ).defaults().3),
            final(self).fb() == old(self).fb(),
    {
        self.floater_default_fg = color;
    }

    /// Default background for modals.
    pub fn set_modal_default_bg(&mut self, color: StraightRgba)
        ensures
            final(self).defaults() == (old(self).defaults().0, old(self).defaults().1, color, old(
                self,
            ).defaults().3),
            final(self).fb() == old(self).fb(),
    {
        self.modal_default_bg = color;
    }

    /// Default foreground for modals.
    pub fn set_modal_default_fg(&mut self, color: StraightRgba)
        ensures
            final(self).defaults() == (old(self).defaults().0, old(self).defaults().1, old(
                self,
            ).defaults().2, color),
            final(self).fb() == old(self).fb(),
    {
        self.modal_default_fg = color;
    }

    /// Takes the pending read timeout, leaving "wait for input" behind.
    pub fn read_timeout(&mut self) -> (r: Duration)
        ensures
            r == old(self).timeout(),
            final(self).fb() == old(self).fb(),
            final(self).defaults() == old(self).defaults(),
    {
        let r = self.read_timeout;
        self.read_timeout = no_timeout();
        r
    }

    /// The last known viewport size.
    pub fn size(&self) -> (r: Size)
        ensures
            r == self.size_spec(),
    {
        self.size
    }

    /// The clipboard, for changing it.
    pub fn clipboard_mut(&mut self) -> (r: &mut Clipboard)
        ensures
            *r == old(self).clip(),
            final(self).clip() == *final(r),
            final(self).fb() == old(self).fb(),
            final(self).defaults() == old(self).defaults(),
    {
        &mut self.clipboard
    }

    /// Whether the UI needs another frame before its layout has settled.
    pub fn needs_settling(&mut self) -> (r: bool)
        ensures
            r == (old(self).settling().0 <= old(self).settling().1),
            final(self).settling() == old(self).settling(),
    {
        self.settling_have <= self.settling_want
    }
}

} // verus!
