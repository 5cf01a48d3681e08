use whitedew::apperr::Error;
use whitedew::args::{parse_args, CommandLine};
use whitedew::base64::{encode, encode_len};
use whitedew::buffer::TextBuffer;
use whitedew::clipboard::Clipboard;
use whitedew::coords::{AsciiStringHelpers, Rect, Size};
use whitedew::documents::DocumentManager;
use whitedew::framebuffer::{default_theme, Framebuffer, IndexedColor};
use whitedew::input::Parser;
use whitedew::oklab::StraightRgba;
use whitedew::release::{AllocError, Arena};
use whitedew::state::{FormatApperr, StateFilePicker};
use whitedew::string::ArenaString;
use whitedew::sys::{apperr_format, check_int_return, errno_to_apperr, get_last_error, init};
use whitedew::term::{incomplete_utf8_tail, memchr2, sanitize_control_chars};
use whitedew::tui::{ModifierTranslations, Tui};

fn b64(src: &[u8]) -> String {
    let mut a = Arena::new(1 << 16).unwrap();
    let mut s = ArenaString::new_in(&a);
    encode(&mut s, &mut a, src).unwrap();
    s.as_str(&a).to_string()
}

#[test]
fn base64_known_values() {
    assert_eq!(b64(b""), "");
    assert_eq!(b64(b"M"), "TQ==");
    assert_eq!(b64(b"Ma"), "TWE=");
    assert_eq!(b64(b"Man"), "TWFu");
    assert_eq!(b64(b"hello world"), "aGVsbG8gd29ybGQ=");
    assert_eq!(b64(&[0xff, 0xfe, 0xfd, 0x00]), "//79AA==");
}

#[test]
fn base64_appends() {
    let mut a = Arena::new(1 << 16).unwrap();
    let mut s = ArenaString::new_in(&a);
    s.push_str(&mut a, "\x1b]52;c;").unwrap();
    encode(&mut s, &mut a, b"hi").unwrap();
    assert_eq!(s.as_str(&a), "\x1b]52;c;aGk=");
}

#[test]
fn base64_fails_without_room() {
    let mut a = Arena::new(1).unwrap();
    let mut s = ArenaString::new_in(&a);
    let data = vec![0u8; 60000];
    assert_eq!(encode(&mut s, &mut a, &data), Err(AllocError));
    assert_eq!(s.len(), 0);
}

#[test]
fn base64_encode_len() {
    assert_eq!(encode_len(0), 0);
    assert_eq!(encode_len(1), 4);
    assert_eq!(encode_len(3), 4);
    assert_eq!(encode_len(4), 8);
    assert_eq!(encode_len(11), 16);
}

#[test]
fn errors_and_errno() {
    assert_eq!(Error::new_app(3), Error::App(3));
    assert_eq!(Error::new_icu(4), Error::Icu(4));
    assert_eq!(Error::new_sys(5), Error::Sys(5));
    assert_eq!(errno_to_apperr(-7), Error::Sys(0));
    assert_eq!(errno_to_apperr(13), Error::Sys(13));
    assert!(matches!(get_last_error(), Error::Sys(_)));
    assert_eq!(check_int_return(4), Ok(4));
    assert!(matches!(check_int_return(-1), Err(Error::Sys(_))));
    assert_eq!(FormatApperr::from(Error::App(1)).0, Error::App(1));
    let _guard = init();
}

#[test]
fn apperr_format_text() {
    assert_eq!(apperr_format(2), "Error 2");
    assert_eq!(apperr_format(4294967295), "Error 4294967295");
}

#[test]
fn memchr2_finds_first_needle() {
    let hay = b"abc\ndef\rgh";
    assert_eq!(memchr2(b'\n', b'\r', hay, 0), 3);
    assert_eq!(memchr2(b'\n', b'\r', hay, 4), 7);
    assert_eq!(memchr2(b'\n', b'\r', hay, 8), 10);
    assert_eq!(memchr2(b'\n', b'\r', hay, 100), 10);
    assert_eq!(memchr2(b'x', b'y', b"", 0), 0);
}

#[test]
fn incomplete_tail_is_held_back() {
    assert_eq!(incomplete_utf8_tail(b""), 0);
    assert_eq!(incomplete_utf8_tail(b"abc"), 3);
    assert_eq!(incomplete_utf8_tail(b"ab\xe2\x82"), 2);
    assert_eq!(incomplete_utf8_tail(b"ab\xe2\x82\xac"), 5);
    assert_eq!(incomplete_utf8_tail(b"a\xf0\x9f\x98"), 1);
    assert_eq!(incomplete_utf8_tail(b"a\xc3"), 1);
    assert_eq!(incomplete_utf8_tail(b"a\xff"), 2);
    assert_eq!(incomplete_utf8_tail(b"\x80\x80\x80\x80"), 4);
}

#[test]
fn control_chars_become_underscores() {
    assert_eq!(sanitize_control_chars(b"a\x1bb\tc d"), b"a_b_c d".to_vec());
    assert_eq!(sanitize_control_chars("é".as_bytes()), "é".as_bytes().to_vec());
}

#[test]
fn straight_rgba_packing() {
    assert_eq!(StraightRgba::from_be(0xbe2c21ff), StraightRgba(0xff212cbe));
    assert_eq!(StraightRgba::from_le(0x11223344).to_le(), 0x11223344);
    assert_eq!(StraightRgba::zero(), StraightRgba(0));
}

#[test]
fn framebuffer_palette() {
    let mut fb = Framebuffer::new();
    let theme = default_theme();
    assert_eq!(fb.indexed(IndexedColor::Red), theme[1]);
    assert_eq!(fb.indexed(IndexedColor::Foreground), StraightRgba::from_be(0xbebebeff));
    assert_eq!(fb.indexed_alpha(IndexedColor::BrightBlue, 1, 2), StraightRgba(0x7fff6a2f));
    assert_eq!(fb.indexed_alpha(IndexedColor::Black, 0, 1), StraightRgba(0x00000000));
    assert_eq!(fb.contrasted(StraightRgba(0), true), theme[15]);
    assert_eq!(fb.contrasted(StraightRgba(0), false), theme[0]);
    let mut light = theme;
    light[0] = StraightRgba(0xffffffff);
    light[15] = StraightRgba(0xff000000);
    fb.set_indexed_colors(light, false);
    assert_eq!(fb.indexed(IndexedColor::Black), StraightRgba(0xffffffff));
    assert_eq!(fb.contrasted(StraightRgba(0), true), StraightRgba(0xffffffff));
    assert_eq!(fb.contrasted(StraightRgba(0), false), StraightRgba(0xff000000));
    fb.set_indexed_colors(theme, true);
    assert_eq!(fb.contrasted(StraightRgba(0), true), theme[15]);
}

#[test]
fn tui_settings() {
    let mut tui = Tui::new().unwrap();
    assert_eq!(tui.size(), Size { width: 0, height: 0 });
    assert!(tui.needs_settling());
    assert_eq!(tui.indexed(IndexedColor::Green), default_theme()[2]);
    assert_eq!(
        tui.indexed_alpha(IndexedColor::Background, 2, 3),
        StraightRgba(0xaa000000)
    );
    assert_eq!(tui.contrasted(StraightRgba(0), true), default_theme()[15]);
    tui.set_floater_default_bg(StraightRgba(1));
    tui.set_floater_default_fg(StraightRgba(2));
    tui.set_modal_default_bg(StraightRgba(3));
    tui.set_modal_default_fg(StraightRgba(4));
    tui.setup_modifier_translations(ModifierTranslations { ctrl: "Strg", alt: "Alt", shift: "Umschalt" });
    assert_eq!(tui.read_timeout(), std::time::Duration::MAX);
    assert_eq!(tui.read_timeout(), std::time::Duration::MAX);
    assert!(tui.clipboard_mut().read().is_empty());
    let mut colors = default_theme();
    colors[3] = StraightRgba(0xff123456);
    tui.setup_indexed_colors(colors, true);
    assert_eq!(tui.indexed(IndexedColor::Yellow), StraightRgba(0xff123456));
}

#[test]
fn small_types() {
    let s = Size { width: 80, height: 24 };
    assert_eq!(s.as_rect(), Rect { left: 0, top: 0, right: 80, bottom: 24 });
    assert!(Clipboard::default().read().is_empty());
    let _p = Parser::new();
    let mut b = TextBuffer::new(true).unwrap();
    assert!(!b.is_dirty());
    b.mark_as_dirty();
    assert!(b.is_dirty());
    assert_ne!(StateFilePicker::Open, StateFilePicker::Idle);
}

#[test]
fn documents_newest_first() {
    let mut docs = DocumentManager::default();
    assert!(docs.active().is_none());
    docs.add_untitled().unwrap().filename.push_str("first");
    let d = docs.add_file_path("/tmp/x.txt").unwrap();
    assert!(d.filename.is_empty());
    d.buffer.mark_as_dirty();
    let active = docs.active().unwrap();
    assert!(active.buffer.is_dirty());
    assert!(active.filename.is_empty());
    docs.reflow_all();
}

#[test]
fn ascii_prefix_ignores_case() {
    assert!("pt_BR.UTF-8".starts_with_ignore_ascii_case("PT_br"));
    assert!("en".starts_with_ignore_ascii_case(""));
    assert!(!"en".starts_with_ignore_ascii_case("en-US"));
    assert!(!"de".starts_with_ignore_ascii_case("fr"));
    assert!("Ünïcode".starts_with_ignore_ascii_case("Ünï"));
}

fn argv(items: &[&str]) -> Vec<Vec<u8>> {
    items.iter().map(|s| s.as_bytes().to_vec()).collect()
}

#[test]
fn command_line_files_and_options() {
    assert_eq!(parse_args(&argv(&[])), CommandLine::Open { paths: vec![] });
    assert_eq!(parse_args(&argv(&["a.txt", "b.txt"])), CommandLine::Open { paths: vec![0, 1] });
    assert_eq!(parse_args(&argv(&["a.txt", "-h"])), CommandLine::Help);
    assert_eq!(parse_args(&argv(&["--version", "x"])), CommandLine::Version);
    assert_eq!(parse_args(&argv(&["--", "-h", "-"])), CommandLine::Open { paths: vec![1, 2] });
    assert_eq!(parse_args(&argv(&["a", "-", "b"])), CommandLine::Open { paths: vec![] });
    assert_eq!(parse_args(&argv(&["--helpme"])), CommandLine::Open { paths: vec![0] });
}
