use whitedew::oklab::StraightRgba;
use whitedew::osc::{find_osc, parse_color_report};
use whitedew::release::Arena;
use whitedew::string::ArenaString;
use whitedew::title::{write_terminal_title, TitleStatus};

#[test]
fn color_report_base_color() {
    assert_eq!(
        parse_color_report(b"4;1;rgb:ffff/0000/0000"),
        Some((1, StraightRgba(0xff0000ff)))
    );
    assert_eq!(
        parse_color_report(b"4;15;rgb:12/34/56"),
        Some((15, StraightRgba(0xff563412)))
    );
    assert_eq!(
        parse_color_report(b"4;+3;rgb:00/00/00"),
        Some((3, StraightRgba(0xff000000)))
    );
}

#[test]
fn color_report_default_colors() {
    assert_eq!(parse_color_report(b"10;rgb:be/be/be"), Some((17, StraightRgba(0xffbebebe))));
    assert_eq!(parse_color_report(b"11;rgb:0000/0000/0000"), Some((16, StraightRgba(0xff000000))));
}

#[test]
fn color_report_rounds_16_bit_components() {
    assert_eq!(parse_color_report(b"10;rgb:8080/0000/0000"), Some((17, StraightRgba(0xff000080))));
    assert_eq!(parse_color_report(b"10;rgb:ffff/ffff/ffff"), Some((17, StraightRgba(0xffffffff))));
}

#[test]
fn color_report_skips_odd_components() {
    assert_eq!(parse_color_report(b"10;rgb:fff/12/34"), Some((17, StraightRgba(0xff341200))));
    assert_eq!(parse_color_report(b"10;rgb:+f/00/00"), Some((17, StraightRgba(0xff00000f))));
    assert_eq!(parse_color_report(b"10;rgb:zz/00/00"), Some((17, StraightRgba(0xff000000))));
    assert_eq!(parse_color_report(b"10;rgb:"), Some((17, StraightRgba(0xff000000))));
}

#[test]
fn color_report_rejects_other_payloads() {
    assert_eq!(parse_color_report(b"4;16;rgb:00/00/00"), None);
    assert_eq!(parse_color_report(b"4;x;rgb:00/00/00"), None);
    assert_eq!(parse_color_report(b"4;;rgb:00/00/00"), None);
    assert_eq!(parse_color_report(b"12;rgb:00/00/00"), None);
    assert_eq!(parse_color_report(b"10;rgba:00/00/00"), None);
    assert_eq!(parse_color_report(b"10"), None);
    assert_eq!(parse_color_report(b""), None);
}

#[test]
fn osc_sequences_are_found() {
    let input = b"xx\x1b]4;1;rgb:1/2/3\x07yy\x1b]10;a\x1b\\z\x1b]11;b";
    let (b, e, next) = find_osc(input, 0).unwrap();
    assert_eq!(&input[b..e], b"4;1;rgb:1/2/3");
    assert_eq!(input[next], b'y');
    let (b2, e2, next2) = find_osc(input, next).unwrap();
    assert_eq!(&input[b2..e2], b"10;a");
    assert_eq!(input[next2], b'z');
    assert_eq!(find_osc(input, next2), None);
    assert_eq!(find_osc(b"", 0), None);
    assert_eq!(find_osc(b"abc", 10), None);
}

#[test]
fn title_with_dirty_document() {
    let mut a = Arena::new(1 << 16).unwrap();
    let mut out = ArenaString::new_in(&a);
    let mut status = TitleStatus::new();
    write_terminal_title(&mut out, &mut a, &mut status, "", false).unwrap();
    assert_eq!(out.as_str(&a), "");
    write_terminal_title(&mut out, &mut a, &mut status, "a\x1bb.txt", true).unwrap();
    assert_eq!(out.as_str(&a), "\x1b]0;\u{25CF} a_b.txt - whitedew\x1b\\");
    write_terminal_title(&mut out, &mut a, &mut status, "a\x1bb.txt", true).unwrap();
    assert_eq!(out.as_str(&a), "\x1b]0;\u{25CF} a_b.txt - whitedew\x1b\\");
}

#[test]
fn title_changes_are_written() {
    let mut a = Arena::new(1 << 16).unwrap();
    let mut out = ArenaString::new_in(&a);
    let mut status = TitleStatus::new();
    write_terminal_title(&mut out, &mut a, &mut status, "notes.md", false).unwrap();
    assert_eq!(out.as_str(&a), "\x1b]0;notes.md - whitedew\x1b\\");
    write_terminal_title(&mut out, &mut a, &mut status, "", false).unwrap();
    assert_eq!(out.as_str(&a), "\x1b]0;notes.md - whitedew\x1b\\\x1b]0;whitedew\x1b\\");
}

#[test]
fn title_without_room_changes_nothing() {
    let mut a = Arena::new(1).unwrap();
    a.alloc_raw(65536 - 4, 1).unwrap();
    let mut out = ArenaString::new_in(&a);
    let mut status = TitleStatus::new();
    assert!(write_terminal_title(&mut out, &mut a, &mut status, "x", true).is_err());
    assert_eq!(out.len(), 0);
    write_terminal_title(&mut out, &mut a, &mut status, "", false).unwrap();
    assert_eq!(out.len(), 0);
}
