use ze2::clipboard::Clipboard;
use ze2::oklab::StraightRgba;
use ze2::tui::{Anchor, ButtonStyle, Overflow, Position};

#[test]
fn clipboard_write_read_and_sync() {
    let mut c = Clipboard::new();
    assert!(c.read().is_empty());
    assert!(!c.wants_host_sync());
    c.write(b"abc".to_vec());
    assert_eq!(c.read(), b"abc");
    assert!(c.wants_host_sync());
    assert!(!c.is_line_copy());
    c.write_was_line_copy(true);
    assert!(c.is_line_copy());
    c.write(Vec::new());
    assert_eq!(c.read(), b"abc");
    assert!(c.is_line_copy());
    c.mark_as_synchronized();
    assert!(!c.wants_host_sync());
    c.write(b"x".to_vec());
    assert!(!c.is_line_copy());
}

#[test]
fn straight_rgba_channels() {
    let c = StraightRgba(0x80402010);
    assert_eq!(c.red(), 0x10);
    assert_eq!(c.green(), 0x20);
    assert_eq!(c.blue(), 0x40);
    assert_eq!(c.alpha(), 0x80);
    assert_eq!(c.to_ne(), 0x80402010);
    assert_eq!(StraightRgba::zero().to_ne(), 0);
    assert_eq!(StraightRgba::from_le(0x80402010u32.to_le()).to_ne(), 0x80402010);
    assert_eq!(StraightRgba::from_be(0x80402010u32.to_be()).to_ne(), 0x80402010);
    assert_eq!(c.to_le(), 0x80402010u32.to_le());
    assert_eq!(c.to_be(), 0x80402010u32.to_be());
    assert_ne!(c.to_le(), c.to_be());
}

#[test]
fn button_style_builders() {
    let s = ButtonStyle::default();
    assert_eq!(s, ButtonStyle { accelerator: None, checked: None, bracketed: true });
    let s = s.accelerator('X').checked(true).bracketed(false);
    assert_eq!(s, ButtonStyle { accelerator: Some('X'), checked: Some(true), bracketed: false });
    assert_eq!(Anchor::default(), Anchor::Last);
    assert_eq!(Position::default(), Position::Stretch);
    assert_eq!(Overflow::default(), Overflow::Clip);
}

#[test]
fn large_clipboards_need_consent() {
    let cap = 512 * ze2::helpers::MEBI;
    assert_eq!(ze2::clipboard::clipboard_prompt(10, false, cap), ze2::clipboard::ClipboardPrompt::Send);
    assert_eq!(
        ze2::clipboard::clipboard_prompt(200 * ze2::helpers::KIBI, false, cap),
        ze2::clipboard::ClipboardPrompt::Ask { default_yes: true }
    );
    assert_eq!(
        ze2::clipboard::clipboard_prompt(2 * ze2::helpers::MEBI, false, cap),
        ze2::clipboard::ClipboardPrompt::Ask { default_yes: false }
    );
    assert_eq!(ze2::clipboard::clipboard_prompt(2 * ze2::helpers::MEBI, true, cap), ze2::clipboard::ClipboardPrompt::Send);
    assert_eq!(
        ze2::clipboard::clipboard_prompt(128 * ze2::helpers::MEBI, false, cap),
        ze2::clipboard::ClipboardPrompt::TooLarge
    );
}

#[test]
fn size_placeholders_are_filled_once() {
    let size = ze2::helpers::MetricFormatter(200 * ze2::helpers::KIBI).to_text();
    assert_eq!(ze2::clipboard::replace_once(b"Copy {size}? {size}", b"{size}", &size), b"Copy 204kB? {size}".to_vec());
    assert_eq!(ze2::clipboard::replace_once(b"nothing", b"{size}", b"x"), b"nothing".to_vec());
    assert_eq!(ze2::clipboard::replace_once(b"ab", b"", b"x"), b"xab".to_vec());
}
