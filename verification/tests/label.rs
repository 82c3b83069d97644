use ze2::framebuffer::Attributes;
use ze2::input::{kbmod, vk};
use ze2::label::{button_label, menubar_shortcut_text, StyledText, StyledTextChunk};
use ze2::oklab::StraightRgba;
use ze2::tui::{ButtonStyle, ModifierTranslations};

fn chunk(offset: usize, attr: u8) -> StyledTextChunk {
    StyledTextChunk { offset, fg: StraightRgba(0), attr: Attributes(attr) }
}

fn style(accelerator: Option<char>, checked: Option<bool>, bracketed: bool) -> ButtonStyle {
    ButtonStyle { accelerator, checked, bracketed }
}

#[test]
fn accelerators_are_underlined_in_place() {
    let l = button_label("Open", style(Some('O'), None, true));
    assert_eq!(l.text, b"[Open]".to_vec());
    assert_eq!(l.chunks, vec![chunk(1, 4), chunk(2, 0)]);
    // The exact letter wins over an earlier lower case one.
    let l = button_label("save As", style(Some('A'), None, false));
    assert_eq!(l.chunks, vec![chunk(5, 4), chunk(6, 0)]);
    // Else the first lower case one.
    let l = button_label("Save as", style(Some('A'), None, false));
    assert_eq!(l.chunks, vec![chunk(1, 4), chunk(2, 0)]);
}

#[test]
fn missing_accelerators_follow_in_parentheses() {
    let l = button_label("Xyz", style(Some('Q'), None, false));
    assert_eq!(l.text, b"Xyz(Q)".to_vec());
    assert_eq!(l.chunks, vec![chunk(4, 4), chunk(5, 0)]);
    // A lower case accelerator is no accelerator.
    let l = button_label("Xyz", style(Some('x'), None, false));
    assert_eq!(l.text, b"Xyz".to_vec());
    assert!(l.chunks.is_empty());
}

#[test]
fn check_boxes_come_first() {
    let l = button_label("Wrap", style(None, Some(true), true));
    let mut expected = b"[".to_vec();
    expected.extend_from_slice("🗹 ".as_bytes());
    expected.extend_from_slice(b"Wrap]");
    assert_eq!(l.text, expected);
    let l = button_label("Wrap", style(None, Some(false), false));
    assert_eq!(l.text, b"  Wrap".to_vec());
}

#[test]
fn style_changes_without_text_keep_the_first() {
    let mut l = StyledText::new();
    l.set_attributes(Attributes(4));
    l.set_attributes(Attributes(1));
    assert_eq!(l.chunks, vec![chunk(0, 4)]);
    l.add_text("ab");
    l.set_foreground(StraightRgba(0xff0000ff));
    assert_eq!(l.chunks[1], StyledTextChunk { offset: 2, fg: StraightRgba(0xff0000ff), attr: Attributes(4) });
    // The same style again adds nothing.
    l.add_text("c");
    l.set_foreground(StraightRgba(0xff0000ff));
    assert_eq!(l.chunks.len(), 2);
}

#[test]
fn shortcut_texts_name_the_modifiers() {
    let t = ModifierTranslations { ctrl: "Ctrl", alt: "Alt", shift: "Shift" };
    assert_eq!(menubar_shortcut_text(kbmod::CTRL | vk::S, &t), Some(b"Ctrl+S".to_vec()));
    assert_eq!(menubar_shortcut_text(kbmod::CTRL_ALT_SHIFT | vk::N, &t), Some(b"Ctrl+Alt+Shift+N".to_vec()));
    assert_eq!(menubar_shortcut_text(vk::F2, &t), None);
    assert_eq!(menubar_shortcut_text(vk::NULL, &t), None);
}
