//! The View menu: its items with their accelerators and shortcuts, which of
//! them are checked, and what choosing one does.

use vstd::prelude::*;
use crate::commands::definition::{Command, CommandArgs, CommandFocusTarget, CommandInvocation, InvocationView};
use crate::helpers::CoordType;
use crate::input::{kbmod, vk, InputKey};
use crate::settings::EditorColor;

verus! {

/// An item of the View menu.
#[derive(Clone, Copy, Debug, PartialEq, Eq, Structural)]
pub enum ViewMenuItem {
    Ruler,
    WordWrap,
    WordWrap60,
    WordWrap80,
    ResetWordWrapColumn,
    CenterText,
    HighlightCurrentChar,
    ColorOriginal,
    ColorWhiteOnBlue,
}

/// What the View menu shows checked: the active document's word wrap and
/// column, and the editor's view options.
#[derive(Clone, Copy, Debug, PartialEq, Eq, Structural)]
pub struct ViewState {
    pub word_wrap: bool,
    pub word_wrap_column: CoordType,
    pub ruler: bool,
    pub center_text: bool,
    pub highlight_current_char: bool,
    pub editor_color: EditorColor,
}

/// The items of the View menu, top to bottom.
pub open spec fn spec_view_menu_items() -> Seq<ViewMenuItem> {
    seq![
        ViewMenuItem::Ruler,
        ViewMenuItem::WordWrap,
        ViewMenuItem::WordWrap60,
        ViewMenuItem::WordWrap80,
        ViewMenuItem::ResetWordWrapColumn,
        ViewMenuItem::CenterText,
        ViewMenuItem::HighlightCurrentChar,
        ViewMenuItem::ColorOriginal,
        ViewMenuItem::ColorWhiteOnBlue,
    ]
}

/// The items of the View menu, top to bottom.
pub fn view_menu_items() -> (r: Vec<ViewMenuItem>)
    ensures
        r@ == spec_view_menu_items(),
{
    let r = vec![
        ViewMenuItem::Ruler,
        ViewMenuItem::WordWrap,
        ViewMenuItem::WordWrap60,
        ViewMenuItem::WordWrap80,
        ViewMenuItem::ResetWordWrapColumn,
        ViewMenuItem::CenterText,
        ViewMenuItem::HighlightCurrentChar,
        ViewMenuItem::ColorOriginal,
        ViewMenuItem::ColorWhiteOnBlue,
    ];
    assert(r@ =~= spec_view_menu_items());
    r
}

/// An item's accelerator letter and its shortcut (`vk::NULL` for none): Alt+Z
/// toggles word wrap.
pub fn view_menu_keys(item: ViewMenuItem) -> (r: (char, InputKey))
    ensures
        r == match item {
            ViewMenuItem::Ruler => ('R', vk::NULL),
            ViewMenuItem::WordWrap => ('W', kbmod::ALT | vk::Z),
            ViewMenuItem::WordWrap60 => ('6', vk::NULL),
            ViewMenuItem::WordWrap80 => ('8', vk::NULL),
            ViewMenuItem::ResetWordWrapColumn => ('0', vk::NULL),
            ViewMenuItem::CenterText => ('C', vk::NULL),
            ViewMenuItem::HighlightCurrentChar => ('H', vk::NULL),
            ViewMenuItem::ColorOriginal => ('O', vk::NULL),
            ViewMenuItem::ColorWhiteOnBlue => ('L', vk::NULL),
        },
{
    match item {
        ViewMenuItem::Ruler => ('R', vk::NULL),
        ViewMenuItem::WordWrap => ('W', kbmod::ALT | vk::Z),
        ViewMenuItem::WordWrap60 => ('6', vk::NULL),
        ViewMenuItem::WordWrap80 => ('8', vk::NULL),
        ViewMenuItem::ResetWordWrapColumn => ('0', vk::NULL),
        ViewMenuItem::CenterText => ('C', vk::NULL),
        ViewMenuItem::HighlightCurrentChar => ('H', vk::NULL),
        ViewMenuItem::ColorOriginal => ('O', vk::NULL),
        ViewMenuItem::ColorWhiteOnBlue => ('L', vk::NULL),
    }
}

/// Whether an item shows checked.
pub open spec fn spec_view_checked(item: ViewMenuItem, s: ViewState) -> bool {
    match item {
        ViewMenuItem::Ruler => s.ruler,
        ViewMenuItem::WordWrap => s.word_wrap,
        ViewMenuItem::WordWrap60 => s.word_wrap_column == 60,
        ViewMenuItem::WordWrap80 => s.word_wrap_column == 80,
        ViewMenuItem::ResetWordWrapColumn => s.word_wrap_column == 0,
        ViewMenuItem::CenterText => s.center_text,
        ViewMenuItem::HighlightCurrentChar => s.highlight_current_char,
        ViewMenuItem::ColorOriginal => s.editor_color == EditorColor::Original,
        ViewMenuItem::ColorWhiteOnBlue => s.editor_color == EditorColor::WhiteOnBlue,
    }
}

/// Whether an item shows checked (see [`spec_view_checked`]).
pub fn view_menu_checked(item: ViewMenuItem, s: &ViewState) -> (r: bool)
    ensures
        r == spec_view_checked(item, *s),
{
    match item {
        ViewMenuItem::Ruler => s.ruler,
        ViewMenuItem::WordWrap => s.word_wrap,
        ViewMenuItem::WordWrap60 => s.word_wrap_column == 60,
        ViewMenuItem::WordWrap80 => s.word_wrap_column == 80,
        ViewMenuItem::ResetWordWrapColumn => s.word_wrap_column == 0,
        ViewMenuItem::CenterText => s.center_text,
        ViewMenuItem::HighlightCurrentChar => s.highlight_current_char,
        ViewMenuItem::ColorOriginal => s.editor_color == EditorColor::Original,
        ViewMenuItem::ColorWhiteOnBlue => s.editor_color == EditorColor::WhiteOnBlue,
    }
}

/// What choosing a View item leads to.
pub enum ViewMenuOutcome {
    /// Run a command.
    Run(CommandInvocation),
    /// The ruler was toggled; the new value is to be saved in the settings.
    SaveRuler(bool),
    /// The highlighting of the current character was toggled; to be saved.
    SaveHighlightCurrentChar(bool),
    /// The color scheme was chosen; to be saved.
    SaveEditorColor(EditorColor),
}

/// Whether the outcome runs the invocation `v`.
pub open spec fn runs(r: ViewMenuOutcome, v: InvocationView) -> bool {
    match r {
        ViewMenuOutcome::Run(i) => i@ == v,
        _ => false,
    }
}

/// An invocation with the default focus.
pub open spec fn plain_invocation(c: Command, argument: Option<Seq<u8>>) -> InvocationView {
    InvocationView { command: c, argument, focus_target: CommandFocusTarget::Default }
}

fn invocation(command: Command, argument: Option<Vec<u8>>) -> (r: CommandInvocation)
    ensures
        r@ == plain_invocation(command, match argument {
            Some(a) => Some(a@),
            None => None,
        }),
{
    CommandInvocation { command, args: CommandArgs { argument, focus_target: CommandFocusTarget::Default } }
}

/// Chooses a View item: the ruler, the highlighting and the color scheme
/// change in `s` and are to be saved; word wrap and center text run their
/// commands, and the column items set the word-wrap column to 60, 80 or 0
/// (off).
pub fn view_menu_select(item: ViewMenuItem, s: &mut ViewState) -> (r: ViewMenuOutcome)
    ensures
        match item {
            ViewMenuItem::Ruler => *final(s) == (ViewState { ruler: !old(s).ruler, ..*old(s) }) && r
                == ViewMenuOutcome::SaveRuler(!old(s).ruler),
            ViewMenuItem::HighlightCurrentChar => *final(s) == (ViewState {
                highlight_current_char: !old(s).highlight_current_char,
                ..*old(s)
            }) && r == ViewMenuOutcome::SaveHighlightCurrentChar(!old(s).highlight_current_char),
            ViewMenuItem::ColorOriginal => *final(s) == (ViewState {
                editor_color: EditorColor::Original,
                ..*old(s)
            }) && r == ViewMenuOutcome::SaveEditorColor(EditorColor::Original),
            ViewMenuItem::ColorWhiteOnBlue => *final(s) == (ViewState {
                editor_color: EditorColor::WhiteOnBlue,
                ..*old(s)
            }) && r == ViewMenuOutcome::SaveEditorColor(EditorColor::WhiteOnBlue),
            ViewMenuItem::WordWrap => *final(s) == *old(s) && runs(r, plain_invocation(Command::WordWrap, None)),
            ViewMenuItem::CenterText => *final(s) == *old(s) && runs(r, plain_invocation(Command::CenterText, None)),
            ViewMenuItem::WordWrap60 => *final(s) == *old(s) && runs(r, plain_invocation(Command::SetWordWrapColumn, Some(seq![0x36u8, 0x30u8]))),
            ViewMenuItem::WordWrap80 => *final(s) == *old(s) && runs(r, plain_invocation(Command::SetWordWrapColumn, Some(seq![0x38u8, 0x30u8]))),
            ViewMenuItem::ResetWordWrapColumn => *final(s) == *old(s) && runs(r, plain_invocation(Command::SetWordWrapColumn, Some(seq![0x30u8]))),
        },
{
    match item {
        ViewMenuItem::Ruler => {
            s.ruler = !s.ruler;
            ViewMenuOutcome::SaveRuler(s.ruler)
        },
        ViewMenuItem::HighlightCurrentChar => {
            s.highlight_current_char = !s.highlight_current_char;
            ViewMenuOutcome::SaveHighlightCurrentChar(s.highlight_current_char)
        },
        ViewMenuItem::ColorOriginal => {
            s.editor_color = EditorColor::Original;
            ViewMenuOutcome::SaveEditorColor(EditorColor::Original)
        },
        ViewMenuItem::ColorWhiteOnBlue => {
            s.editor_color = EditorColor::WhiteOnBlue;
            ViewMenuOutcome::SaveEditorColor(EditorColor::WhiteOnBlue)
        },
        ViewMenuItem::WordWrap => ViewMenuOutcome::Run(invocation(Command::WordWrap, None)),
        ViewMenuItem::CenterText => ViewMenuOutcome::Run(invocation(Command::CenterText, None)),
        ViewMenuItem::WordWrap60 => {
            let arg = vec![0x36u8, 0x30u8];
            assert(arg@ =~= seq![0x36u8, 0x30u8]);
            ViewMenuOutcome::Run(invocation(Command::SetWordWrapColumn, Some(arg)))
        },
        ViewMenuItem::WordWrap80 => {
            let arg = vec![0x38u8, 0x30u8];
            assert(arg@ =~= seq![0x38u8, 0x30u8]);
            ViewMenuOutcome::Run(invocation(Command::SetWordWrapColumn, Some(arg)))
        },
        ViewMenuItem::ResetWordWrapColumn => {
            let arg = vec![0x30u8];
            assert(arg@ =~= seq![0x30u8]);
            ViewMenuOutcome::Run(invocation(Command::SetWordWrapColumn, Some(arg)))
        },
    }
}

} // verus!
