//! Command identities, invocations and definitions.

use vstd::prelude::*;
use vstd::string::StringSliceAdditionalSpecFns;

verus! {

/// Every command the editors know.
#[derive(Clone, Copy, Debug, PartialEq, Eq, Structural)]
pub enum Command {
    NewFile,
    OpenFile,
    Save,
    SaveAs,
    Preferences,
    CloseFile,
    Exit,
    Undo,
    Redo,
    Cut,
    Copy,
    Paste,
    Find,
    Replace,
    SelectAll,
    SelectLine,
    InsertText,
    InsertLine,
    SplitLine,
    JoinLine,
    FirstNonblank,
    BeginWord,
    EndWord,
    TabWord,
    BacktabWord,
    MarkLine,
    MarkChar,
    MarkBlock,
    Unmark,
    CopyMark,
    MoveMark,
    DeleteMark,
    FillMark,
    OverlayBlock,
    ShiftLeft,
    ShiftRight,
    CopyToCmd,
    CopyFromCmd,
    FocusStatusbar,
    GoToFile,
    Goto,
    WordWrap,
    About,
    WordCount,
    SaveAndCloseFileAndExitIfLast,
    CloseFileAndExitIfLast,
    SetWordWrapColumn,
    SetMargins,
    SetTabs,
    Reflow,
    Menu,
    CenterText,
    ToggleRuler,
    SetHighlightCurrentChar,
    ToggleHighlightCurrentChar,
    SetEditorColor,
    SetEofStyle,
    SetEncoding,
    ReopenEncoding,
    SetLineBreak,
    SetBinding,
    EnableVimCommands,
    EnableEmacsCommands,
    QuerySetting,
    InsertDate,
    Uppercase,
    Lowercase,
    TransformUppercase,
    TransformLowercase,
    TransformHalfWidth,
    TransformFullWidth,
    TransformLatin,
    TransformKatakana,
    TransformHiragana,
    TransformSimplifiedChinese,
    TransformTraditionalChinese,
    CharCode,
    Help,
}

/// Where focus should go when the command runs.
#[derive(Clone, Copy, Debug, Default, PartialEq, Eq, Structural)]
pub enum CommandFocusTarget {
    #[default]
    Default,
    SearchPanel,
    StatusBar,
}

/// The arguments of an invocation: the text after the command name, if any.
#[derive(Debug, Default, PartialEq, Eq)]
pub struct CommandArgs {
    pub argument: Option<Vec<u8>>,
    pub focus_target: CommandFocusTarget,
}

/// A command together with its arguments.
#[derive(Debug, PartialEq, Eq)]
pub struct CommandInvocation {
    pub command: Command,
    pub args: CommandArgs,
}

/// The mathematical content of an invocation.
pub struct InvocationView {
    pub command: Command,
    pub argument: Option<Seq<u8>>,
    pub focus_target: CommandFocusTarget,
}

pub open spec fn opt_bytes_view(v: Option<Vec<u8>>) -> Option<Seq<u8>> {
    match v {
        Some(b) => Some(b@),
        None => None,
    }
}

impl View for CommandInvocation {
    type V = InvocationView;

    open spec fn view(&self) -> InvocationView {
        InvocationView {
            command: self.command,
            argument: opt_bytes_view(self.args.argument),
            focus_target: self.args.focus_target,
        }
    }
}

pub open spec fn opt_invocation_view(v: Option<CommandInvocation>) -> Option<InvocationView> {
    match v {
        Some(i) => Some(i@),
        None => None,
    }
}

/// Text to pre-fill the command bar with.
pub struct CommandBarShortcut {
    pub text: &'static str,
}

/// Which editor's command table to use: `edit` or `ze2`.
#[derive(Clone, Copy, Debug, PartialEq, Eq, Structural)]
pub enum CommandSet {
    Edit,
    Ze2,
}

/// How a command can be named, and how it runs by default.
pub struct CommandDefinition {
    pub command: Command,
    pub names: Vec<&'static str>,
    pub names_vim: Vec<&'static str>,
    pub names_emacs: Vec<&'static str>,
    /// The (English) menu label, which also names the command.
    pub label: Option<&'static str>,
    pub default_focus_target: CommandFocusTarget,
    pub argument_hint: Option<&'static str>,
}

/// The mathematical content of a definition.
pub struct DefView {
    pub command: Command,
    pub names: Seq<&'static str>,
    pub names_vim: Seq<&'static str>,
    pub names_emacs: Seq<&'static str>,
    pub label: Option<&'static str>,
    pub default_focus_target: CommandFocusTarget,
    pub argument_hint: Option<&'static str>,
}

impl View for CommandDefinition {
    type V = DefView;

    open spec fn view(&self) -> DefView {
        DefView {
            command: self.command,
            names: self.names@,
            names_vim: self.names_vim@,
            names_emacs: self.names_emacs@,
            label: self.label,
            default_focus_target: self.default_focus_target,
            argument_hint: self.argument_hint,
        }
    }
}

impl DefView {
    /// `all_names_with_modes`: the standard names, then (if enabled) the vim
    /// and the emacs names.
    pub open spec fn all_names(self, vim: bool, emacs: bool) -> Seq<&'static str> {
        self.names + (if vim { self.names_vim } else { Seq::empty() }) + (if emacs {
            self.names_emacs
        } else {
            Seq::empty()
        })
    }
}

impl CommandDefinition {
    /// The standard names, then (if enabled) the vim and the emacs names.
    pub fn all_names_with_modes(&self, include_vim: bool, include_emacs: bool) -> (r: Vec<&'static str>)
        ensures
            r@ == self@.all_names(include_vim, include_emacs),
    {
        let mut r: Vec<&'static str> = Vec::new();
        let mut i: usize = 0;
        while i < self.names.len()
            invariant
                i <= self.names@.len(),
                r@ == self.names@.subrange(0, i as int),
            decreases self.names@.len() - i,
        {
            r.push(self.names[i]);
            i += 1;
            assert(r@ =~= self.names@.subrange(0, i as int));
        }
        assert(self.names@.subrange(0, i as int) =~= self.names@);
        let ghost base = r@;
        if include_vim {
            let mut j: usize = 0;
            while j < self.names_vim.len()
                invariant
                    j <= self.names_vim@.len(),
                    r@ == base + self.names_vim@.subrange(0, j as int),
                decreases self.names_vim@.len() - j,
            {
                r.push(self.names_vim[j]);
                j += 1;
                assert(r@ =~= base + self.names_vim@.subrange(0, j as int));
            }
            assert(self.names_vim@.subrange(0, j as int) =~= self.names_vim@);
        }
        let ghost base2 = r@;
        if include_emacs {
            let mut j: usize = 0;
            while j < self.names_emacs.len()
                invariant
                    j <= self.names_emacs@.len(),
                    r@ == base2 + self.names_emacs@.subrange(0, j as int),
                decreases self.names_emacs@.len() - j,
            {
                r.push(self.names_emacs[j]);
                j += 1;
                assert(r@ =~= base2 + self.names_emacs@.subrange(0, j as int));
            }
            assert(self.names_emacs@.subrange(0, j as int) =~= self.names_emacs@);
        }
        assert(r@ =~= self@.all_names(include_vim, include_emacs));
        r
    }
}

} // verus!
