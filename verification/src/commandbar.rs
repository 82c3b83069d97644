//! The command bar: which keys it takes before the editor, how the keyboard
//! walks its autocomplete list, and what submitting its text runs.

use vstd::prelude::*;
use vstd::string::StringSliceAdditionalSpecFns;
use vstd::slice::slice_subrange;
use crate::input::{InputKey, vk};
use crate::tui::{opt_seq, spec_matches_shortcut, KeyInput};
use crate::text::{find_byte, find_byte_exec, lemma_find_byte_bounds, lemma_skip_ws_bounds, spec_trim, spec_trim_start, str_bytes, trim, trim_start};
use crate::commands::definition::{CommandSet, InvocationView};
use crate::commands::parse::{command_from_text_in, spec_command_from_text};
use crate::commands::complete::CommandAutocompleteSuggestion;
use crate::commands::definition::{CommandInvocation, Command};
use crate::commands::shortcuts::{
    command_invocation_from_shortcut, commandbar_shortcut_from_key,
    should_handle_command_shortcut_before_editor, spec_invocation_from_shortcut,
};
use crate::commands::definition::opt_invocation_view;

verus! {

/// What the command bar keeps from frame to frame.
pub struct CommandBar {
    /// The bar is shown.
    pub active: bool,
    /// The bar takes the focus on the next frame.
    pub focus: bool,
    /// The text typed into the bar (UTF-8).
    pub input: Vec<u8>,
    /// The message shown under the bar; empty for none.
    pub error: Vec<u8>,
    /// The selected autocomplete suggestion.
    pub autocomplete_index: Option<usize>,
    pub include_vim_commands: bool,
    pub include_emacs_commands: bool,
    /// The editor takes the focus back on the next frame.
    pub wants_editor_focus: bool,
}

/// The text a key pre-fills the bar with (see `commandbar_shortcut_from_key`).
pub open spec fn bar_shortcut_text(key: InputKey) -> Option<&'static str> {
    if key == vk::F2 {
        Some("save ")
    } else if key == vk::F3 {
        Some("file ")
    } else if key == vk::F4 {
        Some("quit ")
    } else {
        None
    }
}

impl CommandBar {
    /// Everything but `active`, `focus`, `error` and `wants_editor_focus` is as before.
    pub open spec fn keeps_rest(self, other: CommandBar) -> bool {
        &&& self.input@ == other.input@
        &&& self.autocomplete_index == other.autocomplete_index
        &&& self.include_vim_commands == other.include_vim_commands
        &&& self.include_emacs_commands == other.include_emacs_commands
    }

    /// The bar as it was.
    pub open spec fn same(self, other: CommandBar) -> bool {
        &&& self.keeps_rest(other)
        &&& self.active == other.active
        &&& self.focus == other.focus
        &&& self.error@ == other.error@
        &&& self.wants_editor_focus == other.wants_editor_focus
    }

    /// Escape closes the shown bar and gives the focus back to the editor,
    /// unless a dialog or a clipboard transfer is pending (`blocked`).
    pub fn close_before_editor(&mut self, key: Option<InputKey>, blocked: bool) -> (r: bool)
        ensures
            r == (old(self).active && key == Some(vk::ESCAPE) && !blocked),
            r ==> {
                &&& !final(self).active
                &&& !final(self).focus
                &&& final(self).error@ == Seq::<u8>::empty()
                &&& final(self).wants_editor_focus
                &&& final(self).keeps_rest(*old(self))
            },
            !r ==> final(self).same(*old(self)),
    {
        if !self.active || key != Some(vk::ESCAPE) || blocked {
            return false;
        }
        self.active = false;
        self.focus = false;
        self.error = Vec::new();
        self.wants_editor_focus = true;
        true
    }

    /// Where no search bar is shown (`search_shown`) and nothing is pending
    /// (`blocked`): Escape focuses the bar, and F2, F3 and F4 open it with
    /// their text.
    pub fn focus_before_editor(&mut self, key: Option<InputKey>, search_shown: bool, blocked: bool) -> (r: bool)
        ensures
            r == (!search_shown && !blocked && match key {
                Some(k) => k == vk::ESCAPE || bar_shortcut_text(k) is Some,
                None => false,
            }),
            r && key == Some(vk::ESCAPE) ==> {
                &&& final(self).focus
                &&& final(self).keeps_rest(*old(self))
                &&& final(self).active == old(self).active
                &&& final(self).error@ == old(self).error@
                &&& final(self).wants_editor_focus == old(self).wants_editor_focus
            },
            r && key != Some(vk::ESCAPE) ==> {
                &&& final(self).input@ == bar_shortcut_text(key->Some_0)->Some_0.spec_bytes()
                &&& final(self).error@ == Seq::<u8>::empty()
                &&& final(self).active
                &&& final(self).focus
                &&& final(self).autocomplete_index == old(self).autocomplete_index
                &&& final(self).include_vim_commands == old(self).include_vim_commands
                &&& final(self).include_emacs_commands == old(self).include_emacs_commands
                &&& final(self).wants_editor_focus == old(self).wants_editor_focus
            },
            !r ==> final(self).same(*old(self)),
    {
        if search_shown || blocked {
            return false;
        }
        if key == Some(vk::ESCAPE) {
            self.focus = true;
            return true;
        }
        let k = match key {
            Some(k) => k,
            None => return false,
        };
        let shortcut = match commandbar_shortcut_from_key(k) {
            Some(s) => s,
            None => return false,
        };
        self.input = vstd::slice::slice_to_vec(str_bytes(shortcut.text));
        self.error = Vec::new();
        self.active = true;
        self.focus = true;
        true
    }

    /// The text-insertion command a key stands for, handled before the editor
    /// sees the key: only where the bar and the search bar are hidden and
    /// nothing is pending.
    pub fn insert_text_invocation_before_editor(&self, key: Option<InputKey>, search_shown: bool, blocked: bool) -> (r:
        Option<CommandInvocation>)
        ensures
            opt_invocation_view(r) == (if self.active || search_shown || blocked {
                None
            } else {
                match key {
                    Some(k) => match spec_invocation_from_shortcut(k) {
                        Some(v) => if v.command == Command::InsertText {
                            Some(v)
                        } else {
                            None
                        },
                        None => None,
                    },
                    None => None,
                }
            }),
    {
        if self.active || search_shown || blocked {
            return None;
        }
        let k = match key {
            Some(k) => k,
            None => return None,
        };
        let invocation = match command_invocation_from_shortcut(k) {
            Some(i) => i,
            None => return None,
        };
        if should_handle_command_shortcut_before_editor(invocation.command) {
            Some(invocation)
        } else {
            None
        }
    }

    /// The bar's handling of a key before the editor sees it: Escape closes or
    /// focuses the bar, F2 to F4 open it (the input is then consumed and
    /// nothing runs); else a text-insertion shortcut gives its command.
    pub fn handle_input_before_editor(&mut self, input: &mut KeyInput, search_shown: bool, blocked: bool) -> (r:
        Option<CommandInvocation>)
        ensures
            ({
                let key = if old(input).consumed {
                    None
                } else {
                    old(input).keyboard
                };
                let closes = old(self).active && key == Some(vk::ESCAPE) && !blocked;
                let focuses = !search_shown && !blocked && match key {
                    Some(k) => k == vk::ESCAPE || bar_shortcut_text(k) is Some,
                    None => false,
                };
                &&& (closes || focuses) ==> r is None && final(input).consumed
                &&& !(closes || focuses) ==> final(self).same(*old(self)) && final(input).consumed
                    == old(input).consumed && opt_invocation_view(r) == (if old(self).active || search_shown
                    || blocked {
                    None
                } else {
                    match key {
                        Some(k) => match spec_invocation_from_shortcut(k) {
                            Some(v) => if v.command == Command::InsertText {
                                Some(v)
                            } else {
                                None
                            },
                            None => None,
                        },
                        None => None,
                    }
                })
                &&& closes ==> !final(self).active && !final(self).focus && final(self).error@ == Seq::<u8>::empty()
                    && final(self).wants_editor_focus && final(self).keeps_rest(*old(self))
                &&& !closes && focuses && key == Some(vk::ESCAPE) ==> final(self).focus && final(self).keeps_rest(
                    *old(self),
                ) && final(self).active == old(self).active && final(self).error@ == old(self).error@
                    && final(self).wants_editor_focus == old(self).wants_editor_focus
                &&& !closes && focuses && key != Some(vk::ESCAPE) ==> final(self).input@ == bar_shortcut_text(
                    key->Some_0,
                )->Some_0.spec_bytes() && final(self).error@ == Seq::<u8>::empty() && final(self).active
                    && final(self).focus && final(self).autocomplete_index == old(self).autocomplete_index
                    && final(self).include_vim_commands == old(self).include_vim_commands
                    && final(self).include_emacs_commands == old(self).include_emacs_commands
                    && final(self).wants_editor_focus == old(self).wants_editor_focus
            }),
            final(input).keyboard == old(input).keyboard,
            final(input).text == old(input).text,
    {
        let key = input.keyboard_input();
        if self.close_before_editor(key, blocked) || self.focus_before_editor(key, search_shown, blocked) {
            input.consumed = true;
            return None;
        }
        self.insert_text_invocation_before_editor(key, search_shown, blocked)
    }
}


/// The bytes of a suggestion's name.
pub open spec fn suggestion_name(s: CommandAutocompleteSuggestion) -> Seq<u8> {
    s.name.spec_bytes()
}

/// A key that acts on the autocomplete list.
#[derive(Clone, Copy, Debug, PartialEq, Eq, Structural)]
pub enum ListKey {
    /// Down: select the next suggestion.
    Next,
    /// Up: select the previous one.
    Previous,
    /// Tab: take the selected one (the first where none is) as the input.
    Apply,
    /// Return: submit the input.
    Submit,
}

/// The key a focused bar takes from an unconsumed input for its list: Down,
/// then Up, Tab and Return.
pub open spec fn list_key(input: KeyInput, is_focused: bool) -> Option<ListKey> {
    let m = |k: InputKey| spec_matches_shortcut(input.keyboard, opt_seq(input.text), k);
    if !is_focused || input.consumed {
        None
    } else if m(vk::DOWN) {
        Some(ListKey::Next)
    } else if m(vk::UP) {
        Some(ListKey::Previous)
    } else if m(vk::TAB) {
        Some(ListKey::Apply)
    } else if m(vk::RETURN) {
        Some(ListKey::Submit)
    } else {
        None
    }
}

/// The selection after Down or Up among `n` suggestions; Down stops at the
/// last, Up at the first, and both start from the first where none is selected.
pub open spec fn moved_index(index: Option<usize>, key: Option<ListKey>, n: int) -> Option<usize> {
    let i: int = match index {
        Some(i) => i as int,
        None => 0,
    };
    match key {
        Some(ListKey::Next) => Some((if i + 1 < n - 1 { i + 1 } else { n - 1 }) as usize),
        Some(ListKey::Previous) => Some((if i > 0 { i - 1 } else { 0 }) as usize),
        _ => index,
    }
}

impl CommandBar {
    /// Escape, pressed while the bar holds the focus, closes it and gives the
    /// focus back to the editor, unless something is pending (`blocked`).
    pub fn escape(&mut self, input: &mut KeyInput, contains_focus: bool, blocked: bool) -> (r: bool)
        ensures
            r == (contains_focus && !old(input).consumed && old(input).keyboard == Some(vk::ESCAPE) && !blocked),
            r ==> !final(self).active && final(self).error@ == Seq::<u8>::empty() && final(self).wants_editor_focus
                && final(self).focus == old(self).focus && final(self).keeps_rest(*old(self)) && final(input).consumed,
            !r ==> final(self).same(*old(self)) && final(input).consumed == old(input).consumed,
            final(input).keyboard == old(input).keyboard,
            final(input).text == old(input).text,
    {
        if contains_focus && input.keyboard_input() == Some(vk::ESCAPE) && !blocked {
            self.active = false;
            self.error = Vec::new();
            self.wants_editor_focus = true;
            input.consumed = true;
            true
        } else {
            false
        }
    }

    /// The keyboard on the autocomplete list of the focused bar (`is_focused`):
    /// Down and Up move the selection, Tab takes the selected suggestion (the
    /// first where none is selected) as the input, Return submits; any other
    /// key left unconsumed clears the selection. Without suggestions there is
    /// no selection, and Up closes the bar and gives the focus to the editor.
    /// Returns whether the input is to be submitted.
    pub fn navigate_suggestions(
        &mut self,
        input: &mut KeyInput,
        is_focused: bool,
        suggestions: &[CommandAutocompleteSuggestion],
    ) -> (submit: bool)
        requires
            old(self).autocomplete_index matches Some(i) ==> i < usize::MAX,
        ensures
            final(input).keyboard == old(input).keyboard,
            final(input).text == old(input).text,
            final(self).include_vim_commands == old(self).include_vim_commands,
            final(self).include_emacs_commands == old(self).include_emacs_commands,
            final(self).focus == old(self).focus,
            suggestions@.len() == 0 ==> {
                let up = is_focused && !old(input).consumed && spec_matches_shortcut(
                    old(input).keyboard,
                    opt_seq(old(input).text),
                    vk::UP,
                );
                &&& !submit
                &&& final(self).autocomplete_index is None
                &&& final(self).input@ == old(self).input@
                &&& final(input).consumed == (old(input).consumed || up)
                &&& up ==> !final(self).active && final(self).error@ == Seq::<u8>::empty()
                    && final(self).wants_editor_focus
                &&& !up ==> final(self).active == old(self).active && final(self).error@ == old(self).error@
                    && final(self).wants_editor_focus == old(self).wants_editor_focus
            },
            suggestions@.len() > 0 ==> {
                let key = list_key(*old(input), is_focused);
                let n = suggestions@.len() as int;
                let consumed = old(input).consumed || key is Some;
                let applied: Option<Seq<u8>> = if key == Some(ListKey::Apply) {
                    match old(self).autocomplete_index {
                        Some(i) => if i < n {
                            Some(suggestion_name(suggestions@[i as int]))
                        } else {
                            None
                        },
                        None => Some(suggestion_name(suggestions@[0])),
                    }
                } else {
                    None
                };
                let index = if applied is Some {
                    None
                } else {
                    moved_index(old(self).autocomplete_index, key, n)
                };
                let reset = !consumed && match old(input).keyboard {
                    Some(k) => k != vk::RETURN && k != vk::TAB,
                    None => false,
                };
                &&& submit == (key == Some(ListKey::Submit))
                &&& final(input).consumed == consumed
                &&& final(self).input@ == (match applied {
                    Some(t) => t,
                    None => old(self).input@,
                })
                &&& final(self).autocomplete_index == (if reset {
                    None
                } else {
                    index
                })
                &&& final(self).active == old(self).active
                &&& final(self).error@ == old(self).error@
                &&& final(self).wants_editor_focus == old(self).wants_editor_focus
            },
    {
        let n = suggestions.len();
        if n == 0 {
            self.autocomplete_index = None;
            if is_focused && input.consume_shortcut(vk::UP) {
                self.active = false;
                self.error = Vec::new();
                self.wants_editor_focus = true;
            }
            return false;
        }
        let mut submit = false;
        let mut apply = false;
        if is_focused {
            if input.consume_shortcut(vk::DOWN) {
                let i = match self.autocomplete_index {
                    Some(i) => i,
                    None => 0,
                };
                self.autocomplete_index = Some(if i + 1 < n - 1 { i + 1 } else { n - 1 });
            } else if input.consume_shortcut(vk::UP) {
                let i = match self.autocomplete_index {
                    Some(i) => i,
                    None => 0,
                };
                self.autocomplete_index = Some(if i > 0 { i - 1 } else { 0 });
            } else if input.consume_shortcut(vk::TAB) {
                apply = true;
            } else if input.consume_shortcut(vk::RETURN) {
                submit = true;
            }
        }
        if apply {
            match self.autocomplete_index {
                Some(i) => {
                    if i < n {
                        self.input = vstd::slice::slice_to_vec(str_bytes(suggestions[i].name));
                        self.autocomplete_index = None;
                    }
                },
                None => {
                    self.input = vstd::slice::slice_to_vec(str_bytes(suggestions[0].name));
                    self.autocomplete_index = None;
                },
            }
        }
        match input.keyboard_input() {
            Some(k) => {
                if k != vk::RETURN && k != vk::TAB {
                    self.autocomplete_index = None;
                }
            },
            None => {},
        }
        submit
    }
}


/// The invocations of a macro's bracketed items, from `rest` (which starts
/// an item or is empty) on: each item is `[`, a command's text up to the
/// first `]`, and `]`, with whitespace between items. `None` where an item
/// is malformed or names no command.
pub open spec fn macro_items(set: CommandSet, rest: Seq<u8>, vim: bool, emacs: bool) -> Option<Seq<InvocationView>>
    decreases rest.len(),
{
    if rest.len() == 0 {
        Some(Seq::empty())
    } else if rest[0] != 0x5b {
        None
    } else {
        let k = find_byte(rest, 0x5d, 1);
        if k >= rest.len() {
            None
        } else {
            match spec_command_from_text(set, spec_trim(rest.subrange(1, k)), vim, emacs) {
                None => None,
                Some(v) => {
                    let tail = rest.subrange(k + 1, rest.len() as int);
                    proof {
                        lemma_find_byte_bounds(rest, 0x5d, 1);
                        lemma_skip_ws_bounds(tail, 0);
                    }
                    match macro_items(set, spec_trim_start(tail), vim, emacs) {
                        None => None,
                        Some(t) => Some(seq![v] + t),
                    }
                },
            }
        }
    }
}

/// A command macro: the text, trimmed, is a sequence of bracketed commands
/// such as `[save] [quit]`. `None` where it does not start with `[`, or an
/// item is malformed or names no command.
pub open spec fn spec_macro(set: CommandSet, text: Seq<u8>, vim: bool, emacs: bool) -> Option<Seq<InvocationView>> {
    let t = spec_trim(text);
    if t.len() == 0 || t[0] != 0x5b {
        None
    } else {
        macro_items(set, t, vim, emacs)
    }
}

/// The views of a list of invocations.
pub open spec fn invocations_view(s: Seq<CommandInvocation>) -> Seq<InvocationView> {
    s.map_values(|i: CommandInvocation| i@)
}

/// The items found so far, then the rest's, or `None` where the rest fails.
pub open spec fn join(done: Seq<InvocationView>, rest: Option<Seq<InvocationView>>) -> Option<Seq<InvocationView>> {
    match rest {
        Some(t) => Some(done + t),
        None => None,
    }
}

proof fn lemma_join_push(done: Seq<CommandInvocation>, i: CommandInvocation, rest: Option<Seq<InvocationView>>)
    ensures
        join(invocations_view(done), match rest {
            Some(t) => Some(seq![i@] + t),
            None => None,
        }) == join(invocations_view(done.push(i)), rest),
{
    assert(invocations_view(done.push(i)) =~= invocations_view(done).push(i@));
    match rest {
        Some(t) => {
            assert(invocations_view(done) + (seq![i@] + t) =~= invocations_view(done.push(i)) + t);
        },
        None => {},
    }
}

/// The commands of a command macro (see [`spec_macro`]) in the table `set`.
pub fn command_macro_from_text(set: CommandSet, input: &[u8], include_vim_commands: bool, include_emacs_commands: bool) -> (r:
    Option<Vec<CommandInvocation>>)
    ensures
        match r {
            Some(v) => spec_macro(set, input@, include_vim_commands, include_emacs_commands) == Some(
                invocations_view(v@),
            ),
            None => spec_macro(set, input@, include_vim_commands, include_emacs_commands) is None,
        },
{
    let vim = include_vim_commands;
    let emacs = include_emacs_commands;
    let mut rest = trim(input);
    if rest.len() == 0 || rest[0] != 0x5b {
        return None;
    }
    let mut invocations: Vec<CommandInvocation> = Vec::new();
    while rest.len() > 0
        invariant
            vim == include_vim_commands,
            emacs == include_emacs_commands,
            spec_macro(set, input@, vim, emacs) == join(invocations_view(invocations@), macro_items(set, rest@, vim, emacs)),
        decreases rest@.len(),
    {
        if rest[0] != 0x5b {
            assert(macro_items(set, rest@, vim, emacs) is None);
            return None;
        }
        let k = find_byte_exec(rest, 0x5d, 1);
        if k >= rest.len() {
            assert(macro_items(set, rest@, vim, emacs) is None);
            return None;
        }
        let command = trim(slice_subrange(rest, 1, k));
        let invocation = match command_from_text_in(set, command, vim, emacs) {
            Some(i) => i,
            None => return None,
        };
        let tail = slice_subrange(rest, k + 1, rest.len());
        proof {
            lemma_skip_ws_bounds(tail@, 0);
            lemma_join_push(invocations@, invocation, macro_items(set, spec_trim_start(tail@), vim, emacs));
        }
        invocations.push(invocation);
        rest = trim_start(tail);
    }
    proof {
        assert(invocations_view(invocations@) + Seq::<InvocationView>::empty() =~= invocations_view(invocations@));
    }
    Some(invocations)
}


/// What submitting the bar's text runs: the commands of a macro, else the one
/// command the trimmed text names; `None` where it names none.
pub open spec fn spec_submission(set: CommandSet, input: Seq<u8>, vim: bool, emacs: bool) -> Option<Seq<InvocationView>> {
    match spec_macro(set, input, vim, emacs) {
        Some(v) => Some(v),
        None => match spec_command_from_text(set, spec_trim(input), vim, emacs) {
            Some(i) => Some(seq![i]),
            None => None,
        },
    }
}

impl CommandBar {
    /// Submits the bar's text: a command macro runs its commands, else the
    /// command the trimmed text names runs; either way the bar closes, its
    /// text and message are cleared and the editor takes the focus back. Text
    /// that names no command is cleared and `unknown_command` shown as the
    /// message; blank text changes nothing. Returns the commands to run, in
    /// order, in the table `set`.
    pub fn submit(&mut self, set: CommandSet, unknown_command: &[u8]) -> (r: Vec<CommandInvocation>)
        ensures
            final(self).focus == old(self).focus,
            final(self).autocomplete_index == old(self).autocomplete_index,
            final(self).include_vim_commands == old(self).include_vim_commands,
            final(self).include_emacs_commands == old(self).include_emacs_commands,
            match spec_submission(
                set,
                old(self).input@,
                old(self).include_vim_commands,
                old(self).include_emacs_commands,
            ) {
                Some(v) => {
                    &&& invocations_view(r@) == v
                    &&& !final(self).active
                    &&& final(self).input@ == Seq::<u8>::empty()
                    &&& final(self).error@ == Seq::<u8>::empty()
                    &&& final(self).wants_editor_focus
                },
                None => {
                    &&& r@.len() == 0
                    &&& final(self).active == old(self).active
                    &&& final(self).wants_editor_focus == old(self).wants_editor_focus
                    &&& spec_trim(old(self).input@).len() > 0 ==> final(self).input@ == Seq::<u8>::empty()
                        && final(self).error@ == unknown_command@
                    &&& spec_trim(old(self).input@).len() == 0 ==> final(self).input@ == old(self).input@
                        && final(self).error@ == old(self).error@
                },
            },
    {
        let vim = self.include_vim_commands;
        let emacs = self.include_emacs_commands;
        let run = match command_macro_from_text(set, self.input.as_slice(), vim, emacs) {
            Some(invocations) => Some(invocations),
            None => match command_from_text_in(set, trim(self.input.as_slice()), vim, emacs) {
                Some(invocation) => {
                    let mut one: Vec<CommandInvocation> = Vec::new();
                    one.push(invocation);
                    proof {
                        assert(invocations_view(one@) =~= seq![invocation@]);
                    }
                    Some(one)
                },
                None => None,
            },
        };
        match run {
            Some(invocations) => {
                self.input = Vec::new();
                self.error = Vec::new();
                self.active = false;
                self.wants_editor_focus = true;
                invocations
            },
            None => {
                if trim(self.input.as_slice()).len() > 0 {
                    self.input = Vec::new();
                    self.error = vstd::slice::slice_to_vec(unknown_command);
                }
                Vec::new()
            },
        }
    }
}

} // verus!
