//! The search bar: where the focus goes when it opens, and what its keys,
//! check boxes and buttons do in a frame.

use vstd::prelude::*;
use crate::editor::SearchAction;
use crate::input::{kbmod, vk};
use crate::tui::{opt_seq, spec_matches_shortcut, KeyInput};

verus! {

/// What the search bar shows.
#[derive(Clone, Copy, Debug, PartialEq, Eq, Structural)]
pub enum SearchKind {
    Hidden,
    /// Searching is not available (the regular expression engine failed to load).
    Disabled,
    Search,
    Replace,
}

/// How the needle is matched.
#[derive(Clone, Copy, Debug, PartialEq, Eq, Structural)]
pub struct SearchOptions {
    pub match_case: bool,
    pub whole_word: bool,
    pub use_regex: bool,
}

/// What happened to the search bar's widgets in a frame.
#[derive(Clone, Copy, Debug, PartialEq, Eq, Structural)]
pub struct SearchFrame {
    /// The bar, or something in it, holds the focus.
    pub contains_focus: bool,
    /// The needle's text was edited.
    pub needle_edited: bool,
    /// The needle's field holds the focus.
    pub needle_focused: bool,
    /// The replacement's field holds the focus.
    pub replacement_focused: bool,
    /// The check boxes and buttons that were activated.
    pub match_case_toggled: bool,
    pub whole_word_toggled: bool,
    pub use_regex_toggled: bool,
    pub replace_all_pressed: bool,
    pub close_pressed: bool,
}

/// Which field takes the focus as the bar is drawn: where the bar asked for the
/// focus (`wants_focus`), the needle's, or the bar's own kind's where the
/// selection became the needle (`took_selection`); none otherwise.
pub open spec fn spec_search_focus(wants_focus: bool, kind: SearchKind, took_selection: bool) -> SearchKind {
    if !wants_focus {
        SearchKind::Hidden
    } else if took_selection {
        kind
    } else {
        SearchKind::Search
    }
}

/// Which field takes the focus (see [`spec_search_focus`]); the request for
/// the focus is then handled.
pub fn search_focus(wants_focus: &mut bool, kind: SearchKind, took_selection: bool) -> (r: SearchKind)
    ensures
        r == spec_search_focus(*old(wants_focus), kind, took_selection),
        !*final(wants_focus),
{
    let mut focus = SearchKind::Hidden;
    if *wants_focus {
        *wants_focus = false;
        focus = SearchKind::Search;
        if took_selection {
            focus = kind;
        }
    }
    focus
}

/// A frame of the search bar: Escape while it holds the focus, or its Close
/// button, hides it; editing the needle or Return in it searches; in a
/// replace bar (unless Escape just hid it), Return in the replacement
/// replaces and Ctrl+Alt+Return replaces all; toggling an option searches
/// again, and the Replace All button replaces all. The search to run, if any.
pub open spec fn spec_search_step(kind: SearchKind, options: SearchOptions, input: KeyInput, f: SearchFrame) -> (
    SearchKind,
    SearchOptions,
    bool,
    Option<SearchAction>,
) {
    let m = |k: u32| spec_matches_shortcut(input.keyboard, opt_seq(input.text), k);
    let escape = f.contains_focus && !input.consumed && m(vk::ESCAPE);
    let kind1 = if escape {
        SearchKind::Hidden
    } else {
        kind
    };
    let consumed1 = input.consumed || escape;
    let a1 = if f.needle_edited {
        Some(SearchAction::Search)
    } else {
        None
    };
    let ret1 = f.needle_focused && !consumed1 && m(vk::RETURN);
    let a2 = if ret1 {
        Some(SearchAction::Search)
    } else {
        a1
    };
    let consumed2 = consumed1 || ret1;
    let replacing = kind1 == SearchKind::Replace && f.replacement_focused && !consumed2;
    let ret2 = replacing && m(vk::RETURN);
    let all = replacing && !ret2 && m(kbmod::CTRL_ALT | vk::RETURN);
    let a3 = if ret2 {
        Some(SearchAction::Replace)
    } else if all {
        Some(SearchAction::ReplaceAll)
    } else {
        a2
    };
    let consumed3 = consumed2 || ret2 || all;
    let options2 = SearchOptions {
        match_case: options.match_case != f.match_case_toggled,
        whole_word: options.whole_word != f.whole_word_toggled,
        use_regex: options.use_regex != f.use_regex_toggled,
    };
    let replace_all = kind1 == SearchKind::Replace && f.replace_all_pressed;
    let changed = f.match_case_toggled || f.whole_word_toggled || f.use_regex_toggled || replace_all;
    let a4 = if replace_all {
        Some(SearchAction::ReplaceAll)
    } else if changed {
        Some(SearchAction::Search)
    } else {
        a3
    };
    let kind2 = if f.close_pressed {
        SearchKind::Hidden
    } else {
        kind1
    };
    (kind2, options2, consumed3, a4)
}

/// A frame of the search bar (see [`spec_search_step`]): the bar's new kind
/// and options; returns the search to run, if any.
pub fn search_panel_step(kind: &mut SearchKind, options: &mut SearchOptions, input: &mut KeyInput, f: SearchFrame) -> (r:
    Option<SearchAction>)
    ensures
        (*final(kind), *final(options), final(input).consumed, r) == spec_search_step(*old(kind), *old(options), *old(input), f),
        final(input).keyboard == old(input).keyboard,
        final(input).text == old(input).text,
{
    let mut action: Option<SearchAction> = None;
    if f.contains_focus && input.consume_shortcut(vk::ESCAPE) {
        *kind = SearchKind::Hidden;
    }
    if f.needle_edited {
        action = Some(SearchAction::Search);
    }
    if f.needle_focused && input.consume_shortcut(vk::RETURN) {
        action = Some(SearchAction::Search);
    }
    if *kind == SearchKind::Replace && f.replacement_focused {
        if input.consume_shortcut(vk::RETURN) {
            action = Some(SearchAction::Replace);
        } else if input.consume_shortcut(kbmod::CTRL_ALT | vk::RETURN) {
            action = Some(SearchAction::ReplaceAll);
        }
    }
    let mut change = false;
    let mut change_action = SearchAction::Search;
    if f.match_case_toggled {
        options.match_case = !options.match_case;
        change = true;
    }
    if f.whole_word_toggled {
        options.whole_word = !options.whole_word;
        change = true;
    }
    if f.use_regex_toggled {
        options.use_regex = !options.use_regex;
        change = true;
    }
    if *kind == SearchKind::Replace && f.replace_all_pressed {
        change = true;
        change_action = SearchAction::ReplaceAll;
    }
    if f.close_pressed {
        *kind = SearchKind::Hidden;
    }
    if change {
        action = Some(change_action);
    }
    action
}

} // verus!
