//! Closing documents and exiting: a document without unsaved changes closes
//! at once; one with changes asks to save, discard or cancel; exiting closes
//! the documents from the active one down to the first with changes.

use vstd::prelude::*;
use crate::documents::{DocumentManager, DocumentView};
use crate::input::vk;
use crate::tui::{spec_matches_shortcut, opt_seq, KeyInput};

verus! {

/// What the editor wants done about closing and exiting.
#[derive(Clone, Copy, Debug, PartialEq, Eq, Structural)]
pub struct CloseState {
    /// Close the active document.
    pub wants_close: bool,
    /// Exit the editor.
    pub wants_exit: bool,
    /// Exit once the active document is closed and it was the last.
    pub wants_exit_after_close: bool,
    /// Exit once the document being saved under a new path is saved.
    pub wants_exit_after_save: bool,
    /// Close the document being saved under a new path once it is saved.
    pub wants_close_after_save: bool,
    /// Show the file picker to save under a new path.
    pub wants_save_as: bool,
    /// The editor exits now.
    pub exit: bool,
}

/// The user's answer to "save the changes?".
#[derive(Clone, Copy, Debug, PartialEq, Eq, Structural)]
pub enum CloseChoice {
    Save,
    Discard,
    Cancel,
}

/// What is left for the caller to do after a step of closing.
#[derive(Clone, Copy, Debug, PartialEq, Eq, Structural)]
pub enum CloseAction {
    /// Nothing.
    Nothing,
    /// Show the dialog that asks what to do with the changes.
    Ask,
    /// Save the active document to its path, then close it on success
    /// (see [`close_active_document`]).
    Save,
}

/// The state after closing the active document: it no longer wants closing,
/// and where exiting waited for this, the editor exits if no document is left.
pub open spec fn spec_close_active(s: CloseState, docs: Seq<DocumentView>) -> (CloseState, Seq<DocumentView>) {
    let left = if docs.len() > 0 {
        docs.drop_last()
    } else {
        docs
    };
    (
        CloseState {
            wants_close: false,
            wants_exit_after_close: false,
            exit: if s.wants_exit_after_close && left.len() == 0 {
                true
            } else {
                s.exit
            },
            ..s
        },
        left,
    )
}

/// Closes the active document (see [`spec_close_active`]).
pub fn close_active_document(s: &mut CloseState, docs: &mut DocumentManager)
    ensures
        (*final(s), final(docs)@) == spec_close_active(*old(s), old(docs)@),
{
    docs.remove_active();
    s.wants_close = false;
    if s.wants_exit_after_close {
        s.wants_exit_after_close = false;
        if docs.len() == 0 {
            s.exit = true;
        }
    }
}

/// A step of closing the active document, with the user's answer to the
/// dialog (`choice`, `None` while there is none): without a document nothing
/// is wanted any more; a document without changes closes; with changes, the
/// dialog is asked, Discard closes, Cancel gives up closing and exiting, and
/// Save saves to the document's path, or without one asks for a path and
/// closes (or exits) once saved.
pub open spec fn spec_wants_close(s: CloseState, docs: Seq<DocumentView>, choice: Option<CloseChoice>) -> (
    CloseState,
    Seq<DocumentView>,
    CloseAction,
) {
    if docs.len() == 0 {
        (CloseState { wants_close: false, wants_exit_after_close: false, ..s }, docs, CloseAction::Nothing)
    } else if !docs.last().dirty {
        let (s2, d2) = spec_close_active(s, docs);
        (s2, d2, CloseAction::Nothing)
    } else {
        match choice {
            None => (s, docs, CloseAction::Ask),
            Some(CloseChoice::Discard) => {
                let (s2, d2) = spec_close_active(s, docs);
                (s2, d2, CloseAction::Nothing)
            },
            Some(CloseChoice::Cancel) => (
                CloseState { wants_exit: false, wants_close: false, wants_exit_after_close: false, ..s },
                docs,
                CloseAction::Nothing,
            ),
            Some(CloseChoice::Save) => if docs.last().path is Some {
                (s, docs, CloseAction::Save)
            } else {
                (
                    CloseState {
                        wants_save_as: true,
                        wants_exit: false,
                        wants_exit_after_save: s.wants_exit || s.wants_exit_after_save,
                        wants_close_after_save: !s.wants_exit || s.wants_close_after_save,
                        wants_close: false,
                        ..s
                    },
                    docs,
                    CloseAction::Nothing,
                )
            },
        }
    }
}

/// A step of closing the active document (see [`spec_wants_close`]).
pub fn wants_close_step(s: &mut CloseState, docs: &mut DocumentManager, choice: Option<CloseChoice>) -> (r:
    CloseAction)
    ensures
        (*final(s), final(docs)@, r) == spec_wants_close(*old(s), old(docs)@, choice),
{
    let (dirty, has_path) = match docs.active() {
        Some(d) => (d.dirty, d.path.is_some()),
        None => {
            s.wants_close = false;
            s.wants_exit_after_close = false;
            return CloseAction::Nothing;
        },
    };
    if !dirty {
        close_active_document(s, docs);
        return CloseAction::Nothing;
    }
    match choice {
        None => CloseAction::Ask,
        Some(CloseChoice::Discard) => {
            close_active_document(s, docs);
            CloseAction::Nothing
        },
        Some(CloseChoice::Cancel) => {
            s.wants_exit = false;
            s.wants_close = false;
            s.wants_exit_after_close = false;
            CloseAction::Nothing
        },
        Some(CloseChoice::Save) => {
            if has_path {
                CloseAction::Save
            } else {
                s.wants_save_as = true;
                if s.wants_exit {
                    s.wants_exit = false;
                    s.wants_exit_after_save = true;
                } else {
                    s.wants_close_after_save = true;
                }
                s.wants_close = false;
                CloseAction::Nothing
            }
        },
    }
}

/// The user's answer in the dialog this frame: the buttons Save, Don't Save
/// and Cancel as clicked (the later one wins), then S or N pressed while the
/// dialog holds the focus, then dismissing the dialog, which cancels.
pub open spec fn spec_close_choice(
    save: bool,
    discard: bool,
    cancel: bool,
    input: KeyInput,
    contains_focus: bool,
    dismissed: bool,
) -> Option<CloseChoice> {
    let by_button = if cancel {
        Some(CloseChoice::Cancel)
    } else if discard {
        Some(CloseChoice::Discard)
    } else if save {
        Some(CloseChoice::Save)
    } else {
        None
    };
    let m = |k: u32| spec_matches_shortcut(input.keyboard, opt_seq(input.text), k);
    let by_key = if contains_focus && !input.consumed && m(vk::S) {
        Some(CloseChoice::Save)
    } else if contains_focus && !input.consumed && m(vk::N) {
        Some(CloseChoice::Discard)
    } else {
        by_button
    };
    if dismissed {
        Some(CloseChoice::Cancel)
    } else {
        by_key
    }
}

/// The user's answer in the dialog this frame (see [`spec_close_choice`]); a
/// key that answers is consumed.
pub fn close_choice(
    save: bool,
    discard: bool,
    cancel: bool,
    input: &mut KeyInput,
    contains_focus: bool,
    dismissed: bool,
) -> (r: Option<CloseChoice>)
    ensures
        r == spec_close_choice(save, discard, cancel, *old(input), contains_focus, dismissed),
        final(input).keyboard == old(input).keyboard,
        final(input).text == old(input).text,
{
    let mut choice = None;
    if save {
        choice = Some(CloseChoice::Save);
    }
    if discard {
        choice = Some(CloseChoice::Discard);
    }
    if cancel {
        choice = Some(CloseChoice::Cancel);
    }
    if contains_focus {
        if input.consume_shortcut(vk::S) {
            choice = Some(CloseChoice::Save);
        } else if input.consume_shortcut(vk::N) {
            choice = Some(CloseChoice::Discard);
        }
    }
    if dismissed {
        choice = Some(CloseChoice::Cancel);
    }
    choice
}

/// The number of documents left when exiting: all up to the last one with
/// unsaved changes (among the first `k`), none where none has any.
pub open spec fn kept_on_exit(docs: Seq<DocumentView>, k: int) -> int
    decreases k,
{
    if k <= 0 || k > docs.len() {
        0
    } else if docs[k - 1].dirty {
        k
    } else {
        kept_on_exit(docs, k - 1)
    }
}

/// Exiting: documents without unsaved changes close, from the active one
/// down; at one with changes, closing it is asked for; with none left, the
/// editor exits.
pub fn handle_wants_exit(s: &mut CloseState, docs: &mut DocumentManager)
    ensures
        final(docs)@ == old(docs)@.take(kept_on_exit(old(docs)@, old(docs)@.len() as int)),
        kept_on_exit(old(docs)@, old(docs)@.len() as int) > 0 ==> *final(s) == (CloseState {
            wants_close: true,
            ..*old(s)
        }),
        kept_on_exit(old(docs)@, old(docs)@.len() as int) == 0 ==> *final(s) == (CloseState {
            exit: true,
            ..*old(s)
        }),
{
    let ghost d0 = docs@;
    let ghost n0 = d0.len() as int;
    loop
        invariant
            docs@.len() <= n0,
            docs@ == d0.take(docs@.len() as int),
            kept_on_exit(d0, docs@.len() as int) == kept_on_exit(d0, n0),
            *s == *old(s),
            n0 == d0.len(),
            d0 == old(docs)@,
        ensures
            docs@.len() == 0,
            kept_on_exit(d0, 0) == kept_on_exit(d0, n0),
            docs@ == d0.take(0),
            *s == *old(s),
        decreases docs@.len(),
    {
        let dirty = match docs.active() {
            Some(d) => d.dirty,
            None => break,
        };
        if dirty {
            proof {
                let m = docs@.len() as int;
                assert(docs@[m - 1] == d0[m - 1]);
                assert(kept_on_exit(d0, m) == m);
            }
            s.wants_close = true;
            return;
        }
        docs.remove_active();
        proof {
            assert(docs@ =~= d0.take(docs@.len() as int));
        }
    }
    s.exit = true;
}

} // verus!
