//! The editor's own clipboard, and how its contents reach the terminal.

use vstd::prelude::*;

verus! {

/// The builtin, internal clipboard of the editor.
///
/// This is useful particularly when the terminal doesn't support
/// OSC 52 or when the clipboard contents are huge (e.g. 1GiB).
pub struct Clipboard {
    data: Vec<u8>,
    line_copy: bool,
    wants_host_sync: bool,
}

/// The mathematical content of the clipboard.
pub struct ClipboardView {
    pub data: Seq<u8>,
    pub line_copy: bool,
    pub wants_host_sync: bool,
}

impl View for Clipboard {
    type V = ClipboardView;

    closed spec fn view(&self) -> ClipboardView {
        ClipboardView { data: self.data@, line_copy: self.line_copy, wants_host_sync: self.wants_host_sync }
    }
}

/// The clipboard after a write of `data`: empty data changes nothing; other
/// data replaces the contents, is no line copy, and wants a host sync.
pub open spec fn spec_write(c: ClipboardView, data: Seq<u8>) -> ClipboardView {
    if data.len() == 0 {
        c
    } else {
        ClipboardView { data, line_copy: false, wants_host_sync: true }
    }
}

impl Clipboard {
    /// An empty clipboard, in sync with the host.
    pub fn new() -> (c: Clipboard)
        ensures
            c@.data == Seq::<u8>::empty(),
            !c@.line_copy,
            !c@.wants_host_sync,
    {
        Clipboard { data: Vec::new(), line_copy: false, wants_host_sync: false }
    }

    /// If true, we should emit a OSC 52 sequence to sync the clipboard
    /// with the hosting terminal.
    pub fn wants_host_sync(&self) -> (r: bool)
        ensures
            r == self@.wants_host_sync,
    {
        self.wants_host_sync
    }

    /// Call this once the clipboard has been synchronized with the host.
    pub fn mark_as_synchronized(&mut self)
        ensures
            final(self)@ == (ClipboardView { wants_host_sync: false, ..old(self)@ }),
    {
        self.wants_host_sync = false;
    }

    /// The editor has a special behavior when you have no selection and press
    /// Ctrl+C: it copies the current line to the clipboard. Then, when you
    /// paste it, it inserts the line at *the start* of the current line.
    /// This effectively prepends the current line with the copied line.
    pub fn is_line_copy(&self) -> (r: bool)
        ensures
            r == self@.line_copy,
    {
        self.line_copy
    }

    /// Returns the current contents of the clipboard.
    pub fn read(&self) -> (r: &[u8])
        ensures
            r@ == self@.data,
    {
        self.data.as_slice()
    }

    /// Fills the clipboard with the given data; empty data leaves it as it was.
    /// New data is not a line copy and is to be synced with the host.
    pub fn write(&mut self, data: Vec<u8>)
        ensures
            final(self)@ == spec_write(old(self)@, data@),
    {
        if data.len() > 0 {
            self.data = data;
            self.line_copy = false;
            self.wants_host_sync = true;
        }
    }

    /// See [`Clipboard::is_line_copy`].
    pub fn write_was_line_copy(&mut self, line_copy: bool)
        ensures
            final(self)@ == (ClipboardView { line_copy, ..old(self)@ }),
    {
        self.line_copy = line_copy;
    }
}

/// What was written is what is read: a write of non-empty data makes it the
/// contents, whatever came before; the last of two such writes wins; marking
/// the line-copy flag or the host synchronization keeps the contents.
pub proof fn lemma_write_then_read(c: ClipboardView, d1: Seq<u8>, d2: Seq<u8>, line_copy: bool)
    requires
        d1.len() > 0,
    ensures
        spec_write(c, d1).data == d1,
        spec_write(c, Seq::empty()) == c,
        d2.len() > 0 ==> spec_write(spec_write(c, d1), d2) == spec_write(c, d2),
        (ClipboardView { line_copy, ..spec_write(c, d1) }).data == d1,
        (ClipboardView { wants_host_sync: false, ..spec_write(c, d1) }).data == d1,
{
}


/// Clipboard contents at least this large (128 KiB) are sent to the terminal
/// only with the user's consent.
pub const LARGE_CLIPBOARD_THRESHOLD: usize = 131072;

/// How new clipboard contents reach the terminal.
#[derive(Clone, Copy, Debug, PartialEq, Eq, Structural)]
pub enum ClipboardPrompt {
    /// Send them without asking: they are small, or the user always sends.
    Send,
    /// Ask first; Yes is the default choice where they are less than ten
    /// times the threshold, else No.
    Ask { default_yes: bool },
    /// They are too large to send (a quarter of the scratch memory or more):
    /// only say so.
    TooLarge,
}

/// How `data_len` bytes of new clipboard contents reach the terminal, the
/// user having chosen to always send them (`always_send`) or not, with
/// `scratch_capacity` bytes of scratch memory.
pub fn clipboard_prompt(data_len: usize, always_send: bool, scratch_capacity: usize) -> (r: ClipboardPrompt)
    ensures
        r == (if always_send || data_len < LARGE_CLIPBOARD_THRESHOLD {
            ClipboardPrompt::Send
        } else if data_len >= scratch_capacity / 4 {
            ClipboardPrompt::TooLarge
        } else {
            ClipboardPrompt::Ask { default_yes: data_len < 10 * LARGE_CLIPBOARD_THRESHOLD }
        }),
{
    if always_send || data_len < LARGE_CLIPBOARD_THRESHOLD {
        ClipboardPrompt::Send
    } else if data_len >= scratch_capacity / 4 {
        ClipboardPrompt::TooLarge
    } else {
        ClipboardPrompt::Ask { default_yes: data_len < 10 * LARGE_CLIPBOARD_THRESHOLD }
    }
}

/// The first offset at or after `i` where `needle` occurs in `t`, if any.
pub open spec fn find_sub(t: Seq<u8>, needle: Seq<u8>, i: int) -> Option<int>
    decreases t.len() + 1 - i,
{
    if i < 0 || i + needle.len() > t.len() {
        None
    } else if t.subrange(i, i + needle.len()) == needle {
        Some(i)
    } else {
        find_sub(t, needle, i + 1)
    }
}

/// `t` with the first occurrence of `needle` replaced by `with`; `t` where
/// there is none.
pub open spec fn spec_replace_once(t: Seq<u8>, needle: Seq<u8>, with: Seq<u8>) -> Seq<u8> {
    match find_sub(t, needle, 0) {
        Some(k) => t.take(k) + with + t.skip(k + needle.len()),
        None => t,
    }
}

/// Replaces the first occurrence of `needle` in `t` (see [`spec_replace_once`]),
/// as a message template's placeholder is filled in.
pub fn replace_once(t: &[u8], needle: &[u8], with: &[u8]) -> (r: Vec<u8>)
    ensures
        r@ == spec_replace_once(t@, needle@, with@),
{
    let n = needle.len();
    if n > t.len() {
        return vstd::slice::slice_to_vec(t);
    }
    if n == 0 {
        let mut out = vstd::slice::slice_to_vec(with);
        crate::text::extend_bytes(&mut out, t);
        proof {
            assert(t@.subrange(0, 0) =~= needle@);
            assert(t@.take(0) + with@ + t@.skip(0) =~= with@ + t@);
        }
        return out;
    }
    let len = t.len();
    let last = len - n;
    let mut i: usize = 0;
    while i <= last
        invariant
            len == t@.len(),
            n == needle@.len(),
            1 <= n <= t@.len(),
            last == t@.len() - n,
            i <= last + 1,
            find_sub(t@, needle@, i as int) == find_sub(t@, needle@, 0),
        decreases last + 1 - i,
    {
        if crate::text::bytes_eq(vstd::slice::slice_subrange(t, i, i + n), needle) {
            let mut out = vstd::slice::slice_to_vec(vstd::slice::slice_subrange(t, 0, i));
            crate::text::extend_bytes(&mut out, with);
            crate::text::extend_bytes(&mut out, vstd::slice::slice_subrange(t, i + n, t.len()));
            proof {
                assert(t@.subrange(0, i as int) =~= t@.take(i as int));
                assert(t@.subrange(i + n, t@.len() as int) =~= t@.skip(i + n));
            }
            return out;
        }
        i += 1;
    }
    vstd::slice::slice_to_vec(t)
}

} // verus!
