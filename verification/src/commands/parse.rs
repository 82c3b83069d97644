//! Parsing command-bar text into command invocations.

use vstd::prelude::*;
use vstd::string::StringSliceAdditionalSpecFns;
use crate::text::{
    find_byte, find_byte_exec,
    bytes_eq, find_whitespace, find_ws, is_ascii_alnum, is_ascii_digit, lemma_find_ws_bounds,
    spec_trim, to_lower, trim, ws_len, ws_len_at,
};
use super::definition::{
    Command, CommandArgs, CommandDefinition, CommandFocusTarget, CommandInvocation, CommandSet,
    DefView, InvocationView, opt_invocation_view,
};
use super::table::{definition_at, lemma_def_in_range, spec_def, spec_table_len};

verus! {

/// The normalization loop: lower-cased ASCII letters and digits are kept, every
/// run of other bytes becomes a single `-` (none at the start).
pub open spec fn norm_loop(t: Seq<u8>, i: int, out: Seq<u8>, last_sep: bool) -> Seq<u8>
    decreases t.len() - i,
{
    if i < 0 || i >= t.len() {
        out
    } else if is_ascii_alnum(t[i]) {
        norm_loop(t, i + 1, out.push(to_lower(t[i])), false)
    } else if !last_sep {
        norm_loop(t, i + 1, out.push(0x2du8), true)
    } else {
        norm_loop(t, i + 1, out, true)
    }
}

/// A command name in canonical form: lower-case words joined by single dashes.
pub open spec fn spec_normalize(t: Seq<u8>) -> Seq<u8> {
    let o = norm_loop(t, 0, Seq::empty(), true);
    if o.len() > 0 && o.last() == 0x2du8 {
        o.drop_last()
    } else {
        o
    }
}

/// Some name of the list normalizes to `norm`.
pub open spec fn names_match(names: Seq<&'static str>, norm: Seq<u8>) -> bool {
    exists|k: int| 0 <= k < names.len() && spec_normalize(#[trigger] names[k].spec_bytes()) == norm
}

/// A definition is named by `norm`: by one of its enabled names or by its label.
pub open spec fn def_matches(d: DefView, norm: Seq<u8>, vim: bool, emacs: bool) -> bool {
    names_match(d.all_names(vim, emacs), norm) || (match d.label {
        Some(l) => spec_normalize(l.spec_bytes()) == norm,
        None => false,
    })
}

/// The index of the first definition at or after `i` named by `norm`.
pub open spec fn spec_find(set: CommandSet, norm: Seq<u8>, vim: bool, emacs: bool, i: int) -> Option<int>
    decreases spec_table_len(set) - i,
{
    if i < 0 || i >= spec_table_len(set) {
        None
    } else if def_matches(spec_def(set, i)->Some_0, norm, vim, emacs) {
        Some(i)
    } else {
        spec_find(set, norm, vim, emacs, i + 1)
    }
}

pub open spec fn all_digits(t: Seq<u8>) -> bool {
    forall|i: int| 0 <= i < t.len() ==> is_ascii_digit(#[trigger] t[i])
}

/// The command-bar shorthands: a line number, `s/needle/replacement`, or `/needle`.
pub open spec fn spec_shorthand(text: Seq<u8>) -> Option<InvocationView> {
    let t = spec_trim(text);
    let r = t.subrange(2, t.len() as int);
    let j = find_byte(r, 0x2f, 0);
    if t.len() == 0 {
        None
    } else if all_digits(t) {
        Some(InvocationView { command: Command::Goto, argument: Some(t), focus_target: CommandFocusTarget::Default })
    } else if t.len() >= 2 && t[0] == 0x73 && t[1] == 0x2f && j < r.len() && j > 0 {
        Some(
            InvocationView {
                command: Command::Replace,
                argument: Some(r.subrange(0, j) + seq![0x20u8] + r.subrange(j + 1, r.len() as int)),
                focus_target: CommandFocusTarget::SearchPanel,
            },
        )
    } else if t[0] == 0x2f && spec_trim(t.subrange(1, t.len() as int)).len() > 0 {
        Some(
            InvocationView {
                command: Command::Find,
                argument: Some(spec_trim(t.subrange(1, t.len() as int))),
                focus_target: CommandFocusTarget::SearchPanel,
            },
        )
    } else {
        None
    }
}

/// `name argument…`: the first word names the command, the rest (trimmed) is its argument.
pub open spec fn spec_with_argument(set: CommandSet, text: Seq<u8>, vim: bool, emacs: bool) -> Option<InvocationView> {
    let t = spec_trim(text);
    let p = find_ws(t, 0);
    let norm = spec_normalize(t.subrange(0, p));
    if p >= t.len() || norm.len() == 0 {
        None
    } else {
        match spec_find(set, norm, vim, emacs, 0) {
            Some(i) => Some(
                InvocationView {
                    command: spec_def(set, i)->Some_0.command,
                    argument: Some(spec_trim(t.subrange(p + ws_len_at(t, p), t.len() as int))),
                    focus_target: spec_def(set, i)->Some_0.default_focus_target,
                },
            ),
            None => None,
        }
    }
}

/// The invocation a command-bar text stands for: a shorthand, a bare command
/// name or label, or a command name followed by an argument.
pub open spec fn spec_command_from_text(set: CommandSet, text: Seq<u8>, vim: bool, emacs: bool) -> Option<InvocationView> {
    let norm = spec_normalize(text);
    if spec_shorthand(text) is Some {
        spec_shorthand(text)
    } else if norm.len() == 0 {
        None
    } else {
        match spec_find(set, norm, vim, emacs, 0) {
            Some(i) => Some(
                InvocationView {
                    command: spec_def(set, i)->Some_0.command,
                    argument: None,
                    focus_target: spec_def(set, i)->Some_0.default_focus_target,
                },
            ),
            None => spec_with_argument(set, text, vim, emacs),
        }
    }
}

/// Canonical form of a command name: lower-case ASCII letters and digits, with every
/// run of other characters turned into one `-`, and none at either end.
pub fn normalize_command_name(text: &[u8]) -> (r: Vec<u8>)
    ensures
        r@ == spec_normalize(text@),
{
    let mut out: Vec<u8> = Vec::new();
    let mut last_was_separator = true;
    let mut i: usize = 0;
    while i < text.len()
        invariant
            i <= text@.len(),
            norm_loop(text@, i as int, out@, last_was_separator) == norm_loop(
                text@,
                0,
                Seq::empty(),
                true,
            ),
        decreases text@.len() - i,
    {
        let ch = text[i];
        if (0x30 <= ch && ch <= 0x39) || (0x41 <= ch && ch <= 0x5a) || (0x61 <= ch && ch <= 0x7a) {
            out.push(if 0x41 <= ch && ch <= 0x5a { ch + 0x20 } else { ch });
            last_was_separator = false;
        } else if !last_was_separator {
            out.push(0x2d);
            last_was_separator = true;
        }
        i += 1;
    }
    let n = out.len();
    if n > 0 && out[n - 1] == 0x2d {
        out.pop();
    }
    proof {
        let o = norm_loop(text@, 0, Seq::empty(), true);
        if o.len() > 0 && o.last() == 0x2du8 {
            assert(out@ =~= o.drop_last());
        }
    }
    out
}

/// Whether some name of the list normalizes to `norm`.
pub fn any_name_matches(names: &Vec<&'static str>, norm: &[u8]) -> (r: bool)
    ensures
        r == names_match(names@, norm@),
{
    let mut k: usize = 0;
    while k < names.len()
        invariant
            k <= names@.len(),
            forall|j: int| 0 <= j < k ==> spec_normalize(#[trigger] names@[j].spec_bytes()) != norm@,
        decreases names@.len() - k,
    {
        let n = normalize_command_name(names[k].as_bytes());
        if bytes_eq(n.as_slice(), norm) {
            return true;
        }
        k += 1;
    }
    false
}

/// Whether the definition is named by `norm`.
fn definition_matches(d: &CommandDefinition, norm: &[u8], vim: bool, emacs: bool) -> (r: bool)
    ensures
        r == def_matches(d@, norm@, vim, emacs),
{
    let all = d.all_names_with_modes(vim, emacs);
    if any_name_matches(&all, norm) {
        return true;
    }
    match d.label {
        Some(l) => {
            let n = normalize_command_name(l.as_bytes());
            bytes_eq(n.as_slice(), norm)
        },
        None => false,
    }
}

/// The first definition of the table named by `norm`.
pub fn find_definition(set: CommandSet, norm: &[u8], vim: bool, emacs: bool) -> (r: Option<CommandDefinition>)
    ensures
        match spec_find(set, norm@, vim, emacs, 0) {
            Some(i) => r is Some && spec_def(set, i) == Some(r->Some_0@),
            None => r is None,
        },
{
    let mut i: usize = 0;
    loop
        invariant
            0 <= i <= spec_table_len(set),
            spec_find(set, norm@, vim, emacs, i as int) == spec_find(set, norm@, vim, emacs, 0),
        decreases spec_table_len(set) - i,
    {
        proof {
            lemma_def_in_range(set, i as int);
        }
        match definition_at(set, i) {
            Some(d) => {
                if definition_matches(&d, norm, vim, emacs) {
                    return Some(d);
                }
                i += 1;
            },
            None => {
                return None;
            },
        }
    }
}

/// Whether every byte is an ASCII digit.
fn is_all_digits(t: &[u8]) -> (r: bool)
    ensures
        r == all_digits(t@),
{
    let mut i: usize = 0;
    while i < t.len()
        invariant
            i <= t@.len(),
            forall|k: int| 0 <= k < i ==> is_ascii_digit(#[trigger] t@[k]),
        decreases t@.len() - i,
    {
        if !(0x30 <= t[i] && t[i] <= 0x39) {
            return false;
        }
        i += 1;
    }
    true
}

/// The command-bar shorthands: a line number, `s/needle/replacement`, or `/needle`.
pub fn command_from_shorthand(text: &[u8]) -> (r: Option<CommandInvocation>)
    ensures
        opt_invocation_view(r) == spec_shorthand(text@),
{
    let t = trim(text);
    if t.len() == 0 {
        return None;
    }
    if is_all_digits(t) {
        return Some(
            CommandInvocation {
                command: Command::Goto,
                args: CommandArgs {
                    argument: Some(vstd::slice::slice_to_vec(t)),
                    focus_target: CommandFocusTarget::Default,
                },
            },
        );
    }
    if t.len() >= 2 && t[0] == 0x73 && t[1] == 0x2f {
        let r = &t[2..t.len()];
        let j = find_byte_exec(r, 0x2f, 0);
        if j < r.len() && j > 0 {
            let mut arg = vstd::slice::slice_to_vec(&r[0..j]);
            arg.push(0x20);
            let mut tail = vstd::slice::slice_to_vec(&r[j + 1..r.len()]);
            arg.append(&mut tail);
            assert(arg@ =~= r@.subrange(0, j as int) + seq![0x20u8] + r@.subrange(j + 1, r@.len() as int));
            return Some(
                CommandInvocation {
                    command: Command::Replace,
                    args: CommandArgs { argument: Some(arg), focus_target: CommandFocusTarget::SearchPanel },
                },
            );
        }
    }
    if t[0] == 0x2f {
        let needle = trim(&t[1..t.len()]);
        if needle.len() > 0 {
            return Some(
                CommandInvocation {
                    command: Command::Find,
                    args: CommandArgs {
                        argument: Some(vstd::slice::slice_to_vec(needle)),
                        focus_target: CommandFocusTarget::SearchPanel,
                    },
                },
            );
        }
    }
    None
}

/// `name argument…`: looks up the first word as a command, with the rest as its argument.
pub fn command_from_text_with_argument(set: CommandSet, text: &[u8], vim: bool, emacs: bool) -> (r: Option<CommandInvocation>)
    ensures
        opt_invocation_view(r) == spec_with_argument(set, text@, vim, emacs),
{
    let t = trim(text);
    let p = find_whitespace(t, 0);
    proof {
        lemma_find_ws_bounds(t@, 0);
    }
    if p >= t.len() {
        return None;
    }
    let norm = normalize_command_name(&t[0..p]);
    if norm.len() == 0 {
        return None;
    }
    match find_definition(set, norm.as_slice(), vim, emacs) {
        Some(d) => {
            let w = ws_len(t, p);
            let arg = trim(&t[p + w..t.len()]);
            Some(
                CommandInvocation {
                    command: d.command,
                    args: CommandArgs {
                        argument: Some(vstd::slice::slice_to_vec(arg)),
                        focus_target: d.default_focus_target,
                    },
                },
            )
        },
        None => None,
    }
}

/// The invocation the command-bar text stands for in the given table.
pub fn command_from_text_in(set: CommandSet, text: &[u8], vim: bool, emacs: bool) -> (r: Option<CommandInvocation>)
    ensures
        opt_invocation_view(r) == spec_command_from_text(set, text@, vim, emacs),
{
    let sh = command_from_shorthand(text);
    if sh.is_some() {
        return sh;
    }
    let norm = normalize_command_name(text);
    if norm.len() == 0 {
        return None;
    }
    match find_definition(set, norm.as_slice(), vim, emacs) {
        Some(d) => Some(
            CommandInvocation {
                command: d.command,
                args: CommandArgs { argument: None, focus_target: d.default_focus_target },
            },
        ),
        None => command_from_text_with_argument(set, text, vim, emacs),
    }
}

/// The invocation the command-bar text stands for (`edit`'s table), with vim and
/// emacs names enabled as given.
pub fn command_from_text_with_modes(text: &str, include_vim_commands: bool, include_emacs_commands: bool) -> (r: Option<CommandInvocation>)
    ensures
        opt_invocation_view(r) == spec_command_from_text(
            CommandSet::Edit,
            text.spec_bytes(),
            include_vim_commands,
            include_emacs_commands,
        ),
{
    command_from_text_in(CommandSet::Edit, text.as_bytes(), include_vim_commands, include_emacs_commands)
}

/// The invocation the command-bar text stands for (`edit`'s table), with all names enabled.
pub fn command_from_text(text: &str) -> (r: Option<CommandInvocation>)
    ensures
        opt_invocation_view(r) == spec_command_from_text(CommandSet::Edit, text.spec_bytes(), true, true),
{
    command_from_text_in(CommandSet::Edit, text.as_bytes(), true, true)
}

} // verus!
