//! The `help` command's quick lookup: which command a word names, and a
//! one-line description of its aliases; and the line `char-code` reports.

use vstd::prelude::*;
use vstd::string::StringSliceAdditionalSpecFns;
use crate::text::{decimal, extend_bytes, lemma_skip_ws_bounds, next_word, push_decimal, spec_trim, str_bytes, trim, words};
use crate::utf8::{decode_at, spec_decode};
use super::definition::{opt_bytes_view, CommandDefinition, CommandSet, DefView};
use super::parse::{any_name_matches, names_match, normalize_command_name, spec_normalize};
use super::table::{definition_at, lemma_def_in_range, spec_def, spec_table_len};

verus! {

/// The query of `help <query> …`: the first word of the trimmed argument.
pub open spec fn spec_help_query(a: Option<Seq<u8>>) -> Option<Seq<u8>> {
    match a {
        Some(t) => if words(spec_trim(t)).len() == 0 {
            None
        } else {
            Some(words(spec_trim(t))[0])
        },
        None => None,
    }
}

/// The query of `help <query> …`: only the first word counts.
pub fn help_query_from_argument(argument: Option<&[u8]>) -> (r: Option<&[u8]>)
    ensures
        match r {
            Some(q) => spec_help_query(match argument {
                Some(a) => Some(a@),
                None => None,
            }) == Some(q@),
            None => spec_help_query(match argument {
                Some(a) => Some(a@),
                None => None,
            }) is None,
        },
{
    let a = match argument {
        Some(a) => a,
        None => {
            return None;
        },
    };
    let t = trim(a);
    let (s, e) = next_word(t, 0);
    proof {
        lemma_skip_ws_bounds(t@, 0);
    }
    if s >= t.len() {
        return None;
    }
    let q = &t[s..e];
    assert(words(t@)[0] == q@);
    Some(q)
}

/// The first definition of `ze2`'s table at or after `i` with an enabled alias
/// that normalizes to `norm`.
pub open spec fn help_find(norm: Seq<u8>, vim: bool, emacs: bool, i: int) -> Option<int>
    decreases spec_table_len(CommandSet::Ze2) - i,
{
    if i < 0 || i >= spec_table_len(CommandSet::Ze2) {
        None
    } else if names_match(spec_def(CommandSet::Ze2, i)->Some_0.all_names(vim, emacs), norm) {
        Some(i)
    } else {
        help_find(norm, vim, emacs, i + 1)
    }
}

/// Names joined by `, `.
pub open spec fn join_names(names: Seq<&'static str>) -> Seq<u8>
    decreases names.len(),
{
    if names.len() == 0 {
        Seq::empty()
    } else if names.len() == 1 {
        names[0].spec_bytes()
    } else {
        join_names(names.drop_last()) + seq![0x2cu8, 0x20u8] + names.last().spec_bytes()
    }
}

/// The `help <query>` answer: the aliases of the command the query names,
/// joined by `, `, then its argument hint; or `no command matching '<query>'`.
pub open spec fn spec_help_text(query: Seq<u8>, vim: bool, emacs: bool) -> Seq<u8> {
    match help_find(spec_normalize(query), vim, emacs, 0) {
        None => "no command matching '".spec_bytes() + query + seq![0x27u8],
        Some(i) => {
            let d = spec_def(CommandSet::Ze2, i)->Some_0;
            join_names(d.all_names(vim, emacs)) + match d.argument_hint {
                Some(h) => seq![0x20u8] + h.spec_bytes(),
                None => Seq::empty(),
            }
        },
    }
}

/// The names joined by `, `.
fn join(names: &Vec<&'static str>) -> (r: Vec<u8>)
    ensures
        r@ == join_names(names@),
{
    let mut out: Vec<u8> = Vec::new();
    let mut i: usize = 0;
    while i < names.len()
        invariant
            i <= names@.len(),
            out@ == join_names(names@.take(i as int)),
        decreases names@.len() - i,
    {
        if i > 0 {
            out.push(0x2c);
            out.push(0x20);
        }
        extend_bytes(&mut out, str_bytes(names[i]));
        proof {
            assert(names@.take(i + 1).drop_last() =~= names@.take(i as int));
        }
        i += 1;
        assert(out@ =~= join_names(names@.take(i as int)));
    }
    assert(names@.take(i as int) =~= names@);
    out
}

/// The `help <query>` answer for `ze2`'s table.
pub fn help_text(query: &[u8], include_vim: bool, include_emacs: bool) -> (r: Vec<u8>)
    ensures
        r@ == spec_help_text(query@, include_vim, include_emacs),
{
    let norm = normalize_command_name(query);
    let mut i: usize = 0;
    loop
        invariant
            0 <= i <= spec_table_len(CommandSet::Ze2),
            norm@ == spec_normalize(query@),
            help_find(norm@, include_vim, include_emacs, i as int) == help_find(
                norm@,
                include_vim,
                include_emacs,
                0,
            ),
        decreases spec_table_len(CommandSet::Ze2) - i,
    {
        proof {
            lemma_def_in_range(CommandSet::Ze2, i as int);
        }
        match definition_at(CommandSet::Ze2, i) {
            Some(d) => {
                let all = d.all_names_with_modes(include_vim, include_emacs);
                if any_name_matches(&all, norm.as_slice()) {
                    let mut out = join(&all);
                    if let Some(hint) = d.argument_hint {
                        out.push(0x20);
                        extend_bytes(&mut out, str_bytes(hint));
                    }
                    assert(out@ =~= spec_help_text(query@, include_vim, include_emacs));
                    return out;
                }
                i += 1;
            },
            None => {
                let mut out = vstd::slice::slice_to_vec(str_bytes("no command matching '"));
                extend_bytes(&mut out, query);
                out.push(0x27);
                return out;
            },
        }
    }
}


/// An upper case hexadecimal digit.
pub open spec fn hex_digit(d: nat) -> u8 {
    if d < 10 {
        (0x30 + d) as u8
    } else {
        (0x41 + d - 10) as u8
    }
}

/// The upper case hexadecimal digits of `n`, without leading zeros.
pub open spec fn hex_upper(n: nat) -> Seq<u8>
    decreases n,
{
    if n < 16 {
        seq![hex_digit(n)]
    } else {
        hex_upper(n / 16).push(hex_digit(n % 16))
    }
}

/// Appends the upper case hexadecimal digits of `n`.
fn push_hex_upper(out: &mut Vec<u8>, n: u32)
    ensures
        final(out)@ == old(out)@ + hex_upper(n as nat),
    decreases n,
{
    if n >= 16 {
        push_hex_upper(out, n / 16);
    }
    let d = n % 16;
    out.push(if d < 10 { (0x30 + d) as u8 } else { (0x41 + d - 10) as u8 });
    assert(final(out)@ =~= old(out)@ + hex_upper(n as nat));
}

/// The character `char-code` reports: the argument's first character, else
/// the one at the cursor (`current`).
pub open spec fn char_code_char(a: Option<Seq<u8>>, current: Option<char>) -> Option<u32> {
    match a {
        Some(t) => if t.len() > 0 {
            Some(spec_decode(t, 0).0)
        } else {
            match current {
                Some(c) => Some(c as u32),
                None => None,
            }
        },
        None => match current {
            Some(c) => Some(c as u32),
            None => None,
        },
    }
}

/// The line `char-code` shows: `char `, the code in decimal, ` 0x` and the
/// code in upper case hexadecimal; `char EOF` where there is no character.
pub open spec fn spec_char_code_text(c: Option<u32>) -> Seq<u8> {
    match c {
        Some(v) => "char ".spec_bytes() + decimal(v as nat) + " 0x".spec_bytes() + hex_upper(v as nat),
        None => "char EOF".spec_bytes(),
    }
}

/// The line `char-code` shows for the argument (UTF-8), or for the character
/// at the cursor (`current`) where the argument is missing or empty.
pub fn char_code_text(argument: &Option<Vec<u8>>, current: Option<char>) -> (r: Vec<u8>)
    ensures
        r@ == spec_char_code_text(char_code_char(opt_bytes_view(*argument), current)),
{
    let code: Option<u32> = match argument {
        Some(t) => if t.len() > 0 {
            let (c, _) = decode_at(t.as_slice(), 0);
            Some(c as u32)
        } else {
            match current {
                Some(c) => Some(c as u32),
                None => None,
            }
        },
        None => match current {
            Some(c) => Some(c as u32),
            None => None,
        },
    };
    let mut out: Vec<u8> = Vec::new();
    match code {
        Some(v) => {
            extend_bytes(&mut out, str_bytes("char "));
            push_decimal(&mut out, v as u64);
            extend_bytes(&mut out, str_bytes(" 0x"));
            push_hex_upper(&mut out, v);
        },
        None => {
            extend_bytes(&mut out, str_bytes("char EOF"));
        },
    }
    out
}

} // verus!
