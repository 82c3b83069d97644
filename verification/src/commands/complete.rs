//! Command-bar autocompletion: the command names that start with what was
//! typed, each once, in alphabetical order, at most ten.

use vstd::prelude::*;
use vstd::string::StringSliceAdditionalSpecFns;
use crate::text::{extend_bytes, lemma_lex_order, lex_less, lex_lt, starts_with, str_bytes};
use super::definition::{CommandDefinition, CommandSet, DefView};
use super::parse::{normalize_command_name, spec_normalize};
use super::table::{command_definitions, spec_def, spec_table_len};

verus! {

/// Where an alias comes from: the standard names, or the vim or emacs ones.
#[derive(Clone, Copy, Debug, PartialEq, Eq, Structural)]
pub enum CommandAliasSource {
    Standard,
    Vim,
    Emacs,
}

/// Rank of a source when one name comes from several: standard first.
pub open spec fn spec_priority(s: CommandAliasSource) -> nat {
    match s {
        CommandAliasSource::Standard => 0,
        CommandAliasSource::Vim => 1,
        CommandAliasSource::Emacs => 2,
    }
}

impl CommandAliasSource {
    /// Rank of the source when one name comes from several: standard first.
    pub fn priority(self) -> (p: usize)
        ensures
            p == spec_priority(self),
    {
        match self {
            CommandAliasSource::Standard => 0,
            CommandAliasSource::Vim => 1,
            CommandAliasSource::Emacs => 2,
        }
    }

    /// The tag shown after a non-standard alias.
    pub fn label(self) -> (l: Option<&'static str>)
        ensures
            l == (match self {
                CommandAliasSource::Standard => None,
                CommandAliasSource::Vim => Some("vim"),
                CommandAliasSource::Emacs => Some("emacs"),
            }),
    {
        match self {
            CommandAliasSource::Standard => None,
            CommandAliasSource::Vim => Some("vim"),
            CommandAliasSource::Emacs => Some("emacs"),
        }
    }
}

/// One completion: an alias, where it comes from, and the hint for its argument.
#[derive(Clone, Copy, Debug)]
pub struct CommandAutocompleteSuggestion {
    pub name: &'static str,
    pub source: CommandAliasSource,
    pub argument_hint: Option<&'static str>,
}

/// The bytes of a name.
pub open spec fn name_of(s: CommandAutocompleteSuggestion) -> Seq<u8> {
    s.name.spec_bytes()
}

/// The text shown for a suggestion: the name, then ` <hint>` if the command takes
/// an argument, then ` [vim]` or ` [emacs]` for a non-standard alias.
pub open spec fn spec_display_text(s: CommandAutocompleteSuggestion) -> Seq<u8> {
    name_of(s) + (match s.argument_hint {
        Some(h) => seq![0x20u8] + h.spec_bytes(),
        None => Seq::empty(),
    }) + (match s.source {
        CommandAliasSource::Standard => Seq::empty(),
        CommandAliasSource::Vim => seq![0x20u8, 0x5bu8] + "vim".spec_bytes() + seq![0x5du8],
        CommandAliasSource::Emacs => seq![0x20u8, 0x5bu8] + "emacs".spec_bytes() + seq![0x5du8],
    })
}

impl CommandAutocompleteSuggestion {
    /// The text shown for the suggestion, e.g. `o <path> [vim]`.
    pub fn display_text(&self) -> (t: Vec<u8>)
        ensures
            t@ == spec_display_text(*self),
    {
        let mut text = vstd::slice::slice_to_vec(str_bytes(self.name));
        if let Some(hint) = self.argument_hint {
            text.push(0x20);
            extend_bytes(&mut text, str_bytes(hint));
        }
        if let Some(label) = self.source.label() {
            text.push(0x20);
            text.push(0x5b);
            extend_bytes(&mut text, str_bytes(label));
            text.push(0x5d);
        }
        proof {
            let a = name_of(*self);
            let h = match self.argument_hint {
                Some(h) => seq![0x20u8] + h.spec_bytes(),
                None => Seq::<u8>::empty(),
            };
            assert(a + h + Seq::<u8>::empty() =~= a + h);
            match self.source {
                CommandAliasSource::Standard => {},
                CommandAliasSource::Vim => {
                    assert(text@ =~= a + h + (seq![0x20u8, 0x5bu8] + "vim".spec_bytes() + seq![0x5du8]));
                },
                CommandAliasSource::Emacs => {
                    assert(text@ =~= a + h + (seq![0x20u8, 0x5bu8] + "emacs".spec_bytes() + seq![0x5du8]));
                },
            }
        }
        text
    }
}

/// Whether `prefix` starts the canonical form of `name`.
pub open spec fn completes(prefix: Seq<u8>, name: &'static str) -> bool {
    let n = spec_normalize(name.spec_bytes());
    prefix.len() <= n.len() && n.take(prefix.len() as int) == prefix
}

/// The names of a list that `prefix` completes, in list order, as suggestions.
pub open spec fn matching(
    names: Seq<&'static str>,
    source: CommandAliasSource,
    hint: Option<&'static str>,
    prefix: Seq<u8>,
) -> Seq<CommandAutocompleteSuggestion>
    decreases names.len(),
{
    if names.len() == 0 {
        Seq::empty()
    } else {
        let rest = matching(names.drop_last(), source, hint, prefix);
        if completes(prefix, names.last()) {
            rest.push(CommandAutocompleteSuggestion { name: names.last(), source, argument_hint: hint })
        } else {
            rest
        }
    }
}

/// The suggestions a definition contributes: its standard names, then (if
/// enabled) its vim and its emacs names.
pub open spec fn def_candidates(d: DefView, vim: bool, emacs: bool, prefix: Seq<u8>) -> Seq<
    CommandAutocompleteSuggestion,
> {
    matching(d.names, CommandAliasSource::Standard, d.argument_hint, prefix) + (if vim {
        matching(d.names_vim, CommandAliasSource::Vim, d.argument_hint, prefix)
    } else {
        Seq::empty()
    }) + (if emacs {
        matching(d.names_emacs, CommandAliasSource::Emacs, d.argument_hint, prefix)
    } else {
        Seq::empty()
    })
}

/// The suggestions of the first `i` definitions of a table, in table order.
pub open spec fn candidates_upto(set: CommandSet, vim: bool, emacs: bool, prefix: Seq<u8>, i: int) -> Seq<
    CommandAutocompleteSuggestion,
>
    decreases i,
{
    if i <= 0 {
        Seq::empty()
    } else {
        candidates_upto(set, vim, emacs, prefix, i - 1) + (match spec_def(set, i - 1) {
            Some(d) => def_candidates(d, vim, emacs, prefix),
            None => Seq::empty(),
        })
    }
}

/// All suggestions of a table for the canonical prefix, duplicates included.
pub open spec fn candidates(set: CommandSet, vim: bool, emacs: bool, prefix: Seq<u8>) -> Seq<
    CommandAutocompleteSuggestion,
> {
    candidates_upto(set, vim, emacs, prefix, spec_table_len(set))
}

/// Entry `k` is the one kept for its name: no entry of that name has a source of
/// higher rank, and none of equal rank comes earlier.
pub open spec fn is_kept(c: Seq<CommandAutocompleteSuggestion>, k: int) -> bool {
    &&& 0 <= k < c.len()
    &&& forall|j: int|
        0 <= j < c.len() && #[trigger] name_of(c[j]) == name_of(c[k]) ==> spec_priority(c[k].source)
            < spec_priority(c[j].source) || (spec_priority(c[k].source) == spec_priority(c[j].source)
            && k <= j)
}

/// `r` is the completion list for the candidates `c`: strictly ascending names,
/// each the kept entry of its name, at most ten, and no smaller name left out.
pub open spec fn completion_of(c: Seq<CommandAutocompleteSuggestion>, r: Seq<CommandAutocompleteSuggestion>) -> bool {
    &&& r.len() <= 10
    &&& forall|i: int, j: int| 0 <= i < j < r.len() ==> lex_lt(name_of(r[i]), name_of(r[j]))
    &&& forall|i: int| #![trigger r[i]] 0 <= i < r.len() ==> exists|k: int| #[trigger] is_kept(c, k) && c[k] == r[i]
    &&& forall|k: int|
        #![trigger c[k]]
        0 <= k < c.len() ==> (exists|i: int| #![trigger r[i]] 0 <= i < r.len() && name_of(r[i]) == name_of(c[k]))
            || (r.len() == 10 && forall|i: int| #![trigger r[i]] 0 <= i < r.len() ==> lex_lt(name_of(r[i]), name_of(c[k])))
}

/// The names of a list of suggestions.
pub open spec fn names_of(s: Seq<CommandAutocompleteSuggestion>) -> Seq<&'static str> {
    s.map_values(|x: CommandAutocompleteSuggestion| x.name)
}

/// `s` is the completion list for `prefix` in `edit`'s table: empty where the
/// prefix has no canonical form, else as [`completion_of`] says.
pub open spec fn completion_for(prefix: Seq<u8>, vim: bool, emacs: bool, s: Seq<CommandAutocompleteSuggestion>) -> bool {
    &&& (spec_normalize(prefix).len() == 0 ==> s.len() == 0)
    &&& (spec_normalize(prefix).len() > 0 ==> completion_of(
        candidates(CommandSet::Edit, vim, emacs, spec_normalize(prefix)),
        s,
    ))
}

/// Appends the suggestions for the names of a list that `prefix` completes.
fn push_matching(
    out: &mut Vec<CommandAutocompleteSuggestion>,
    names: &Vec<&'static str>,
    source: CommandAliasSource,
    hint: Option<&'static str>,
    prefix: &[u8],
)
    ensures
        final(out)@ == old(out)@ + matching(names@, source, hint, prefix@),
{
    let mut k: usize = 0;
    while k < names.len()
        invariant
            k <= names@.len(),
            out@ == old(out)@ + matching(names@.take(k as int), source, hint, prefix@),
        decreases names@.len() - k,
    {
        let name = names[k];
        let norm = normalize_command_name(str_bytes(name));
        let ok = starts_with(norm.as_slice(), prefix);
        proof {
            assert(names@.take(k + 1).drop_last() =~= names@.take(k as int));
        }
        if ok {
            out.push(CommandAutocompleteSuggestion { name, source, argument_hint: hint });
        }
        k += 1;
        assert(out@ =~= old(out)@ + matching(names@.take(k as int), source, hint, prefix@));
    }
    assert(names@.take(k as int) =~= names@);
}

/// All suggestions of a table for the canonical prefix, duplicates included.
fn collect_candidates(set: CommandSet, vim: bool, emacs: bool, prefix: &[u8]) -> (r: Vec<
    CommandAutocompleteSuggestion,
>)
    ensures
        r@ == candidates(set, vim, emacs, prefix@),
{
    let defs = command_definitions(set);
    let mut out: Vec<CommandAutocompleteSuggestion> = Vec::new();
    let mut i: usize = 0;
    while i < defs.len()
        invariant
            i <= defs@.len(),
            defs@.len() == spec_table_len(set),
            forall|j: int| 0 <= j < defs@.len() ==> spec_def(set, j) == Some(#[trigger] defs@[j]@),
            out@ == candidates_upto(set, vim, emacs, prefix@, i as int),
        decreases defs@.len() - i,
    {
        let d: &CommandDefinition = &defs[i];
        assert(spec_def(set, i as int) == Some(d@));
        let ghost before = out@;
        push_matching(&mut out, &d.names, CommandAliasSource::Standard, d.argument_hint, prefix);
        if vim {
            push_matching(&mut out, &d.names_vim, CommandAliasSource::Vim, d.argument_hint, prefix);
        }
        if emacs {
            push_matching(&mut out, &d.names_emacs, CommandAliasSource::Emacs, d.argument_hint, prefix);
        }
        assert(out@ =~= before + def_candidates(d@, vim, emacs, prefix@));
        i += 1;
    }
    out
}

/// Whether a name comes after the last one chosen (every name does before the first).
pub open spec fn after_last(last: Option<&'static str>, name: Seq<u8>) -> bool {
    match last {
        Some(l) => lex_lt(l.spec_bytes(), name),
        None => true,
    }
}

/// The index of the entry to add next: among the entries whose name comes
/// after `last`, one with the smallest name, of the best source rank, and the
/// earliest of those; `None` if no name comes after `last`.
fn select_next(c: &Vec<CommandAutocompleteSuggestion>, last: Option<&'static str>) -> (m: Option<usize>)
    ensures
        match m {
            Some(k) => {
                &&& is_kept(c@, k as int)
                &&& after_last(last, name_of(c@[k as int]))
                &&& forall|j: int|
                    #![trigger c@[j]]
                    0 <= j < c@.len() && after_last(last, name_of(c@[j])) ==> !lex_lt(
                        name_of(c@[j]),
                        name_of(c@[k as int]),
                    )
            },
            None => forall|j: int| #![trigger c@[j]] 0 <= j < c@.len() ==> !after_last(last, name_of(c@[j])),
        },
{
    let mut m: Option<usize> = None;
    let mut j: usize = 0;
    while j < c.len()
        invariant
            j <= c@.len(),
            match m {
                Some(k) => {
                    &&& k < j
                    &&& after_last(last, name_of(c@[k as int]))
                    &&& forall|i: int|
                        #![trigger c@[i]]
                        0 <= i < j && after_last(last, name_of(c@[i])) ==> !lex_lt(
                            name_of(c@[i]),
                            name_of(c@[k as int]),
                        )
                    &&& forall|i: int|
                        #![trigger c@[i]]
                        0 <= i < j && name_of(c@[i]) == name_of(c@[k as int]) ==> spec_priority(
                            c@[k as int].source,
                        ) < spec_priority(c@[i].source) || (spec_priority(c@[k as int].source)
                            == spec_priority(c@[i].source) && k <= i)
                },
                None => forall|i: int| #![trigger c@[i]] 0 <= i < j ==> !after_last(last, name_of(c@[i])),
            },
        decreases c@.len() - j,
    {
        let cand = c[j];
        let eligible = match last {
            Some(l) => lex_less(str_bytes(l), str_bytes(cand.name)),
            None => true,
        };
        assert(eligible == after_last(last, name_of(c@[j as int])));
        if eligible {
            match m {
                None => {
                    proof {
                        lemma_lex_order(name_of(cand), name_of(cand), name_of(cand));
                    }
                    m = Some(j);
                },
                Some(k) => {
                    let best = c[k];
                    let before = lex_less(str_bytes(cand.name), str_bytes(best.name));
                    let same = !before && !lex_less(str_bytes(best.name), str_bytes(cand.name));
                    proof {
                        lemma_lex_order(name_of(cand), name_of(best), name_of(best));
                    }
                    if before || (same && cand.source.priority() < best.source.priority()) {
                        proof {
                            assert forall|i: int|
                                #![trigger c@[i]]
                                0 <= i < j + 1 && after_last(last, name_of(c@[i])) implies !lex_lt(
                                name_of(c@[i]),
                                name_of(cand),
                            ) by {
                                lemma_lex_order(name_of(c@[i]), name_of(cand), name_of(best));
                            }
                            assert forall|i: int|
                                #![trigger c@[i]]
                                0 <= i < j + 1 && name_of(c@[i]) == name_of(cand) implies spec_priority(cand.source)
                                < spec_priority(c@[i].source) || (spec_priority(cand.source) == spec_priority(
                                c@[i].source) && j <= i) by {
                                lemma_lex_order(name_of(c@[i]), name_of(cand), name_of(best));
                                if i < j {
                                    assert(after_last(last, name_of(c@[i])));
                                }
                            }
                        }
                        m = Some(j);
                    } else {
                        proof {
                            assert(c@[j as int] == cand);
                        }
                    }
                },
            }
        } else {
            proof {
                if let Some(k) = m {
                    assert(name_of(c@[j as int]) != name_of(c@[k as int]));
                }
            }
        }
        j += 1;
    }
    proof {
        if let Some(k) = m {
            assert forall|i: int|
                0 <= i < c@.len() && #[trigger] name_of(c@[i]) == name_of(c@[k as int])
                    implies spec_priority(c@[k as int].source) < spec_priority(c@[i].source) || (
                spec_priority(c@[k as int].source) == spec_priority(c@[i].source) && k <= i) by {
                assert(c@[i] == c@[i]);
            }
        }
    }
    m
}

/// The state of building a completion list `r` whose last name is `last`:
/// ascending, kept entries only, and every candidate's name either listed or
/// after all listed names.
pub open spec fn completion_inv(
    c: Seq<CommandAutocompleteSuggestion>,
    r: Seq<CommandAutocompleteSuggestion>,
    last: Option<&'static str>,
) -> bool {
    &&& r.len() <= 10
    &&& forall|i: int, j: int| 0 <= i < j < r.len() ==> lex_lt(name_of(r[i]), name_of(r[j]))
    &&& forall|i: int| #![trigger r[i]] 0 <= i < r.len() ==> exists|k: int| #[trigger] is_kept(c, k) && c[k] == r[i]
    &&& forall|k: int|
        #![trigger c[k]]
        0 <= k < c.len() ==> (exists|i: int| #![trigger r[i]] 0 <= i < r.len() && name_of(r[i]) == name_of(c[k]))
            || (forall|i: int| #![trigger r[i]] 0 <= i < r.len() ==> lex_lt(name_of(r[i]), name_of(c[k])))
    &&& match last {
        Some(l) => r.len() > 0 && l.spec_bytes() == name_of(r.last()),
        None => r.len() == 0,
    }
}

proof fn lemma_completion_done(
    c: Seq<CommandAutocompleteSuggestion>,
    r: Seq<CommandAutocompleteSuggestion>,
    last: Option<&'static str>,
)
    requires
        completion_inv(c, r, last),
        r.len() == 10 || forall|j: int| #![trigger c[j]] 0 <= j < c.len() ==> !after_last(last, name_of(c[j])),
    ensures
        completion_of(c, r),
{
    if r.len() < 10 {
        assert forall|k: int| #![trigger c[k]] 0 <= k < c.len() implies exists|i: int|
            #![trigger r[i]] 0 <= i < r.len() && name_of(r[i]) == name_of(c[k]) by {
            if !(exists|i: int| #![trigger r[i]] 0 <= i < r.len() && name_of(r[i]) == name_of(c[k])) {
                if r.len() > 0 {
                    assert(lex_lt(name_of(r[r.len() - 1]), name_of(c[k])));
                }
                assert(!after_last(last, name_of(c[k])));
            }
        }
    }
}

proof fn lemma_completion_step(
    c: Seq<CommandAutocompleteSuggestion>,
    r: Seq<CommandAutocompleteSuggestion>,
    last: Option<&'static str>,
    k: int,
)
    requires
        completion_inv(c, r, last),
        r.len() < 10,
        is_kept(c, k),
        after_last(last, name_of(c[k])),
        forall|j: int|
            #![trigger c[j]]
            0 <= j < c.len() && after_last(last, name_of(c[j])) ==> !lex_lt(name_of(c[j]), name_of(c[k])),
    ensures
        completion_inv(c, r.push(c[k]), Some(c[k].name)),
{
    let s = c[k];
    let r1 = r.push(s);
    assert forall|i: int| #![trigger r[i]] 0 <= i < r.len() implies lex_lt(name_of(r[i]), name_of(s)) by {
        if i < r.len() - 1 {
            lemma_lex_order(name_of(r[i]), name_of(r[r.len() - 1]), name_of(s));
        }
    }
    assert forall|i: int, j: int| 0 <= i < j < r1.len() implies lex_lt(name_of(r1[i]), name_of(r1[j])) by {
        if j < r.len() {
            assert(r1[i] == r[i] && r1[j] == r[j]);
        } else {
            assert(r1[i] == r[i]);
        }
    }
    assert forall|i: int| #![trigger r1[i]] 0 <= i < r1.len() implies exists|q: int| #[trigger] is_kept(c, q)
        && c[q] == r1[i] by {
        if i < r.len() {
            assert(r1[i] == r[i]);
        } else {
            assert(c[k] == r1[i]);
        }
    }
    assert forall|q: int| #![trigger c[q]] 0 <= q < c.len() implies (exists|i: int|
        #![trigger r1[i]] 0 <= i < r1.len() && name_of(r1[i]) == name_of(c[q])) || (forall|i: int|
        #![trigger r1[i]] 0 <= i < r1.len() ==> lex_lt(name_of(r1[i]), name_of(c[q]))) by {
        if exists|i: int| #![trigger r[i]] 0 <= i < r.len() && name_of(r[i]) == name_of(c[q]) {
            let i = choose|i: int| #![trigger r[i]] 0 <= i < r.len() && name_of(r[i]) == name_of(c[q]);
            assert(r1[i] == r[i]);
        } else {
            if r.len() > 0 {
                assert(lex_lt(name_of(r[r.len() - 1]), name_of(c[q])));
            }
            assert(after_last(last, name_of(c[q])));
            lemma_lex_order(name_of(s), name_of(c[q]), name_of(s));
            if name_of(s) == name_of(c[q]) {
                assert(r1[r.len() as int] == s);
            } else {
                assert forall|i: int| #![trigger r1[i]] 0 <= i < r1.len() implies lex_lt(
                    name_of(r1[i]),
                    name_of(c[q]),
                ) by {
                    if i < r.len() {
                        assert(r1[i] == r[i]);
                    }
                }
            }
        }
    }
    assert(r1.last() == s);
}

/// Orders, dedups and cuts the candidates down to the completion list.
fn complete_from(c: &Vec<CommandAutocompleteSuggestion>) -> (r: Vec<CommandAutocompleteSuggestion>)
    ensures
        completion_of(c@, r@),
{
    let mut r: Vec<CommandAutocompleteSuggestion> = Vec::new();
    let mut last: Option<&'static str> = None;
    while r.len() < 10
        invariant
            completion_inv(c@, r@, last),
        decreases 10 - r@.len(),
    {
        match select_next(c, last) {
            None => {
                proof {
                    lemma_completion_done(c@, r@, last);
                }
                return r;
            },
            Some(k) => {
                proof {
                    lemma_completion_step(c@, r@, last, k as int);
                }
                let s = c[k];
                r.push(s);
                last = Some(s.name);
            },
        }
    }
    proof {
        lemma_completion_done(c@, r@, last);
    }
    r
}

/// The completion list for a prefix in a table: the aliases whose canonical form
/// starts with the prefix's, each once with its best source, sorted, at most ten.
pub fn autocomplete_command_suggestions_in(set: CommandSet, prefix: &[u8], include_vim_commands: bool, include_emacs_commands: bool) -> (r: Vec<CommandAutocompleteSuggestion>)
    ensures
        spec_normalize(prefix@).len() == 0 ==> r@.len() == 0,
        spec_normalize(prefix@).len() > 0 ==> completion_of(
            candidates(set, include_vim_commands, include_emacs_commands, spec_normalize(prefix@)),
            r@,
        ),
{
    let norm = normalize_command_name(prefix);
    if norm.len() == 0 {
        return Vec::new();
    }
    let c = collect_candidates(set, include_vim_commands, include_emacs_commands, norm.as_slice());
    complete_from(&c)
}

/// The completion list for a prefix (`edit`'s table).
pub fn autocomplete_command_suggestions_with_modes(prefix: &str, include_vim_commands: bool, include_emacs_commands: bool) -> (r: Vec<CommandAutocompleteSuggestion>)
    ensures
        completion_for(prefix.spec_bytes(), include_vim_commands, include_emacs_commands, r@),
{
    autocomplete_command_suggestions_in(CommandSet::Edit, str_bytes(prefix), include_vim_commands, include_emacs_commands)
}

/// The names of the completion list (`edit`'s table).
pub fn autocomplete_commands_with_modes(prefix: &str, include_vim_commands: bool, include_emacs_commands: bool) -> (r: Vec<&'static str>)
    ensures
        exists|s: Seq<CommandAutocompleteSuggestion>|
            #[trigger] completion_for(prefix.spec_bytes(), include_vim_commands, include_emacs_commands, s)
                && r@ == names_of(s),
{
    let s = autocomplete_command_suggestions_with_modes(prefix, include_vim_commands, include_emacs_commands);
    let mut r: Vec<&'static str> = Vec::new();
    let mut i: usize = 0;
    while i < s.len()
        invariant
            i <= s@.len(),
            r@ == names_of(s@.take(i as int)),
        decreases s@.len() - i,
    {
        r.push(s[i].name);
        i += 1;
        assert(r@ =~= names_of(s@.take(i as int)));
    }
    assert(s@.take(i as int) =~= s@);
    assert(completion_for(prefix.spec_bytes(), include_vim_commands, include_emacs_commands, s@));
    r
}

/// The names of the completion list (`edit`'s table), with all aliases enabled.
pub fn autocomplete_commands(prefix: &str) -> (r: Vec<&'static str>)
    ensures
        exists|s: Seq<CommandAutocompleteSuggestion>|
            #[trigger] completion_for(prefix.spec_bytes(), true, true, s) && r@ == names_of(s),
{
    autocomplete_commands_with_modes(prefix, true, true)
}

} // verus!
