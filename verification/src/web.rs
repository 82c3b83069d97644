//! Input handling of the browser front end: key sequences and text runs
//! read from a terminal emulator's input string.

use vstd::prelude::*;
use crate::helpers::{CoordType, Size};
use crate::input::{Input, InputView, InputKey, vk};
use crate::utf8::{spec_decode, decode_at, lemma_decode_is_scalar};

verus! {

/// Clamps a dimension reported by the browser to `1..=32767`.
pub fn clamp_size(value: i32) -> (r: CoordType)
    ensures
        r == if value < 1 {
            1
        } else if value > 32767 {
            32767
        } else {
            value as int
        },
{
    if value < 1 {
        1
    } else if value > 32767 {
        32767
    } else {
        value as CoordType
    }
}

/// The key a special sequence at the start of `s` stands for, and its length.
pub open spec fn spec_parse_key(s: Seq<u8>) -> Option<(InputKey, int)> {
    if s.len() >= 1 && s[0] == 0x0Du8 {
        Some((vk::RETURN, 1))
    } else if s.len() >= 1 && s[0] == 0x09u8 {
        Some((vk::TAB, 1))
    } else if s.len() >= 1 && (s[0] == 0x7Fu8 || s[0] == 0x08u8) {
        Some((vk::BACK, 1))
    } else if s.len() >= 3 && s[0] == 0x1Bu8 && s[1] == 0x5Bu8 && s[2] == 0x41u8 {
        Some((vk::UP, 3))
    } else if s.len() >= 3 && s[0] == 0x1Bu8 && s[1] == 0x5Bu8 && s[2] == 0x42u8 {
        Some((vk::DOWN, 3))
    } else if s.len() >= 3 && s[0] == 0x1Bu8 && s[1] == 0x5Bu8 && s[2] == 0x43u8 {
        Some((vk::RIGHT, 3))
    } else if s.len() >= 3 && s[0] == 0x1Bu8 && s[1] == 0x5Bu8 && s[2] == 0x44u8 {
        Some((vk::LEFT, 3))
    } else if s.len() >= 3 && s[0] == 0x1Bu8 && s[1] == 0x5Bu8 && s[2] == 0x48u8 {
        Some((vk::HOME, 3))
    } else if s.len() >= 3 && s[0] == 0x1Bu8 && s[1] == 0x5Bu8 && s[2] == 0x46u8 {
        Some((vk::END, 3))
    } else if s.len() >= 4 && s[0] == 0x1Bu8 && s[1] == 0x5Bu8 && s[2] == 0x33u8 && s[3]
        == 0x7Eu8 {
        Some((vk::DELETE, 4))
    } else {
        None
    }
}

/// Recognizes Return, Tab, Backspace, the arrow keys, Home, End and Delete at
/// the start of `input`: the key and the number of bytes it takes.
pub fn parse_key(input: &[u8]) -> (r: Option<(InputKey, usize)>)
    ensures
        match spec_parse_key(input@) {
            Some((k, n)) => r == Some((k, n as usize)),
            None => r is None,
        },
{
    let n = input.len();
    if n >= 1 && input[0] == 0x0D {
        Some((vk::RETURN, 1))
    } else if n >= 1 && input[0] == 0x09 {
        Some((vk::TAB, 1))
    } else if n >= 1 && (input[0] == 0x7F || input[0] == 0x08) {
        Some((vk::BACK, 1))
    } else if n >= 3 && input[0] == 0x1B && input[1] == 0x5B && input[2] == 0x41 {
        Some((vk::UP, 3))
    } else if n >= 3 && input[0] == 0x1B && input[1] == 0x5B && input[2] == 0x42 {
        Some((vk::DOWN, 3))
    } else if n >= 3 && input[0] == 0x1B && input[1] == 0x5B && input[2] == 0x43 {
        Some((vk::RIGHT, 3))
    } else if n >= 3 && input[0] == 0x1B && input[1] == 0x5B && input[2] == 0x44 {
        Some((vk::LEFT, 3))
    } else if n >= 3 && input[0] == 0x1B && input[1] == 0x5B && input[2] == 0x48 {
        Some((vk::HOME, 3))
    } else if n >= 3 && input[0] == 0x1B && input[1] == 0x5B && input[2] == 0x46 {
        Some((vk::END, 3))
    } else if n >= 4 && input[0] == 0x1B && input[1] == 0x5B && input[2] == 0x33 && input[3]
        == 0x7E {
        Some((vk::DELETE, 4))
    } else {
        None
    }
}

/// Whether a code point is a control character (general category Cc):
/// U+0000 to U+001F and U+007F to U+009F.
pub open spec fn is_control(c: u32) -> bool {
    c < 0x20 || (0x7F <= c && c <= 0x9F)
}

/// The end of the run of non-control characters starting at `i`.
pub open spec fn run_end(s: Seq<u8>, i: int) -> int
    decreases s.len() - i,
{
    if i < 0 || i >= s.len() || is_control(spec_decode(s, i).0) {
        i
    } else {
        proof {
            lemma_decode_is_scalar(s, i);
        }
        run_end(s, spec_decode(s, i).1)
    }
}

/// A run ends within the text, no earlier than it starts.
pub proof fn lemma_run_end_bounds(s: Seq<u8>, i: int)
    requires
        0 <= i <= s.len(),
    ensures
        i <= run_end(s, i) <= s.len(),
    decreases s.len() - i,
{
    if i < s.len() && !is_control(spec_decode(s, i).0) {
        lemma_decode_is_scalar(s, i);
        lemma_run_end_bounds(s, spec_decode(s, i).1);
    }
}

/// The length of the run of non-control characters at the start of
/// `input`, or `None` if there is none.
pub fn next_text_run(input: &[u8]) -> (r: Option<usize>)
    ensures
        r == if run_end(input@, 0) == 0 {
            None::<usize>
        } else {
            Some(run_end(input@, 0) as usize)
        },
{
    proof {
        lemma_run_end_bounds(input@, 0);
    }
    let mut end: usize = 0;
    while end < input.len()
        invariant
            end <= input.len(),
            run_end(input@, end as int) == run_end(input@, 0),
        ensures
            end <= input.len(),
            run_end(input@, end as int) == run_end(input@, 0),
            end == input.len() || is_control(spec_decode(input@, end as int).0),
        decreases input.len() - end,
    {
        let (ch, next) = decode_at(input, end);
        if (ch as u32) < 0x20 || (0x7F <= (ch as u32) && (ch as u32) <= 0x9F) {
            break;
        }
        end = next;
    }
    if end == 0 {
        None
    } else {
        Some(end)
    }
}

/// The events the engine gets from `s[i..]`: a recognized key, else a run
/// of text, else nothing for the next character, which is skipped.
pub open spec fn spec_web_events(s: Seq<u8>, i: int) -> Seq<InputView>
    decreases s.len() - i,
{
    if i < 0 || i >= s.len() {
        Seq::empty()
    } else {
        let rest = s.subrange(i, s.len() as int);
        match spec_parse_key(rest) {
            Some((k, n)) => seq![InputView::Keyboard(k)] + spec_web_events(s, i + n),
            None => {
                let e = run_end(rest, 0);
                if e > 0 {
                    proof {
                        lemma_run_end_bounds(rest, 0);
                    }
                    seq![InputView::Text(rest.subrange(0, e))] + spec_web_events(s, i + e)
                } else {
                    proof {
                        lemma_decode_is_scalar(rest, 0);
                    }
                    spec_web_events(s, i + spec_decode(rest, 0).1)
                }
            },
        }
    }
}

/// The events the engine handles for `input`, in order: keys for the
/// recognized sequences, text for runs of non-control characters, and
/// nothing for any other character.
pub fn web_input_events(input: &[u8]) -> (r: Vec<Input>)
    ensures
        r@.map_values(|e: Input| e@) == spec_web_events(input@, 0),
{
    let mut out: Vec<Input> = Vec::new();
    let mut off: usize = 0;
    while off < input.len()
        invariant
            off <= input.len(),
            out@.map_values(|e: Input| e@) + spec_web_events(input@, off as int) == spec_web_events(
                input@,
                0,
            ),
        decreases input.len() - off,
    {
        let rest = &input[off..input.len()];
        let ghost before = out@.map_values(|e: Input| e@);
        assert(rest@ == input@.subrange(off as int, input@.len() as int));
        match parse_key(rest) {
            Some((k, n)) => {
                out.push(Input::Keyboard(k));
                assert(out@.map_values(|e: Input| e@) == before.push(InputView::Keyboard(k)));
                assert(before.push(InputView::Keyboard(k)) + spec_web_events(input@, off + n)
                    =~= before + (seq![InputView::Keyboard(k)] + spec_web_events(input@, off + n)));
                off += n;
            },
            None => {
                proof {
                    lemma_run_end_bounds(rest@, 0);
                }
                match next_text_run(rest) {
                    Some(e) => {
                        let mut t: Vec<u8> = Vec::new();
                        crate::text::extend_bytes(&mut t, &rest[0..e]);
                        let ghost text = t@;
                        out.push(Input::Text(t));
                        assert(text =~= rest@.subrange(0, e as int));
                        assert(out@.map_values(|e: Input| e@) == before.push(InputView::Text(text)));
                        assert(before.push(InputView::Text(text)) + spec_web_events(input@, off + e)
                            =~= before + (seq![InputView::Text(text)] + spec_web_events(
                            input@,
                            off + e,
                        )));
                        off += e;
                    },
                    None => {
                        let (_, next) = decode_at(rest, 0);
                        off += next;
                    },
                }
            },
        }
    }
    assert(out@.map_values(|e: Input| e@) + spec_web_events(input@, off as int) =~= out@.map_values(
        |e: Input| e@,
    ));
    out
}

} // verus!
