//! A VT (terminal escape sequence) parser.
//!
//! The parser is a state machine that survives across chunks of input: an
//! escape sequence split over two reads is finished on the second one.

use vstd::prelude::*;
use crate::utf8::{decode_at, spec_decode};

verus! {

/// Number of CSI parameter slots.
pub const CSI_PARAMS: usize = 32;

/// The parser produces these tokens.
pub enum Token {
    /// A bunch of text. Doesn't contain any control characters.
    Text(Vec<u8>),
    /// A single control character, like backspace or return.
    Ctrl(char),
    /// We encountered `ESC x` and this contains `x`.
    Esc(char),
    /// We encountered `ESC O x` and this contains `x`.
    SS3(char),
    /// A CSI sequence started with `ESC [`.
    Csi(Csi),
    /// An OSC sequence started with `ESC ]`; `partial` if it continues in the next input.
    Osc { data: Vec<u8>, partial: bool },
    /// A DCS sequence started with `ESC P`; `partial` if it continues in the next input.
    Dcs { data: Vec<u8>, partial: bool },
}

/// The state of the parser between tokens.
#[derive(Clone, Copy, PartialEq, Eq, Structural, Debug)]
pub enum State {
    Ground,
    Esc,
    Ss3,
    Csi,
    Osc,
    Dcs,
    OscEsc,
    DcsEsc,
}

/// A single CSI sequence.
#[derive(Clone, Copy)]
pub struct Csi {
    /// The parameters of the CSI sequence.
    pub params: [u16; 32],
    /// The number of parameters stored in `params`.
    pub param_count: usize,
    /// The private byte (e.g. `?` or `<`), `'\0'` if none.
    pub private_byte: char,
    /// The final byte of the CSI sequence, e.g. `m` or `H`.
    pub final_byte: char,
}

/// The mathematical content of a CSI sequence.
pub struct CsiView {
    pub params: Seq<u16>,
    pub param_count: nat,
    pub private_byte: char,
    pub final_byte: char,
}

impl View for Csi {
    type V = CsiView;

    open spec fn view(&self) -> CsiView {
        CsiView {
            params: self.params@,
            param_count: self.param_count as nat,
            private_byte: self.private_byte,
            final_byte: self.final_byte,
        }
    }
}

/// The mathematical content of a token.
pub enum TokenView {
    Text(Seq<u8>),
    Ctrl(char),
    Esc(char),
    SS3(char),
    Csi(CsiView),
    Osc(Seq<u8>, bool),
    Dcs(Seq<u8>, bool),
}

impl View for Token {
    type V = TokenView;

    open spec fn view(&self) -> TokenView {
        match self {
            Token::Text(t) => TokenView::Text(t@),
            Token::Ctrl(c) => TokenView::Ctrl(*c),
            Token::Esc(c) => TokenView::Esc(*c),
            Token::SS3(c) => TokenView::SS3(*c),
            Token::Csi(c) => TokenView::Csi(c@),
            Token::Osc { data, partial } => TokenView::Osc(data@, *partial),
            Token::Dcs { data, partial } => TokenView::Dcs(data@, *partial),
        }
    }
}

/// The view of an optional token.
pub open spec fn opt_view(t: Option<Token>) -> Option<TokenView> {
    match t {
        Some(x) => Some(x@),
        None => None,
    }
}

/// The parser: its state and the CSI sequence being assembled.
pub struct Parser {
    pub state: State,
    pub csi: Csi,
}

/// The mathematical content of the parser.
pub struct ParserView {
    pub state: State,
    pub csi: CsiView,
}

impl View for Parser {
    type V = ParserView;

    open spec fn view(&self) -> ParserView {
        ParserView { state: self.state, csi: self.csi@ }
    }
}

impl ParserView {
    pub open spec fn with_state(self, s: State) -> ParserView {
        ParserView { state: s, ..self }
    }

    pub open spec fn with_csi(self, c: CsiView) -> ParserView {
        ParserView { csi: c, ..self }
    }
}

/// The decoded character at `off` and the offset after it; `('\0', off)` at the end.
pub open spec fn spec_next_char(input: Seq<u8>, off: int) -> (char, int) {
    if off >= input.len() {
        ('\0', off)
    } else {
        (spec_decode(input, off).0 as char, spec_decode(input, off).1)
    }
}

pub open spec fn is_ctrl_byte(b: u8) -> bool {
    b < 0x20 || b == 0x7f
}

pub open spec fn is_digit(b: u8) -> bool {
    0x30 <= b <= 0x39
}

/// First offset `>= i` holding a control byte, or the input's length.
pub open spec fn text_end(input: Seq<u8>, i: int) -> int
    decreases input.len() - i,
{
    if i >= input.len() || is_ctrl_byte(input[i]) {
        i
    } else {
        text_end(input, i + 1)
    }
}

/// First offset `>= i` holding BEL or ESC, or the input's length.
pub open spec fn find_bel_esc(input: Seq<u8>, i: int) -> int
    decreases input.len() - i,
{
    if i >= input.len() || input[i] == 0x07 || input[i] == 0x1b {
        i
    } else {
        find_bel_esc(input, i + 1)
    }
}

/// Accumulates decimal digits from `i` into `v` (saturating at `u16::MAX`);
/// returns the value and the offset after the digits.
pub open spec fn spec_digits(v: u16, input: Seq<u8>, i: int) -> (u16, int)
    decreases input.len() - i,
{
    if i >= input.len() || !is_digit(input[i]) {
        (v, i)
    } else {
        let w = v * 10 + (input[i] - 0x30);
        spec_digits(if w > 0xffff { 0xffffu16 } else { w as u16 }, input, i + 1)
    }
}

/// First offset `>= i` that is not a decimal digit, or the input's length.
pub open spec fn skip_digits(input: Seq<u8>, i: int) -> int
    decreases input.len() - i,
{
    if i >= input.len() || !is_digit(input[i]) {
        i
    } else {
        skip_digits(input, i + 1)
    }
}

/// Clearing the CSI record when `ESC [` starts a new sequence; `None` where the
/// parameter count exceeds the slots, which the clearing loop cannot index.
pub open spec fn csi_reset(c: CsiView) -> Option<CsiView> {
    if c.param_count > 32 {
        None
    } else {
        Some(
            CsiView {
                params: Seq::new(32, |i: int| if i < c.param_count { 0u16 } else { c.params[i] }),
                param_count: 0,
                private_byte: '\0',
                final_byte: '\0',
            },
        )
    }
}

/// Result of a step: the parser afterwards, the offset afterwards, and the token, if any.
/// `None` marks inputs on which parsing cannot proceed without an index or counter
/// leaving its range.
pub type Step = Option<(ParserView, int, Option<TokenView>)>;

/// The CSI body, from offset `off` until the final byte or the end of the input.
pub open spec fn spec_csi(p: ParserView, input: Seq<u8>, off: int) -> Step
    decreases input.len() - off,
{
    if off < 0 {
        None
    } else {
        let count = p.csi.param_count;
        let (p1, o1) = if count < 32 {
            let (v, o) = spec_digits(p.csi.params[count as int], input, off);
            (p.with_csi(CsiView { params: p.csi.params.update(count as int, v), ..p.csi }), o)
        } else {
            (p, skip_digits(input, off))
        };
        if o1 >= input.len() {
            Some((p1, o1, None))
        } else if o1 < off {
            None
        } else {
            let c = input[o1];
            if 0x40 <= c <= 0x7e {
                let grow = p1.csi.param_count != 0 || p1.csi.params[0] != 0;
                if grow && p1.csi.param_count >= usize::MAX {
                    None
                } else {
                    let csi2 = CsiView {
                        final_byte: c as char,
                        param_count: if grow {
                            (p1.csi.param_count + 1) as nat
                        } else {
                            p1.csi.param_count
                        },
                        ..p1.csi
                    };
                    Some((p1.with_csi(csi2).with_state(State::Ground), o1 + 1, Some(TokenView::Csi(csi2))))
                }
            } else if c == 0x3b {
                if p1.csi.param_count >= usize::MAX {
                    None
                } else {
                    spec_csi(
                        p1.with_csi(CsiView { param_count: (p1.csi.param_count + 1) as nat, ..p1.csi }),
                        input,
                        o1 + 1,
                    )
                }
            } else if 0x3c <= c <= 0x3f {
                spec_csi(p1.with_csi(CsiView { private_byte: c as char, ..p1.csi }), input, o1 + 1)
            } else {
                spec_csi(p1, input, o1 + 1)
            }
        }
    }
}

/// The token kind used when an OSC/DCS payload is reported while in state `s`.
pub open spec fn string_token(s: State, data: Seq<u8>, partial: bool) -> TokenView {
    if s == State::Osc {
        TokenView::Osc(data, partial)
    } else {
        TokenView::Dcs(data, partial)
    }
}

/// An OSC/DCS payload that started at `beg`, scanning from `off`.
pub open spec fn spec_string(p: ParserView, input: Seq<u8>, beg: int, off: int) -> Step
    decreases input.len() - off,
{
    let i = find_bel_esc(input, off);
    if off < 0 || i < off {
        None
    } else if i >= input.len() {
        Some((p, i, Some(string_token(p.state, input.subrange(beg, i), true))))
    } else if input[i] == 0x1b {
        if i + 1 >= input.len() {
            let s2 = if p.state == State::Osc { State::OscEsc } else { State::DcsEsc };
            Some((p.with_state(s2), i + 1, Some(string_token(p.state, input.subrange(beg, i), true))))
        } else if input[i + 1] != 0x5c {
            spec_string(p, input, beg, i + 1)
        } else {
            Some((p.with_state(State::Ground), i + 2, Some(string_token(p.state, input.subrange(beg, i), false))))
        }
    } else {
        Some((p.with_state(State::Ground), i + 1, Some(string_token(p.state, input.subrange(beg, i), false))))
    }
}

/// The main loop of `Stream::next`, from offset `off`.
pub open spec fn spec_run(p: ParserView, input: Seq<u8>, off: int) -> Step
    decreases input.len() - off,
{
    if off < 0 {
        None
    } else if off >= input.len() {
        Some((p, off, None))
    } else {
        match p.state {
            State::Ground => {
                let b = input[off];
                if b == 0x1b {
                    spec_run(p.with_state(State::Esc), input, off + 1)
                } else if is_ctrl_byte(b) {
                    Some((p, off + 1, Some(TokenView::Ctrl(b as char))))
                } else {
                    let end = text_end(input, off + 1);
                    Some((p, end, Some(TokenView::Text(input.subrange(off, end)))))
                }
            },
            State::Esc => {
                let (c, n) = spec_next_char(input, off);
                if n <= off {
                    None
                } else if c == '[' {
                    match csi_reset(p.csi) {
                        None => None,
                        Some(c2) => spec_run(p.with_csi(c2).with_state(State::Csi), input, n),
                    }
                } else if c == ']' {
                    spec_run(p.with_state(State::Osc), input, n)
                } else if c == 'O' {
                    spec_run(p.with_state(State::Ss3), input, n)
                } else if c == 'P' {
                    spec_run(p.with_state(State::Dcs), input, n)
                } else {
                    Some((p.with_state(State::Ground), n, Some(TokenView::Esc(c))))
                }
            },
            State::Ss3 => {
                let (c, n) = spec_next_char(input, off);
                Some((p.with_state(State::Ground), n, Some(TokenView::SS3(c))))
            },
            State::Csi => spec_csi(p, input, off),
            State::Osc => spec_string(p, input, off, off),
            State::Dcs => spec_string(p, input, off, off),
            State::OscEsc => {
                if input[off] == 0x5c {
                    Some((p.with_state(State::Ground), off + 1, Some(TokenView::Osc(Seq::empty(), false))))
                } else {
                    Some((p.with_state(State::Osc), off, Some(TokenView::Osc(seq![0x1bu8], true))))
                }
            },
            State::DcsEsc => {
                if input[off] == 0x5c {
                    Some((p.with_state(State::Ground), off + 1, Some(TokenView::Dcs(Seq::empty(), false))))
                } else {
                    Some((p.with_state(State::Dcs), off, Some(TokenView::Dcs(seq![0x1bu8], true))))
                }
            },
        }
    }
}

/// One call of `Stream::next` on `input` from offset `off`.
pub open spec fn spec_next(p: ParserView, input: Seq<u8>, off: int) -> Step {
    if input.len() == 0 && p.state == State::Esc {
        Some((p.with_state(State::Ground), off, Some(TokenView::Esc('\0'))))
    } else if input.len() == 0 && p.state == State::Csi {
        Some((p.with_state(State::Ground), off, Some(TokenView::Esc('['))))
    } else if input.len() == 0 && p.state == State::Osc {
        Some((p.with_state(State::Ground), off, Some(TokenView::Esc(']'))))
    } else if input.len() == 0 && p.state == State::Dcs {
        Some((p.with_state(State::Ground), off, Some(TokenView::Esc('P'))))
    } else {
        spec_run(p, input, off)
    }
}

impl Parser {
    pub fn new() -> (p: Parser)
        ensures
            p@.state == State::Ground,
            p@.csi.params == Seq::new(32, |i: int| 0u16),
            p@.csi.param_count == 0,
            p@.csi.private_byte == '\0',
            p@.csi.final_byte == '\0',
    {
        let p = Parser {
            state: State::Ground,
            csi: Csi { params: [0u16; 32], param_count: 0, private_byte: '\0', final_byte: '\0' },
        };
        assert(p@.csi.params =~= Seq::new(32, |i: int| 0u16));
        p
    }

    /// Suggests a timeout (in milliseconds) for the next read: 100 while an escape
    /// sequence may still continue, otherwise `None` (wait indefinitely).
    pub fn read_timeout(&self) -> (t: Option<u64>)
        ensures
            t == (if self.state == State::Esc || self.state == State::Csi || self.state == State::Osc
                || self.state == State::Dcs {
                Some(100u64)
            } else {
                None
            }),
    {
        match self.state {
            State::Esc | State::Csi | State::Osc | State::Dcs => Some(100),
            _ => None,
        }
    }

    /// Starts parsing the given input. The parser travels with the stream and is
    /// handed back by [`Stream::into_parser`].
    pub fn parse<'input>(self, input: &'input [u8]) -> (s: Stream<'input>)
        ensures
            s.parser@ == self@,
            s.input@ == input@,
            s.off == 0,
    {
        Stream { parser: self, input, off: 0 }
    }
}

/// Parses VT sequences into tokens.
pub struct Stream<'input> {
    pub parser: Parser,
    pub input: &'input [u8],
    pub off: usize,
}

/// Finds the first BEL or ESC at or after `off`; the input length if none.
pub fn memchr2(bytes: &[u8], off: usize) -> (r: usize)
    requires
        off <= bytes@.len(),
    ensures
        r == find_bel_esc(bytes@, off as int),
{
    let mut i = off;
    while i < bytes.len() && bytes[i] != 0x07 && bytes[i] != 0x1b
        invariant
            off <= i <= bytes@.len(),
            find_bel_esc(bytes@, i as int) == find_bel_esc(bytes@, off as int),
        decreases bytes@.len() - i,
    {
        i += 1;
    }
    i
}

/// A run of text ends within the input, no earlier than it starts.
pub proof fn lemma_text_end_bounds(input: Seq<u8>, i: int)
    requires
        0 <= i <= input.len(),
    ensures
        i <= text_end(input, i) <= input.len(),
    decreases input.len() - i,
{
    if i < input.len() && !is_ctrl_byte(input[i]) {
        lemma_text_end_bounds(input, i + 1);
    }
}

/// The search for BEL or ESC ends within the input, at one of them or at the end.
pub proof fn lemma_find_bounds(input: Seq<u8>, i: int)
    requires
        0 <= i <= input.len(),
    ensures
        i <= find_bel_esc(input, i) <= input.len(),
        find_bel_esc(input, i) < input.len() ==> (input[find_bel_esc(input, i)] == 0x07
            || input[find_bel_esc(input, i)] == 0x1b),
    decreases input.len() - i,
{
    if i < input.len() && input[i] != 0x07 && input[i] != 0x1b {
        lemma_find_bounds(input, i + 1);
    }
}

impl<'input> Stream<'input> {
    /// Returns the input that is being parsed.
    pub fn input(&self) -> (r: &'input [u8])
        ensures
            r@ == self.input@,
    {
        self.input
    }

    /// Returns the current parser offset.
    pub fn offset(&self) -> (r: usize)
        ensures
            r == self.off,
    {
        self.off
    }

    /// Returns `true` if the input has been fully parsed.
    pub fn done(&self) -> (r: bool)
        ensures
            r == (self.off >= self.input@.len()),
    {
        self.off >= self.input.len()
    }

    /// Hands the parser back, with the state it reached.
    pub fn into_parser(self) -> (p: Parser)
        ensures
            p@ == self.parser@,
    {
        self.parser
    }

    /// Decodes and consumes the next UTF-8 character from the input; `'\0'` at the end.
    pub fn next_char(&mut self) -> (c: char)
        ensures
            (c, final(self).off as int) == spec_next_char(old(self).input@, old(self).off as int),
            final(self).input == old(self).input,
            final(self).parser@ == old(self).parser@,
    {
        if self.off >= self.input.len() {
            '\0'
        } else {
            let (c, n) = decode_at(self.input, self.off);
            self.off = n;
            c
        }
    }

    /// Accumulates digits into parameter slot `idx`.
    fn csi_digits(&mut self, idx: usize)
        requires
            idx < 32,
            old(self).off <= old(self).input@.len(),
        ensures
            final(self).input == old(self).input,
            final(self).parser.state == old(self).parser.state,
            (final(self).parser.csi.params[idx as int], final(self).off as int) == spec_digits(
                old(self).parser.csi.params[idx as int],
                old(self).input@,
                old(self).off as int,
            ),
            final(self).parser.csi@ == (CsiView {
                params: old(self).parser.csi.params@.update(
                    idx as int,
                    final(self).parser.csi.params[idx as int],
                ),
                ..old(self).parser.csi@
            }),
            final(self).off <= final(self).input@.len(),
    {
        let ghost start_params = self.parser.csi.params@;
        assert(start_params.update(idx as int, start_params[idx as int]) =~= start_params);
        while self.off < self.input.len() && 0x30 <= self.input[self.off] && self.input[self.off]
            <= 0x39
            invariant
                idx < 32,
                self.input == old(self).input,
                self.parser.state == old(self).parser.state,
                self.off <= self.input@.len(),
                old(self).off <= self.off,
                spec_digits(self.parser.csi.params[idx as int], self.input@, self.off as int)
                    == spec_digits(
                    old(self).parser.csi.params[idx as int],
                    old(self).input@,
                    old(self).off as int,
                ),
                self.parser.csi@ == (CsiView {
                    params: start_params.update(idx as int, self.parser.csi.params[idx as int]),
                    ..old(self).parser.csi@
                }),
                start_params == old(self).parser.csi.params@,
            decreases self.input@.len() - self.off,
        {
            let add = (self.input[self.off] - 0x30) as u32;
            let value = self.parser.csi.params[idx] as u32 * 10 + add;
            self.parser.csi.params[idx] = if value > 0xffff { 0xffff } else { value as u16 };
            self.off += 1;
            proof {
                assert(self.parser.csi.params@ =~= start_params.update(
                    idx as int,
                    self.parser.csi.params[idx as int],
                ));
            }
        }
    }

    /// Skips digits (when all parameter slots are taken).
    fn csi_skip_digits(&mut self)
        requires
            old(self).off <= old(self).input@.len(),
        ensures
            final(self).input == old(self).input,
            final(self).parser@ == old(self).parser@,
            final(self).off == skip_digits(old(self).input@, old(self).off as int),
            final(self).off <= final(self).input@.len(),
    {
        while self.off < self.input.len() && 0x30 <= self.input[self.off] && self.input[self.off]
            <= 0x39
            invariant
                self.input == old(self).input,
                self.parser@ == old(self).parser@,
                old(self).off <= self.off <= self.input@.len(),
                skip_digits(self.input@, self.off as int) == skip_digits(
                    old(self).input@,
                    old(self).off as int,
                ),
            decreases self.input@.len() - self.off,
        {
            self.off += 1;
        }
    }

    /// The body of a CSI sequence.
    fn next_csi(&mut self) -> (t: Option<Token>)
        requires
            old(self).off <= old(self).input@.len(),
            spec_csi(old(self).parser@, old(self).input@, old(self).off as int) is Some,
        ensures
            spec_csi(old(self).parser@, old(self).input@, old(self).off as int) == Some(
                (final(self).parser@, final(self).off as int, opt_view(t)),
            ),
            final(self).input == old(self).input,
    {
        loop
            invariant
                self.input == old(self).input,
                self.off <= self.input@.len(),
                spec_csi(self.parser@, self.input@, self.off as int) == spec_csi(
                    old(self).parser@,
                    old(self).input@,
                    old(self).off as int,
                ),
                spec_csi(self.parser@, self.input@, self.off as int) is Some,
            decreases self.input@.len() - self.off,
        {
            let ghost p0 = self.parser@;
            let ghost o0 = self.off as int;
            if self.parser.csi.param_count < 32 {
                let idx = self.parser.csi.param_count;
                self.csi_digits(idx);
            } else {
                self.csi_skip_digits();
            }
            if self.off >= self.input.len() {
                return None;
            }
            let c = self.input[self.off];
            self.off += 1;
            if 0x40 <= c && c <= 0x7e {
                self.parser.state = State::Ground;
                self.parser.csi.final_byte = c as char;
                if self.parser.csi.param_count != 0 || self.parser.csi.params[0] != 0 {
                    self.parser.csi.param_count += 1;
                }
                return Some(Token::Csi(self.parser.csi));
            } else if c == 0x3b {
                self.parser.csi.param_count += 1;
            } else if 0x3c <= c && c <= 0x3f {
                self.parser.csi.private_byte = c as char;
            }
            assert(self.parser.csi.params@ =~= spec_csi_params_after(p0, self.input@, o0));
        }
    }
}

impl<'input> Stream<'input> {
    /// Clears the CSI record for a new `ESC [` sequence.
    fn csi_reset(&mut self)
        requires
            csi_reset(old(self).parser.csi@) is Some,
        ensures
            final(self).input == old(self).input,
            final(self).off == old(self).off,
            final(self).parser@ == old(self).parser@.with_csi(csi_reset(old(self).parser.csi@)->Some_0),
    {
        let ghost orig = self.parser.csi.params@;
        let ghost c0 = self.parser.csi.param_count as int;
        self.parser.csi.private_byte = '\0';
        self.parser.csi.final_byte = '\0';
        while self.parser.csi.param_count > 0
            invariant
                self.input == old(self).input,
                self.off == old(self).off,
                self.parser.state == old(self).parser.state,
                self.parser.csi.private_byte == '\0',
                self.parser.csi.final_byte == '\0',
                c0 <= 32,
                orig == old(self).parser.csi.params@,
                c0 == old(self).parser.csi.param_count,
                self.parser.csi.param_count <= c0,
                self.parser.csi.params@ == Seq::new(
                    32,
                    |i: int|
                        if self.parser.csi.param_count <= i < c0 {
                            0u16
                        } else {
                            orig[i]
                        },
                ),
            decreases self.parser.csi.param_count,
        {
            let ghost before = self.parser.csi.params@;
            self.parser.csi.param_count -= 1;
            let k = self.parser.csi.param_count;
            self.parser.csi.params[k] = 0;
            assert(self.parser.csi.params@ =~= Seq::new(
                32,
                |i: int|
                    if self.parser.csi.param_count <= i < c0 {
                        0u16
                    } else {
                        orig[i]
                    },
            ));
        }
        assert(self.parser.csi.params@ =~= Seq::new(
            32,
            |i: int|
                if i < c0 {
                    0u16
                } else {
                    orig[i]
                },
        ));
    }

    /// The payload of an OSC or DCS sequence.
    fn next_string(&mut self) -> (t: Option<Token>)
        requires
            old(self).off <= old(self).input@.len(),
            old(self).parser.state == State::Osc || old(self).parser.state == State::Dcs,
            spec_string(old(self).parser@, old(self).input@, old(self).off as int, old(self).off as int) is Some,
        ensures
            spec_string(old(self).parser@, old(self).input@, old(self).off as int, old(self).off as int)
                == Some((final(self).parser@, final(self).off as int, opt_view(t))),
            final(self).input == old(self).input,
    {
        let input = self.input;
        let beg = self.off;
        loop
            invariant
                self.input == old(self).input,
                input@ == self.input@,
                self.parser@ == old(self).parser@,
                beg == old(self).off,
                beg <= self.off <= input@.len(),
                spec_string(self.parser@, input@, beg as int, self.off as int) == spec_string(
                    old(self).parser@,
                    input@,
                    beg as int,
                    beg as int,
                ),
                spec_string(self.parser@, input@, beg as int, self.off as int) is Some,
                old(self).parser.state == State::Osc || old(self).parser.state == State::Dcs,
            decreases input@.len() - self.off,
        {
            let i = memchr2(input, self.off);
            proof {
                lemma_find_bounds(input@, self.off as int);
            }
            if i >= input.len() {
                self.off = i;
                let data = vstd::slice::slice_to_vec(&input[beg..i]);
                return match self.parser.state {
                    State::Osc => Some(Token::Osc { data, partial: true }),
                    _ => Some(Token::Dcs { data, partial: true }),
                };
            }
            let c = input[i];
            if c == 0x1b {
                if i + 1 >= input.len() {
                    let state = self.parser.state;
                    self.parser.state = match state {
                        State::Osc => State::OscEsc,
                        _ => State::DcsEsc,
                    };
                    self.off = i + 1;
                    let data = vstd::slice::slice_to_vec(&input[beg..i]);
                    return match state {
                        State::Osc => Some(Token::Osc { data, partial: true }),
                        _ => Some(Token::Dcs { data, partial: true }),
                    };
                }
                if input[i + 1] != 0x5c {
                    self.off = i + 1;
                    continue;
                }
                let state = self.parser.state;
                self.parser.state = State::Ground;
                self.off = i + 2;
                let data = vstd::slice::slice_to_vec(&input[beg..i]);
                return match state {
                    State::Osc => Some(Token::Osc { data, partial: false }),
                    _ => Some(Token::Dcs { data, partial: false }),
                };
            }
            let state = self.parser.state;
            self.parser.state = State::Ground;
            self.off = i + 1;
            let data = vstd::slice::slice_to_vec(&input[beg..i]);
            return match state {
                State::Osc => Some(Token::Osc { data, partial: false }),
                _ => Some(Token::Dcs { data, partial: false }),
            };
        }
    }

    /// Parses the next VT sequence from the input.
    pub fn next(&mut self) -> (t: Option<Token>)
        requires
            old(self).off <= old(self).input@.len(),
            spec_next(old(self).parser@, old(self).input@, old(self).off as int) is Some,
        ensures
            spec_next(old(self).parser@, old(self).input@, old(self).off as int) == Some(
                (final(self).parser@, final(self).off as int, opt_view(t)),
            ),
            final(self).input == old(self).input,
    {
        let input = self.input;
        if input.len() == 0 {
            match self.parser.state {
                State::Esc => {
                    self.parser.state = State::Ground;
                    return Some(Token::Esc('\0'));
                },
                State::Csi => {
                    self.parser.state = State::Ground;
                    return Some(Token::Esc('['));
                },
                State::Osc => {
                    self.parser.state = State::Ground;
                    return Some(Token::Esc(']'));
                },
                State::Dcs => {
                    self.parser.state = State::Ground;
                    return Some(Token::Esc('P'));
                },
                _ => {},
            }
        }
        while self.off < input.len()
            invariant
                self.input == old(self).input,
                input@ == self.input@,
                self.off <= input@.len(),
                input@.len() > 0 || self.off >= input@.len(),
                spec_run(self.parser@, input@, self.off as int) == spec_next(
                    old(self).parser@,
                    input@,
                    old(self).off as int,
                ),
                spec_run(self.parser@, input@, self.off as int) is Some,
            decreases input@.len() - self.off, (if self.parser.state == State::Esc { 1int } else { 0int }),
        {
            match self.parser.state {
                State::Ground => {
                    let b = input[self.off];
                    if b == 0x1b {
                        self.parser.state = State::Esc;
                        self.off += 1;
                    } else if b < 0x20 || b == 0x7f {
                        self.off += 1;
                        return Some(Token::Ctrl(b as char));
                    } else {
                        let beg = self.off;
                        let ghost p_at = self.parser@;
                        self.off += 1;
                        while self.off < input.len() && input[self.off] >= 0x20 && input[self.off]
                            != 0x7f
                            invariant
                                self.input == old(self).input,
                                input@ == self.input@,
                                beg < self.off <= input@.len(),
                                self.parser@ == p_at,
                                text_end(input@, self.off as int) == text_end(input@, beg + 1),
                            decreases input@.len() - self.off,
                        {
                            self.off += 1;
                        }
                        assert(text_end(input@, self.off as int) == self.off as int);
                        let data = vstd::slice::slice_to_vec(&input[beg..self.off]);
                        assert(data@ =~= input@.subrange(beg as int, self.off as int));
                        return Some(Token::Text(data));
                    }
                },
                State::Esc => {
                    let c = self.next_char();
                    if c == '[' {
                        self.parser.state = State::Csi;
                        self.csi_reset();
                    } else if c == ']' {
                        self.parser.state = State::Osc;
                    } else if c == 'O' {
                        self.parser.state = State::Ss3;
                    } else if c == 'P' {
                        self.parser.state = State::Dcs;
                    } else {
                        self.parser.state = State::Ground;
                        return Some(Token::Esc(c));
                    }
                },
                State::Ss3 => {
                    self.parser.state = State::Ground;
                    let c = self.next_char();
                    return Some(Token::SS3(c));
                },
                State::Csi => {
                    return self.next_csi();
                },
                State::Osc | State::Dcs => {
                    return self.next_string();
                },
                State::OscEsc | State::DcsEsc => {
                    if input[self.off] == 0x5c {
                        let state = self.parser.state;
                        self.parser.state = State::Ground;
                        self.off += 1;
                        return match state {
                            State::OscEsc => Some(Token::Osc { data: Vec::new(), partial: false }),
                            _ => Some(Token::Dcs { data: Vec::new(), partial: false }),
                        };
                    } else {
                        let was_osc = self.parser.state == State::OscEsc;
                        if was_osc {
                            self.parser.state = State::Osc;
                            let data = vec![0x1bu8];
                            assert(data@ =~= seq![0x1bu8]);
                            return Some(Token::Osc { data, partial: true });
                        } else {
                            self.parser.state = State::Dcs;
                            let data = vec![0x1bu8];
                            assert(data@ =~= seq![0x1bu8]);
                            return Some(Token::Dcs { data, partial: true });
                        }
                    }
                },
            }
        }
        None
    }
}

/// Parameters after the digits of one CSI step (a helper for the loop's proof).
spec fn spec_csi_params_after(p: ParserView, input: Seq<u8>, off: int) -> Seq<u16> {
    let count = p.csi.param_count;
    if count < 32 {
        p.csi.params.update(count as int, spec_digits(p.csi.params[count as int], input, off).0)
    } else {
        p.csi.params
    }
}

} // verus!
