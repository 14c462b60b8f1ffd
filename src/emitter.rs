//! Timing configuration and the signal that a text is sent as.
use vstd::prelude::*;

use crate::symbol::{lookup, morse_symbols, bit_set};

verus! {

/// The largest dot length whose word gap (seven dots) still fits in a `u16`.
pub const MAX_DOT_LENGTH: u16 = 9362;

/// The dot length that `new_default` uses, in milliseconds.
pub const DEFAULT_DOT_LENGTH: u16 = 300;

/// One step of a transmission.
#[derive(Clone, Copy, Debug, PartialEq, Eq, Structural)]
pub enum Action {
    /// Drive the pin high (`true`) or low (`false`).
    Drive(bool),
    /// Block for this many milliseconds.
    Hold(u16),
}

/// `c` in upper case, for ASCII letters; any other character as it is.
pub open spec fn upper(c: char) -> char {
    if 'a' <= c <= 'z' {
        ((c as u32) - 32) as char
    } else {
        c
    }
}

/// Whether `c` is sent as a letter once put in upper case.
pub open spec fn is_letter(c: char) -> bool {
    'A' <= upper(c) <= 'Z'
}

/// The level that marks a symbol being sent.
pub open spec fn active_level(invert: bool) -> bool {
    !invert
}

/// One dot or dash: active for its duration, then inactive for one dot.
pub open spec fn symbol_signal(dot: u16, invert: bool, dash: bool) -> Seq<Action> {
    seq![
        Action::Drive(active_level(invert)),
        Action::Hold(if dash { (3 * dot) as u16 } else { dot }),
        Action::Drive(!active_level(invert)),
        Action::Hold(dot),
    ]
}

/// The symbols of a letter, one after the other.
pub open spec fn symbols_signal(dot: u16, invert: bool, syms: Seq<bool>) -> Seq<Action>
    decreases syms.len(),
{
    if syms.len() == 0 {
        seq![]
    } else {
        symbols_signal(dot, invert, syms.drop_last()) + symbol_signal(dot, invert, syms.last())
    }
}

/// A letter: its symbols, then the gap between letters.
pub open spec fn letter_signal(dot: u16, invert: bool, letter: char) -> Seq<Action> {
    symbols_signal(dot, invert, morse_symbols(letter)).push(Action::Hold((3 * dot) as u16))
}

/// One character of a text: a letter, the gap between words for a space,
/// nothing for anything else.
pub open spec fn char_signal(dot: u16, invert: bool, c: char) -> Seq<Action> {
    if is_letter(c) {
        letter_signal(dot, invert, upper(c))
    } else if upper(c) == ' ' {
        seq![Action::Hold((7 * dot) as u16)]
    } else {
        seq![]
    }
}

/// A text: the signals of its characters, in order.
pub open spec fn text_signal(dot: u16, invert: bool, s: Seq<char>) -> Seq<Action>
    decreases s.len(),
{
    if s.len() == 0 {
        seq![]
    } else {
        text_signal(dot, invert, s.drop_last()) + char_signal(dot, invert, s.last())
    }
}

/// `c` in upper case, for ASCII letters; any other character as it is.
pub fn to_upper(c: char) -> (r: char)
    ensures
        r == upper(c),
{
    if 'a' <= c && c <= 'z' {
        let b: u8 = (c as u8) - 32;
        b as char
    } else {
        c
    }
}

/// A Morse emitter: the timing of a transmission, the level that marks a
/// symbol, and the delay provider and pin that carry it out.
pub struct Morse<DELAY, PIN> {
    dot_length: u16,
    dash_length: u16,
    space_length: u16,
    invert: bool,
    /// Blocks for a number of milliseconds.
    pub delay: DELAY,
    /// The output that the signal is driven on.
    pub pin: PIN,
}

impl<DELAY, PIN> Morse<DELAY, PIN> {
    /// The dot length, in milliseconds.
    pub closed spec fn dot(self) -> u16 {
        self.dot_length
    }

    /// Whether the pin is driven low while a symbol is sent.
    pub closed spec fn inverted(self) -> bool {
        self.invert
    }

    /// The delay provider held.
    pub closed spec fn delay_provider(self) -> DELAY {
        self.delay
    }

    /// The output pin held.
    pub closed spec fn output_pin(self) -> PIN {
        self.pin
    }

    #[verifier::type_invariant]
    closed spec fn timing_fixed(self) -> bool {
        &&& self.dot_length <= MAX_DOT_LENGTH
        &&& self.dash_length == 3 * self.dot_length
        &&& self.space_length == 3 * self.dot_length
    }

    /// A new emitter with the given dot length in milliseconds. `invert`
    /// drives the pin low, instead of high, while a symbol is sent.
    pub fn new(delay: DELAY, pin: PIN, invert: bool, dot_length: u16) -> (r: Self)
        requires
            dot_length <= MAX_DOT_LENGTH,
        ensures
            r.dot() == dot_length,
            r.inverted() == invert,
            r.delay_provider() == delay,
            r.output_pin() == pin,
    {
        Morse {
            dot_length,
            dash_length: dot_length * 3,
            space_length: dot_length * 3,
            invert,
            delay,
            pin,
        }
    }

    /// A new emitter with a dot length of 300 ms.
    pub fn new_default(delay: DELAY, pin: PIN, invert: bool) -> (r: Self)
        ensures
            r.dot() == DEFAULT_DOT_LENGTH,
            r.inverted() == invert,
            r.delay_provider() == delay,
            r.output_pin() == pin,
    {
        Self::new(delay, pin, invert, DEFAULT_DOT_LENGTH)
    }

    /// The duration of a dot, and of the gap after each symbol.
    pub fn dot_length(&self) -> (r: u16)
        ensures
            r == self.dot(),
            r <= MAX_DOT_LENGTH,
    {
        proof {
            use_type_invariant(self);
        }
        self.dot_length
    }

    /// The duration of a dash.
    pub fn dash_length(&self) -> (r: u16)
        ensures
            r == 3 * self.dot(),
    {
        proof {
            use_type_invariant(self);
        }
        self.dash_length
    }

    /// The gap after a letter, in addition to the gap after its last symbol.
    pub fn space_length(&self) -> (r: u16)
        ensures
            r == 3 * self.dot(),
    {
        proof {
            use_type_invariant(self);
        }
        self.space_length
    }

    /// The gap that a space between words is sent as.
    pub fn word_gap(&self) -> (r: u16)
        ensures
            r == 7 * self.dot(),
    {
        proof {
            use_type_invariant(self);
        }
        self.dot_length * 7
    }

    /// Whether the pin is driven low while a symbol is sent.
    pub fn invert(&self) -> (r: bool)
        ensures
            r == self.inverted(),
    {
        self.invert
    }

    /// Appends the signal of one upper-case letter to `out`.
    fn push_letter(&self, out: &mut Vec<Action>, letter: char)
        requires
            'A' <= letter <= 'Z',
        ensures
            final(out)@ == old(out)@ + letter_signal(self.dot(), self.inverted(), letter),
    {
        let code = lookup(letter);
        let ghost syms = morse_symbols(letter);
        let ghost start = out@;
        let mut pattern: u8 = code.pattern;
        let mut k: u8 = 0;
        while k < code.length
            invariant
                k <= code.length,
                code.symbols() == syms,
                out@ == start + symbols_signal(self.dot(), self.inverted(), syms.take(k as int)),
                forall|j: nat| #[trigger]
                    bit_set(pattern as nat, j) == bit_set(code.pattern as nat, (k + j) as nat),
            decreases code.length - k,
        {
            proof {
                use_type_invariant(self);
            }
            let dash = pattern % 2 == 1;
            assert(dash == syms[k as int]) by {
                assert(bit_set(pattern as nat, 0) == dash);
                assert(bit_set(code.pattern as nat, k as nat) == syms[k as int]);
            }
            let ghost before = out@;
            out.push(Action::Drive(!self.invert));
            out.push(Action::Hold(if dash { self.dash_length } else { self.dot_length }));
            out.push(Action::Drive(self.invert));
            out.push(Action::Hold(self.dot_length));
            let ghost prev = pattern;
            pattern = pattern / 2;
            assert forall|j: nat| #[trigger]
                bit_set(pattern as nat, j) == bit_set(code.pattern as nat, (k + 1 + j) as nat) by {
                assert(bit_set(prev as nat, j + 1) == bit_set(code.pattern as nat, (k + (j + 1)) as nat));
            }
            proof {
                let taken = syms.take(k + 1);
                assert(taken.drop_last() =~= syms.take(k as int));
                assert(taken.last() == syms[k as int]);
                assert(out@ =~= before + symbol_signal(self.dot(), self.inverted(), dash));
                assert(out@ =~= start + symbols_signal(self.dot(), self.inverted(), taken));
            }
            k = k + 1;
        }
        proof {
            use_type_invariant(self);
        }
        assert(syms.take(k as int) =~= syms);
        out.push(Action::Hold(self.space_length));
    }

    /// Appends the signal of one character of a text to `out`.
    fn push_char(&self, out: &mut Vec<Action>, c: char)
        ensures
            final(out)@ == old(out)@ + char_signal(self.dot(), self.inverted(), c),
    {
        proof {
            use_type_invariant(self);
        }
        let u = to_upper(c);
        if 'A' <= u && u <= 'Z' {
            self.push_letter(out, u);
        } else if u == ' ' {
            out.push(Action::Hold(self.dot_length * 7));
        } else {
            assert(old(out)@ + char_signal(self.dot(), self.inverted(), c) =~= old(out)@);
        }
    }

    /// The signal that `text` is sent as: the pin levels and pauses, in order.
    pub fn signal(&self, text: &str) -> (r: Vec<Action>)
        ensures
            r@ == text_signal(self.dot(), self.inverted(), text@),
    {
        let mut out: Vec<Action> = Vec::new();
        for c in it: text.chars()
            invariant
                it.seq() == text@,
                out@ == text_signal(self.dot(), self.inverted(), it.seq().take(it.index())),
        {
            let ghost before = it.seq().take(it.index());
            self.push_char(&mut out, c);
            assert(it.seq().take(it.index() + 1).drop_last() =~= before);
        }
        assert(text@.take(text@.len() as int) =~= text@);
        out
    }
}

} // verus!
