//! The Morse alphabet, as a table of packed symbol codes.
use vstd::prelude::*;

verus! {

/// Whether bit `i` of `pattern` is set, counting from the least significant.
pub open spec fn bit_set(pattern: nat, i: nat) -> bool
    decreases i,
{
    if i == 0 {
        pattern % 2 == 1
    } else {
        bit_set(pattern / 2, (i - 1) as nat)
    }
}

/// The International Morse code of an upper-case letter, in the order of
/// transmission: `false` is a dot, `true` is a dash.
pub open spec fn morse_symbols(letter: char) -> Seq<bool> {
    let o = false;
    let x = true;
    match letter {
        'A' => seq![o, x],
        'B' => seq![x, o, o, o],
        'C' => seq![x, o, x, o],
        'D' => seq![x, o, o],
        'E' => seq![o],
        'F' => seq![o, o, x, o],
        'G' => seq![x, x, o],
        'H' => seq![o, o, o, o],
        'I' => seq![o, o],
        'J' => seq![o, x, x, x],
        'K' => seq![x, o, x],
        'L' => seq![o, x, o, o],
        'M' => seq![x, x],
        'N' => seq![x, o],
        'O' => seq![x, x, x],
        'P' => seq![o, x, x, o],
        'Q' => seq![x, x, o, x],
        'R' => seq![o, x, o],
        'S' => seq![o, o, o],
        'T' => seq![x],
        'U' => seq![o, o, x],
        'V' => seq![o, o, o, x],
        'W' => seq![o, x, x],
        'X' => seq![x, o, o, x],
        'Y' => seq![x, o, x, x],
        'Z' => seq![x, x, o, o],
        _ => seq![],
    }
}

/// The dots and dashes of one letter, packed into a byte.
///
/// Bit `i` of `pattern`, from the least significant, is the `i`-th symbol
/// sent: 0 for a dot, 1 for a dash. Only the lowest `length` bits are read.
#[derive(Clone, Copy, Debug, PartialEq, Eq, Structural)]
pub struct SymbolCode {
    pub length: u8,
    pub pattern: u8,
}

impl SymbolCode {
    /// The symbols this code stands for, in the order of transmission.
    pub open spec fn symbols(self) -> Seq<bool> {
        Seq::new(self.length as nat, |i: int| bit_set(self.pattern as nat, i as nat))
    }
}

/// The packed code of an upper-case letter.
///
/// Every entry follows the International Morse alphabet; `S` is sent as three
/// dots.
#[verifier::rlimit(40)]
pub fn lookup(letter: char) -> (r: SymbolCode)
    requires
        'A' <= letter <= 'Z',
    ensures
        1 <= r.length <= 4,
        r.symbols() == morse_symbols(letter),
{
    proof {
        reveal_with_fuel(bit_set, 4);
    }
    let (length, pattern): (u8, u8) = match letter {
        'A' => (2, 0b10),
        'B' => (4, 0b0001),
        'C' => (4, 0b0101),
        'D' => (3, 0b001),
        'E' => (1, 0b0),
        'F' => (4, 0b0100),
        'G' => (3, 0b011),
        'H' => (4, 0b0000),
        'I' => (2, 0b00),
        'J' => (4, 0b1110),
        'K' => (3, 0b101),
        'L' => (4, 0b0010),
        'M' => (2, 0b11),
        'N' => (2, 0b01),
        'O' => (3, 0b111),
        'P' => (4, 0b0110),
        'Q' => (4, 0b1011),
        'R' => (3, 0b010),
        'S' => (3, 0b000),
        'T' => (1, 0b1),
        'U' => (3, 0b100),
        'V' => (4, 0b1000),
        'W' => (3, 0b110),
        'X' => (4, 0b1001),
        'Y' => (4, 0b1101),
        _ => (4, 0b0011),
    };
    let r = SymbolCode { length, pattern };
    assert(r.symbols() =~= morse_symbols(letter));
    r
}

} // verus!
