//! Properties of the Morse signal that hold for every input.
use vstd::prelude::*;

use vstd::arithmetic::div_mod::lemma_mod_breakdown;
use vstd::arithmetic::power2::{pow2, lemma_pow2_pos, lemma_pow2_unfold};

use crate::emitter::{
    Action, upper, is_letter, symbol_signal, symbols_signal, letter_signal, char_signal,
    text_signal,
};
use crate::symbol::{SymbolCode, bit_set};

verus! {

/// Bit `i` of `p` is bit `i` of `p` cut to its lowest `n` bits, for `i < n`.
proof fn lemma_bit_below(p: nat, n: nat, i: nat)
    requires
        i < n,
    ensures
        bit_set(p, i) == bit_set(p % pow2(n), i),
    decreases i,
{
    lemma_pow2_unfold(n);
    lemma_pow2_pos((n - 1) as nat);
    let m = pow2((n - 1) as nat);
    lemma_mod_breakdown(p as int, 2, m as int);
    let r = (p / 2) % m;
    assert(p % pow2(n) == 2 * r + p % 2);
    assert((p % pow2(n)) % 2 == p % 2);
    assert((p % pow2(n)) / 2 == r);
    if i > 0 {
        lemma_bit_below(p / 2, (n - 1) as nat, (i - 1) as nat);
    }
}

/// Only the lowest `length` bits of a code's pattern are sent: two codes of
/// one length whose patterns agree on those bits stand for the same symbols.
pub proof fn lemma_high_bits_ignored(a: SymbolCode, b: SymbolCode)
    requires
        a.length == b.length,
        a.pattern as nat % pow2(a.length as nat) == b.pattern as nat % pow2(b.length as nat),
    ensures
        a.symbols() == b.symbols(),
{
    assert forall|i: int| 0 <= i < a.length implies #[trigger] a.symbols()[i] == b.symbols()[i] by {
        lemma_bit_below(a.pattern as nat, a.length as nat, i as nat);
        lemma_bit_below(b.pattern as nat, b.length as nat, i as nat);
    }
    assert(a.symbols() =~= b.symbols());
}

/// The signal of two texts written one after the other is the signal of the
/// first followed by that of the second.
pub proof fn lemma_text_concat(dot: u16, invert: bool, s: Seq<char>, t: Seq<char>)
    ensures
        text_signal(dot, invert, s + t) == text_signal(dot, invert, s) + text_signal(
            dot,
            invert,
            t,
        ),
    decreases t.len(),
{
    if t.len() == 0 {
        assert(s + t =~= s);
        assert(text_signal(dot, invert, s) + text_signal(dot, invert, t) =~= text_signal(
            dot,
            invert,
            s,
        ));
    } else {
        assert((s + t).drop_last() =~= s + t.drop_last());
        assert((s + t).last() == t.last());
        lemma_text_concat(dot, invert, s, t.drop_last());
        assert(text_signal(dot, invert, s + t) =~= text_signal(dot, invert, s) + text_signal(
            dot,
            invert,
            t,
        ));
    }
}

/// A character that is neither a letter nor a space adds nothing to the
/// signal: the characters around it are sent as if it were not there.
pub proof fn lemma_unsupported_skipped(dot: u16, invert: bool, s: Seq<char>, c: char, t: Seq<char>)
    requires
        !is_letter(c),
        upper(c) != ' ',
    ensures
        text_signal(dot, invert, s.push(c) + t) == text_signal(dot, invert, s + t),
{
    lemma_text_concat(dot, invert, s.push(c), t);
    lemma_text_concat(dot, invert, s, t);
    assert(s.push(c).drop_last() =~= s);
    assert(char_signal(dot, invert, c) =~= Seq::<Action>::empty());
    assert(text_signal(dot, invert, s.push(c)) =~= text_signal(dot, invert, s));
}

/// Two texts that differ only in the case of their letters are sent alike.
pub proof fn lemma_case_insensitive(dot: u16, invert: bool, s: Seq<char>, t: Seq<char>)
    requires
        s.len() == t.len(),
        forall|i: int| 0 <= i < s.len() ==> upper(#[trigger] s[i]) == upper(t[i]),
    ensures
        text_signal(dot, invert, s) == text_signal(dot, invert, t),
    decreases s.len(),
{
    if s.len() > 0 {
        let (ps, pt) = (s.drop_last(), t.drop_last());
        assert forall|i: int| 0 <= i < ps.len() implies upper(#[trigger] ps[i]) == upper(pt[i]) by {
            assert(ps[i] == s[i] && pt[i] == t[i]);
        }
        lemma_case_insensitive(dot, invert, ps, pt);
        assert(upper(s.last()) == upper(t.last()));
    }
}

/// The same steps with every pin level turned over; pauses are kept.
pub open spec fn flip_levels(a: Seq<Action>) -> Seq<Action> {
    a.map_values(
        |x: Action|
            match x {
                Action::Drive(high) => Action::Drive(!high),
                Action::Hold(ms) => Action::Hold(ms),
            },
    )
}

proof fn lemma_flip_concat(a: Seq<Action>, b: Seq<Action>)
    ensures
        flip_levels(a + b) == flip_levels(a) + flip_levels(b),
{
    assert(flip_levels(a + b) =~= flip_levels(a) + flip_levels(b));
}

proof fn lemma_symbols_inverted(dot: u16, invert: bool, syms: Seq<bool>)
    ensures
        symbols_signal(dot, !invert, syms) == flip_levels(symbols_signal(dot, invert, syms)),
    decreases syms.len(),
{
    if syms.len() == 0 {
        assert(flip_levels(Seq::<Action>::empty()) =~= Seq::<Action>::empty());
    } else {
        lemma_symbols_inverted(dot, invert, syms.drop_last());
        lemma_flip_concat(
            symbols_signal(dot, invert, syms.drop_last()),
            symbol_signal(dot, invert, syms.last()),
        );
        assert(symbol_signal(dot, !invert, syms.last()) =~= flip_levels(
            symbol_signal(dot, invert, syms.last()),
        ));
    }
}

proof fn lemma_char_inverted(dot: u16, invert: bool, c: char)
    ensures
        char_signal(dot, !invert, c) == flip_levels(char_signal(dot, invert, c)),
{
    if is_letter(c) {
        let syms = crate::symbol::morse_symbols(upper(c));
        lemma_symbols_inverted(dot, invert, syms);
        assert(letter_signal(dot, !invert, upper(c)) =~= flip_levels(
            letter_signal(dot, invert, upper(c)),
        ));
    } else {
        assert(char_signal(dot, !invert, c) =~= flip_levels(char_signal(dot, invert, c)));
    }
}

/// Inverting the output turns over every pin level of a text's signal and
/// keeps every pause as it is.
pub proof fn lemma_invert_flips_levels(dot: u16, invert: bool, s: Seq<char>)
    ensures
        text_signal(dot, !invert, s) == flip_levels(text_signal(dot, invert, s)),
    decreases s.len(),
{
    if s.len() == 0 {
        assert(flip_levels(Seq::<Action>::empty()) =~= Seq::<Action>::empty());
    } else {
        lemma_invert_flips_levels(dot, invert, s.drop_last());
        lemma_char_inverted(dot, invert, s.last());
        lemma_flip_concat(
            text_signal(dot, invert, s.drop_last()),
            char_signal(dot, invert, s.last()),
        );
    }
}

} // verus!
