use morse::emitter::to_upper;
use morse::{lookup, Action, Morse, Outcome, SymbolCode, Transmission};

fn signal(invert: bool, dot: u16, text: &str) -> Vec<Action> {
    Morse::new((), (), invert, dot).signal(text)
}

fn code_text(code: SymbolCode) -> String {
    let mut s = String::new();
    for i in 0..code.length {
        s.push(if (code.pattern >> i) & 1 == 1 { '-' } else { '.' });
    }
    s
}

fn symbol(invert: bool, dot: u16, dash: bool) -> Vec<Action> {
    vec![
        Action::Drive(!invert),
        Action::Hold(if dash { 3 * dot } else { dot }),
        Action::Drive(invert),
        Action::Hold(dot),
    ]
}

#[test]
fn every_letter_has_one_to_four_symbols() {
    for b in b'A'..=b'Z' {
        let code = lookup(b as char);
        assert!(code.length >= 1 && code.length <= 4, "letter {}", b as char);
    }
}

#[test]
fn table_follows_the_morse_alphabet() {
    let expected = [
        ".-", "-...", "-.-.", "-..", ".", "..-.", "--.", "....", "..", ".---", "-.-", ".-..",
        "--", "-.", "---", ".--.", "--.-", ".-.", "...", "-", "..-", "...-", ".--", "-..-",
        "-.--", "--..",
    ];
    for (i, want) in expected.iter().enumerate() {
        let letter = (b'A' + i as u8) as char;
        assert_eq!(code_text(lookup(letter)), *want, "letter {}", letter);
    }
}

#[test]
fn s_and_o_differ() {
    assert_eq!(code_text(lookup('S')), "...");
    assert_eq!(code_text(lookup('O')), "---");
    assert_ne!(signal(false, 10, "S"), signal(false, 10, "O"));
}

#[test]
fn new_default_uses_three_hundred_ms() {
    let a = Morse::new_default((), (), false);
    let b = Morse::new((), (), false, 300);
    assert_eq!(a.dot_length(), b.dot_length());
    assert_eq!(a.dash_length(), b.dash_length());
    assert_eq!(a.space_length(), b.space_length());
    assert_eq!(a.word_gap(), b.word_gap());
    assert_eq!(a.dot_length(), 300);
    assert_eq!(a.signal("Hello World"), b.signal("Hello World"));
    assert!(Morse::new_default((), (), true).invert());
}

#[test]
fn timings_are_fixed_multiples_of_the_dot() {
    for dot in [0u16, 1, 7, 300, 1000, 9362] {
        let m = Morse::new((), (), false, dot);
        assert_eq!(m.dot_length(), dot);
        assert_eq!(m.dash_length() as u32, 3 * dot as u32);
        assert_eq!(m.space_length() as u32, 3 * dot as u32);
        assert_eq!(m.word_gap() as u32, 7 * dot as u32);
    }
    assert_eq!(Morse::new((), (), false, 9362).word_gap(), 65534);
}

#[test]
fn empty_text_does_nothing() {
    assert!(signal(false, 300, "").is_empty());
    assert!(signal(true, 5, "").is_empty());
}

#[test]
fn space_is_one_word_gap() {
    assert_eq!(signal(false, 300, " "), vec![Action::Hold(2100)]);
    assert_eq!(signal(true, 10, " "), vec![Action::Hold(70)]);
}

#[test]
fn letter_e_is_one_dot_and_a_letter_gap() {
    assert_eq!(
        signal(false, 300, "E"),
        vec![
            Action::Drive(true),
            Action::Hold(300),
            Action::Drive(false),
            Action::Hold(300),
            Action::Hold(900),
        ]
    );
}

#[test]
fn letter_a_is_dot_then_dash() {
    let mut want = symbol(false, 20, false);
    want.extend(symbol(false, 20, true));
    want.push(Action::Hold(60));
    assert_eq!(signal(false, 20, "A"), want);
}

#[test]
fn invert_turns_levels_over_and_keeps_pauses() {
    let plain = signal(false, 300, "A");
    let inverted = signal(true, 300, "A");
    assert_eq!(plain.len(), inverted.len());
    assert_eq!(inverted[0], Action::Drive(false));
    assert_eq!(inverted[2], Action::Drive(true));
    for (p, q) in plain.iter().zip(inverted.iter()) {
        match (p, q) {
            (Action::Drive(a), Action::Drive(b)) => assert_eq!(*a, !*b),
            (Action::Hold(a), Action::Hold(b)) => assert_eq!(a, b),
            _ => panic!("steps differ in kind"),
        }
    }
}

#[test]
fn letter_case_does_not_matter() {
    assert_eq!(signal(false, 300, "Sos"), signal(false, 300, "SOS"));
    assert_eq!(signal(true, 50, "hello world"), signal(true, 50, "HELLO WORLD"));
}

#[test]
fn unsupported_characters_are_skipped() {
    assert_eq!(signal(false, 100, "E1!E"), signal(false, 100, "EE"));
    assert_eq!(signal(false, 100, "E\u{e9}\nE"), signal(false, 100, "EE"));
    assert!(signal(false, 100, "0123456789.,?").is_empty());
}

#[test]
fn text_signal_is_concatenation_of_characters() {
    let mut want = signal(false, 10, "S");
    want.extend(signal(false, 10, " "));
    want.extend(signal(false, 10, "T"));
    assert_eq!(signal(false, 10, "S T"), want);
    assert_eq!(want.len(), 3 * 4 + 1 + 1 + 4 + 1);
}

#[test]
fn to_upper_changes_only_ascii_lower_case() {
    assert_eq!(to_upper('a'), 'A');
    assert_eq!(to_upper('z'), 'Z');
    assert_eq!(to_upper('Q'), 'Q');
    assert_eq!(to_upper('1'), '1');
    assert_eq!(to_upper(' '), ' ');
    assert_eq!(to_upper('\u{e9}'), '\u{e9}');
}

#[test]
fn transmission_hands_out_every_step_in_order() {
    let steps = signal(false, 10, "ET");
    let mut t = Transmission::new(steps.clone());
    let mut got = Vec::new();
    while let Some(step) = t.advance(Outcome::Done) {
        got.push(step);
    }
    assert_eq!(got, steps);
    assert_eq!(t.advance(Outcome::Done), None);
}

#[test]
fn pin_failure_stops_the_transmission() {
    let steps = signal(false, 10, "EE");
    let mut t = Transmission::new(steps.clone());
    assert_eq!(t.advance(Outcome::Done), Some(steps[0]));
    assert_eq!(t.advance(Outcome::Done), Some(steps[1]));
    assert_eq!(t.advance(Outcome::Done), Some(steps[2]));
    assert_eq!(t.advance(Outcome::PinFailed), None);
    assert_eq!(t.advance(Outcome::Done), None);
    assert_eq!(t.advance(Outcome::Done), None);
}

#[test]
fn empty_transmission_ends_at_once() {
    let mut t = Transmission::new(Vec::new());
    assert_eq!(t.advance(Outcome::Done), None);
}
