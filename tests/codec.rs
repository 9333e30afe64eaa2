use morse_tui::decoder::{decode, parse_raw, UNKNOWN};
use morse_tui::encoder::{encode, encode_upper, unsupported_chars, unsupported_in_upper};
use morse_tui::symbol::MorseCode;
use morse_tui::symbol::Symbol::{self, Dash, Dot, LetterSpace, WordSpace};
use morse_tui::table::{lookup_char, lookup_code};

const ALPHABET: &str = "ABCDEFGHIJKLMNOPQRSTUVWXYZ0123456789.,?/=";

fn morse(code: Vec<Symbol>) -> MorseCode {
    MorseCode { code }
}

#[test]
fn every_table_character_round_trips() {
    for c in ALPHABET.chars() {
        let encoded = encode(c.to_string());
        assert!(!encoded.code.is_empty());
        assert_eq!(decode(encoded), c.to_string());
    }
}

#[test]
fn lowercase_letters_round_trip_to_uppercase() {
    for c in "abcdefghijklmnopqrstuvwxyz".chars() {
        assert_eq!(decode(encode(c.to_string())), c.to_uppercase().to_string());
    }
}

#[test]
fn words_round_trip_to_uppercase() {
    for w in ["hello", "Morse", "abc123", "what?", "a/b=c", "x.y,z"] {
        assert_eq!(decode(encode(w.to_string())), w.to_uppercase());
    }
}

#[test]
fn empty_input_and_empty_sequence() {
    assert!(encode(String::new()).code.is_empty());
    assert_eq!(decode(MorseCode::new()), "");
}

#[test]
fn whitespace_only_gives_nothing() {
    assert!(encode("   \t \n ".to_string()).code.is_empty());
}

#[test]
fn display_form_reads_back() {
    for text in ["SOS", "hi there", "  a  b   c ", "A!B", "12 ?", "", "!!"] {
        let encoded = encode(text.to_string());
        let shown = encoded.to_display_string();
        assert_eq!(parse_raw(&shown), encoded);
    }
}

#[test]
fn two_spaces_are_a_letter_gap() {
    assert_eq!(parse_raw(".  -").code, vec![Dot, LetterSpace, Dash]);
}

#[test]
fn three_spaces_are_a_word_gap() {
    assert_eq!(parse_raw(".   -").code, vec![Dot, WordSpace, Dash]);
}

#[test]
fn one_space_is_a_letter_gap() {
    assert_eq!(parse_raw(". -").code, vec![Dot, LetterSpace, Dash]);
}

#[test]
fn four_spaces_give_one_word_gap() {
    assert_eq!(parse_raw(".    -").code, vec![Dot, WordSpace, Dash]);
    assert_eq!(decode(parse_raw(".-    -...")), "A B");
}

#[test]
fn long_space_runs_give_one_word_gap() {
    assert_eq!(parse_raw(".       -").code, vec![Dot, WordSpace, Dash]);
    assert_eq!(parse_raw(".  x  -").code, vec![Dot, WordSpace, Dash]);
}

#[test]
fn parsing_is_stable_on_its_own_display() {
    for text in [".    -", " .-  -..   ... -       ---   ", "...", "- - -    ."] {
        let parsed = parse_raw(text);
        assert_eq!(parse_raw(&parsed.to_display_string()), parsed);
    }
}

#[test]
fn parsed_separators_stand_between_tones() {
    for text in ["  .  -    -   .  ", "          ", ". . .     ", "x-y z.     -"] {
        let code = parse_raw(text).code;
        for (i, s) in code.iter().enumerate() {
            if *s == LetterSpace || *s == WordSpace {
                assert!(i > 0 && i + 1 < code.len());
                assert!(matches!(code[i - 1], Dot | Dash));
                assert!(matches!(code[i + 1], Dot | Dash));
            }
        }
    }
}

#[test]
fn encode_upper_does_not_fold_case() {
    assert_eq!(encode_upper("SOS").code, vec![Dot, Dot, Dot, LetterSpace, Dash, Dash, Dash, LetterSpace, Dot, Dot, Dot]);
    assert_eq!(encode_upper("E T").code, vec![Dot, WordSpace, Dash]);
    assert!(encode_upper("sos").code.is_empty());
    assert_eq!(unsupported_in_upper("sO!"), vec!['s', '!']);
}

#[test]
fn other_characters_are_ignored_when_reading() {
    assert_eq!(parse_raw(".x- ab-").code, vec![Dot, Dash, LetterSpace, Dash]);
    assert_eq!(parse_raw(". x -").code, vec![Dot, LetterSpace, Dash]);
}

#[test]
fn separators_at_the_ends_are_dropped() {
    assert_eq!(parse_raw("  ... ").code, vec![Dot, Dot, Dot]);
    assert_eq!(parse_raw("     ---    ").code, vec![Dash, Dash, Dash]);
    assert!(parse_raw("    ").code.is_empty());
    assert!(parse_raw("").code.is_empty());
}

#[test]
fn unknown_pattern_gives_placeholder() {
    let six_dashes = morse(vec![Dash, Dash, Dash, Dash, Dash, Dash, LetterSpace]);
    assert_eq!(decode(six_dashes), UNKNOWN.to_string());
    assert_eq!(UNKNOWN, '?');
}

#[test]
fn unknown_pattern_at_the_end_gives_placeholder() {
    assert_eq!(decode(morse(vec![Dot, Dot, Dot, Dot, Dot, Dot, Dot])), "?");
    assert_eq!(decode(morse(vec![Dot, WordSpace, Dash, Dash, Dash, Dash, Dash, Dash])), "E ?");
}

#[test]
fn letter_gap_on_empty_pattern_gives_placeholder() {
    assert_eq!(decode(morse(vec![LetterSpace, Dot])), "?E");
    assert_eq!(decode(morse(vec![Dot, LetterSpace, LetterSpace, Dot])), "E?E");
}

#[test]
fn word_gap_on_empty_pattern_gives_only_a_space() {
    assert_eq!(decode(morse(vec![WordSpace, Dot])), " E");
    assert_eq!(decode(morse(vec![Dot, WordSpace, WordSpace, Dash])), "E  T");
}

#[test]
fn sos_example() {
    let expected = vec![Dot, Dot, Dot, LetterSpace, Dash, Dash, Dash, LetterSpace, Dot, Dot, Dot];
    let encoded = encode("SOS".to_string());
    assert_eq!(encoded.code, expected);
    assert_eq!(encoded.to_display_string(), "... --- ...");
    assert_eq!(decode(encoded), "SOS");
}

#[test]
fn hi_there_example() {
    let encoded = encode("HI THERE".to_string());
    let gaps: Vec<usize> =
        encoded.code.iter().enumerate().filter(|(_, s)| **s == WordSpace).map(|(i, _)| i).collect();
    assert_eq!(gaps.len(), 1);
    let g = gaps[0];
    assert_eq!(&encoded.code[..g], &[Dot, Dot, Dot, Dot, LetterSpace, Dot, Dot][..]);
    assert_eq!(encoded.code[g + 1], Dash);
    assert_ne!(encoded.code[g - 1], LetterSpace);
    assert_ne!(encoded.code[g + 1], LetterSpace);
    assert_eq!(encoded.to_display_string(), ".... ..   - .... . .-. .");
    assert_eq!(decode(encoded), "HI THERE");
}

#[test]
fn unsupported_characters_are_skipped_without_gaps() {
    assert_eq!(encode("A!B".to_string()).code, vec![Dot, Dash, LetterSpace, Dash, Dot, Dot, Dot]);
    assert_eq!(encode("A ! B".to_string()).code, vec![Dot, Dash, WordSpace, Dash, Dot, Dot, Dot]);
    assert_eq!(encode("!A".to_string()).code, vec![Dot, Dash]);
    assert!(encode("#$%".to_string()).code.is_empty());
}

#[test]
fn whitespace_runs_give_one_word_gap() {
    assert_eq!(encode(" E \t\n  T  ".to_string()).code, vec![Dot, WordSpace, Dash]);
}

#[test]
fn lowercase_encodes_as_uppercase() {
    assert_eq!(encode("sos".to_string()), encode("SOS".to_string()));
}

#[test]
fn case_folding_can_lengthen_text() {
    // 'ß' uppercases to "SS"
    assert_eq!(encode("\u{df}".to_string()), encode("SS".to_string()));
}

#[test]
fn display_string_of_each_symbol() {
    let m = morse(vec![Dot, Dash, LetterSpace, Dot, WordSpace, Dash]);
    assert_eq!(m.to_display_string(), ".- .   -");
    assert_eq!(MorseCode::new().to_display_string(), "");
}

#[test]
fn push_appends_a_symbol() {
    let mut m = MorseCode::new();
    m.push(Dot);
    m.push(WordSpace);
    assert_eq!(m.code, vec![Dot, WordSpace]);
}

#[test]
fn table_lookups() {
    assert_eq!(lookup_code('A'), Some(vec![Dot, Dash]));
    assert_eq!(lookup_code('='), Some(vec![Dash, Dot, Dot, Dot, Dash]));
    assert_eq!(lookup_code('a'), None);
    assert_eq!(lookup_code(' '), None);
    assert_eq!(lookup_char(&vec![Dash, Dash, Dot, Dot, Dash, Dash]), Some(','));
    assert_eq!(lookup_char(&vec![]), None);
    assert_eq!(lookup_char(&vec![Dot, Dot, Dot, Dot, Dot, Dot]), None);
}

#[test]
fn table_is_injective() {
    let mut seen: Vec<Vec<Symbol>> = Vec::new();
    for c in ALPHABET.chars() {
        let code = lookup_code(c).unwrap();
        assert!(!seen.contains(&code));
        assert_eq!(lookup_char(&code), Some(c));
        seen.push(code);
    }
}

#[test]
fn unsupported_characters_are_reported() {
    assert_eq!(unsupported_chars("a!b #c"), vec!['!', '#']);
    assert_eq!(unsupported_chars("sos 12"), Vec::<char>::new());
    assert_eq!(unsupported_chars(""), Vec::<char>::new());
    assert_eq!(unsupported_chars("\u{e9}"), vec!['\u{c9}']);
}
