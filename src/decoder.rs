//! Morse symbols, or Morse typed as text, back to text.
use vstd::prelude::*;

use crate::symbol::{well_separated, MorseCode, Symbol};
use crate::table::{char_of, lemma_no_empty_pattern, lookup_char};
use crate::text::push_char;

verus! {

/// What stands in the output for a tone pattern that the table lacks.
pub const UNKNOWN: char = '?';

/// The tones after the last separator of `s`.
pub open spec fn pending(s: Seq<Symbol>) -> Seq<Symbol>
    decreases s.len(),
{
    if s.len() == 0 {
        seq![]
    } else if s.last().is_tone() {
        pending(s.drop_last()).push(s.last())
    } else {
        seq![]
    }
}

/// The text for one tone pattern: its character, or the placeholder.
pub open spec fn letter_text(tones: Seq<Symbol>) -> Seq<char> {
    match char_of(tones) {
        Some(c) => seq![c],
        None => seq![UNKNOWN],
    }
}

/// As `letter_text`, but nothing for an empty pattern.
pub open spec fn flush_text(tones: Seq<Symbol>) -> Seq<char> {
    if tones.len() == 0 {
        seq![]
    } else {
        letter_text(tones)
    }
}

/// The text produced by the separators of `s`: a `LetterSpace` resolves the
/// pattern before it, a `WordSpace` resolves a non-empty pattern and adds a space.
pub open spec fn decoded_before(s: Seq<Symbol>) -> Seq<char>
    decreases s.len(),
{
    if s.len() == 0 {
        seq![]
    } else {
        let p = s.drop_last();
        match s.last() {
            Symbol::LetterSpace => decoded_before(p) + letter_text(pending(p)),
            Symbol::WordSpace => decoded_before(p) + flush_text(pending(p)) + seq![' '],
            _ => decoded_before(p),
        }
    }
}

/// The text that `s` decodes to.
pub open spec fn decode_symbols(s: Seq<Symbol>) -> Seq<char> {
    decoded_before(s) + flush_text(pending(s))
}

/// One step of reading typed Morse: the symbols so far and the length of the
/// current run of spaces, updated by character `c`. The first space of a run
/// adds a `LetterSpace`; the third replaces it by a `WordSpace`; the second and
/// any after the third change nothing.
pub open spec fn scan_step(st: (Seq<Symbol>, nat), c: char) -> (Seq<Symbol>, nat) {
    let (out, run) = st;
    if c == '.' {
        (out.push(Symbol::Dot), 0)
    } else if c == '-' {
        (out.push(Symbol::Dash), 0)
    } else if c == ' ' {
        if run + 1 == 1 {
            (out.push(Symbol::LetterSpace), 1)
        } else if run + 1 == 3 {
            let kept = if out.len() > 0 && out.last() == Symbol::LetterSpace {
                out.drop_last()
            } else {
                out
            };
            (kept.push(Symbol::WordSpace), run + 1)
        } else {
            (out, run + 1)
        }
    } else {
        st
    }
}

/// The state after reading all of `text`, from state `st`.
pub open spec fn scan_from(st: (Seq<Symbol>, nat), text: Seq<char>) -> (Seq<Symbol>, nat)
    decreases text.len(),
{
    if text.len() == 0 {
        st
    } else {
        scan_step(scan_from(st, text.drop_last()), text.last())
    }
}

/// The smaller of `a` and `b`.
spec fn min_nat(a: nat, b: nat) -> nat {
    if a < b {
        a
    } else {
        b
    }
}

/// The symbols read from typed Morse, before the ends are trimmed.
pub open spec fn scan(text: Seq<char>) -> Seq<Symbol> {
    scan_from((seq![], 0), text).0
}

/// `s` without its leading separators.
pub open spec fn trim_front(s: Seq<Symbol>) -> Seq<Symbol>
    decreases s.len(),
{
    if s.len() > 0 && !s[0].is_tone() {
        trim_front(s.drop_first())
    } else {
        s
    }
}

/// `s` without its trailing separators.
pub open spec fn trim_back(s: Seq<Symbol>) -> Seq<Symbol>
    decreases s.len(),
{
    if s.len() > 0 && !s.last().is_tone() {
        trim_back(s.drop_last())
    } else {
        s
    }
}

/// The symbol sequence that typed Morse stands for.
pub open spec fn parse_raw_spec(text: Seq<char>) -> Seq<Symbol> {
    trim_back(trim_front(scan(text)))
}

/// No two separators stand side by side in `s`.
pub open spec fn no_adjacent_separators(s: Seq<Symbol>) -> bool {
    forall|i: int| 0 <= i < s.len() - 1 ==> (#[trigger] s[i]).is_tone() || s[i + 1].is_tone()
}

/// What holds of every state reached while reading typed Morse.
spec fn scan_inv(st: (Seq<Symbol>, nat)) -> bool {
    let (out, run) = st;
    &&& no_adjacent_separators(out)
    &&& run == 0 ==> out.len() == 0 || out.last().is_tone()
    &&& run >= 1 ==> out.len() > 0 && !out.last().is_tone()
    &&& (run == 1 || run == 2) ==> out.last() == Symbol::LetterSpace
}

proof fn lemma_scan_inv(text: Seq<char>)
    ensures
        scan_inv(scan_from((seq![], 0), text)),
    decreases text.len(),
{
    if text.len() > 0 {
        lemma_scan_inv(text.drop_last());
        let st = scan_from((seq![], 0), text.drop_last());
        let (out, run) = st;
        let c = text.last();
        let next = scan_step(st, c);
        if c == '.' || c == '-' || (c == ' ' && run == 0) {
            let x = next.0.last();
            assert(next.0 == out.push(x));
            assert forall|i: int| 0 <= i < next.0.len() - 1 implies (#[trigger] next.0[i]).is_tone()
                || next.0[i + 1].is_tone() by {
                assert(next.0[i] == out[i]);
                if i + 1 < out.len() {
                    assert(next.0[i + 1] == out[i + 1]);
                }
            }
        } else if c == ' ' && run == 2 {
            let kept = out.drop_last();
            assert(next.0 == kept.push(Symbol::WordSpace));
            if kept.len() > 0 {
                assert(out[out.len() - 2].is_tone());
                assert(kept.last() == out[out.len() - 2]);
            }
            assert forall|i: int| 0 <= i < next.0.len() - 1 implies (#[trigger] next.0[i]).is_tone()
                || next.0[i + 1].is_tone() by {
                assert(next.0[i] == out[i]);
                if i + 1 < kept.len() {
                    assert(next.0[i + 1] == out[i + 1]);
                }
            }
        }
    }
}

proof fn lemma_trim_front_shape(s: Seq<Symbol>)
    requires
        no_adjacent_separators(s),
    ensures
        no_adjacent_separators(trim_front(s)),
        trim_front(s).len() > 0 ==> trim_front(s)[0].is_tone(),
    decreases s.len(),
{
    if s.len() > 0 && !s[0].is_tone() {
        let d = s.drop_first();
        assert forall|i: int| 0 <= i < d.len() - 1 implies (#[trigger] d[i]).is_tone()
            || d[i + 1].is_tone() by {
            assert(d[i] == s[i + 1]);
            assert(d[i + 1] == s[i + 2]);
        }
        lemma_trim_front_shape(d);
    }
}

proof fn lemma_trim_back_shape(s: Seq<Symbol>)
    requires
        no_adjacent_separators(s),
        s.len() > 0 ==> s[0].is_tone(),
    ensures
        well_separated(trim_back(s)),
    decreases s.len(),
{
    if s.len() > 0 && !s.last().is_tone() {
        let d = s.drop_last();
        assert forall|i: int| 0 <= i < d.len() - 1 implies (#[trigger] d[i]).is_tone()
            || d[i + 1].is_tone() by {
            assert(d[i] == s[i]);
            assert(d[i + 1] == s[i + 1]);
        }
        if d.len() > 0 {
            assert(d[0] == s[0]);
        }
        lemma_trim_back_shape(d);
    } else {
        assert forall|i: int| 0 <= i < s.len() && !(#[trigger] s[i]).is_tone() implies 0 < i && i
            + 1 < s.len() && s[i - 1].is_tone() && s[i + 1].is_tone() by {
            assert(s[i - 1].is_tone() || s[i].is_tone());
        }
    }
}

/// Every separator read from typed Morse stands between two tones.
pub proof fn lemma_parse_raw_separated(text: Seq<char>)
    ensures
        well_separated(parse_raw_spec(text)),
{
    lemma_scan_inv(text);
    lemma_trim_front_shape(scan(text));
    lemma_trim_back_shape(trim_front(scan(text)));
}

/// Appends the text for a completed tone pattern; an empty pattern gives the
/// placeholder only when `placeholder_when_empty` holds.
fn push_letter(out: &mut String, tones: &Vec<Symbol>, placeholder_when_empty: bool)
    ensures
        placeholder_when_empty ==> final(out)@ == old(out)@ + letter_text(tones@),
        !placeholder_when_empty ==> final(out)@ == old(out)@ + flush_text(tones@),
{
    proof {
        lemma_no_empty_pattern();
    }
    match lookup_char(tones) {
        Some(c) => {
            push_char(out, c);
            assert(final(out)@ =~= old(out)@ + seq![c]);
        },
        None => {
            if placeholder_when_empty || tones.len() > 0 {
                push_char(out, UNKNOWN);
                assert(final(out)@ =~= old(out)@ + seq![UNKNOWN]);
            } else {
                assert(final(out)@ =~= old(out)@ + seq![]);
            }
        },
    }
}

/// Decodes Morse symbols to text. Each `LetterSpace` ends a letter, each
/// `WordSpace` ends a letter and a word; a pattern outside the table becomes
/// the placeholder.
pub fn decode(input: MorseCode) -> (r: String)
    ensures
        r@ == decode_symbols(input@),
{
    let mut decoded_string = String::new();
    let mut current: Vec<Symbol> = Vec::new();
    let n = input.code.len();
    let mut i: usize = 0;
    while i < n
        invariant
            n == input@.len(),
            i <= n,
            decoded_string@ == decoded_before(input@.take(i as int)),
            current@ == pending(input@.take(i as int)),
        decreases n - i,
    {
        let symbol = input.code[i];
        assert(input@.take(i + 1).drop_last() =~= input@.take(i as int));
        match symbol {
            Symbol::Dot | Symbol::Dash => {
                current.push(symbol);
            },
            Symbol::LetterSpace => {
                push_letter(&mut decoded_string, &current, true);
                current = Vec::new();
            },
            Symbol::WordSpace => {
                push_letter(&mut decoded_string, &current, false);
                push_char(&mut decoded_string, ' ');
                current = Vec::new();
            },
        }
        i = i + 1;
    }
    assert(input@.take(n as int) =~= input@);
    push_letter(&mut decoded_string, &current, false);
    decoded_string
}

/// `s[a..b]` as a new vector.
fn copy_range(s: &Vec<Symbol>, a: usize, b: usize) -> (r: Vec<Symbol>)
    requires
        a <= b <= s@.len(),
    ensures
        r@ == s@.subrange(a as int, b as int),
{
    let mut r: Vec<Symbol> = Vec::new();
    let mut i: usize = a;
    while i < b
        invariant
            a <= i <= b <= s@.len(),
            r@ == s@.subrange(a as int, i as int),
        decreases b - i,
    {
        r.push(s[i]);
        assert(s@.subrange(a as int, i + 1) =~= s@.subrange(a as int, i as int).push(s@[i as int]));
        i = i + 1;
    }
    r
}

/// `s` without the separators at either end.
fn trim_separators(s: &Vec<Symbol>) -> (r: Vec<Symbol>)
    ensures
        r@ == trim_back(trim_front(s@)),
{
    let n = s.len();
    let mut a: usize = 0;
    assert(s@.subrange(0, n as int) =~= s@);
    while a < n && !matches!(s[a], Symbol::Dot | Symbol::Dash)
        invariant
            n == s@.len(),
            a <= n,
            trim_front(s@) == trim_front(s@.subrange(a as int, n as int)),
        decreases n - a,
    {
        assert(s@.subrange(a as int, n as int).drop_first() =~= s@.subrange(a + 1, n as int));
        a = a + 1;
    }
    let ghost front = s@.subrange(a as int, n as int);
    assert(trim_front(front) == front);
    let mut b: usize = n;
    while b > a && !matches!(s[b - 1], Symbol::Dot | Symbol::Dash)
        invariant
            n == s@.len(),
            a <= b <= n,
            trim_back(front) == trim_back(s@.subrange(a as int, b as int)),
        decreases b - a,
    {
        assert(s@.subrange(a as int, b as int).drop_last() =~= s@.subrange(a as int, b - 1));
        b = b - 1;
    }
    copy_range(s, a, b)
}

/// Reads Morse typed as text: `.` and `-` are tones; one or two spaces in a
/// row give a `LetterSpace`, and the third space of a run turns it into a
/// single `WordSpace`, whatever the length of the run; other characters are
/// ignored. Separators at either end are dropped.
pub fn parse_raw(text: &str) -> (r: MorseCode)
    ensures
        r@ == parse_raw_spec(text@),
        well_separated(r@),
{
    let mut morse = MorseCode::new();
    // the current run of spaces, counted up to four
    let mut run: usize = 0;
    for ch in it: text.chars()
        invariant
            it.seq() == text@,
            scan_from((seq![], 0), text@.take(it.index() as int)).0 == morse@,
            run as nat == min_nat(scan_from((seq![], 0), text@.take(it.index() as int)).1, 4),
    {
        assert(text@.take(it.index() + 1).drop_last() =~= text@.take(it.index() as int));
        assert(text@.take(it.index() + 1).last() == ch);
        if ch == '.' {
            morse.push(Symbol::Dot);
            run = 0;
        } else if ch == '-' {
            morse.push(Symbol::Dash);
            run = 0;
        } else if ch == ' ' {
            if run < 4 {
                run = run + 1;
            }
            if run == 1 {
                morse.push(Symbol::LetterSpace);
            } else if run == 3 {
                let len = morse.code.len();
                if len > 0 && morse.code[len - 1] == Symbol::LetterSpace {
                    morse.code.pop();
                }
                morse.push(Symbol::WordSpace);
            }
        }
    }
    assert(text@.take(text@.len() as int) =~= text@);
    proof {
        lemma_parse_raw_separated(text@);
    }
    MorseCode { code: trim_separators(&morse.code) }
}

} // verus!
