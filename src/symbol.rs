//! The primitive Morse symbols and sequences of them.
use vstd::prelude::*;

use crate::text::push_char;

verus! {

/// One primitive Morse token: a tone (`Dot`, `Dash`) or a separator.
#[derive(Debug, PartialEq, Eq, Structural, Clone, Copy, Hash)]
pub enum Symbol {
    Dot,
    Dash,
    LetterSpace,
    WordSpace,
}

impl Symbol {
    pub open spec fn is_tone(self) -> bool {
        self is Dot || self is Dash
    }
}

/// How one symbol is displayed.
pub open spec fn symbol_text(s: Symbol) -> Seq<char> {
    match s {
        Symbol::Dot => seq!['.'],
        Symbol::Dash => seq!['-'],
        Symbol::LetterSpace => seq![' '],
        Symbol::WordSpace => seq![' ', ' ', ' '],
    }
}

/// The display text of a symbol sequence: the symbols' texts one after another.
pub open spec fn render(s: Seq<Symbol>) -> Seq<char>
    decreases s.len(),
{
    if s.len() == 0 {
        seq![]
    } else {
        render(s.drop_last()) + symbol_text(s.last())
    }
}

/// Every element is a tone.
pub open spec fn all_tones(s: Seq<Symbol>) -> bool {
    forall|i: int| 0 <= i < s.len() ==> (#[trigger] s[i]).is_tone()
}

/// Every separator stands between two tones: no separator first or last,
/// and no two separators side by side.
pub open spec fn well_separated(s: Seq<Symbol>) -> bool {
    forall|i: int|
        0 <= i < s.len() && !(#[trigger] s[i]).is_tone() ==> 0 < i && i + 1 < s.len() && s[i
            - 1].is_tone() && s[i + 1].is_tone()
}

/// A Morse utterance: an ordered sequence of symbols.
#[derive(Debug, PartialEq, Eq, Clone)]
pub struct MorseCode {
    pub code: Vec<Symbol>,
}

impl View for MorseCode {
    type V = Seq<Symbol>;

    open spec fn view(&self) -> Seq<Symbol> {
        self.code@
    }
}

impl MorseCode {
    pub fn new() -> (r: Self)
        ensures
            r@ == Seq::<Symbol>::empty(),
    {
        MorseCode { code: Vec::new() }
    }

    pub fn push(&mut self, symbol: Symbol)
        ensures
            final(self)@ == old(self)@.push(symbol),
    {
        self.code.push(symbol);
    }

    /// `.` for a dot, `-` for a dash, one space between letters, three between words.
    pub fn to_display_string(&self) -> (r: String)
        ensures
            r@ == render(self@),
    {
        let mut result = String::new();
        let n = self.code.len();
        let mut i: usize = 0;
        while i < n
            invariant
                n == self.code@.len(),
                i <= n,
                result@ == render(self.code@.take(i as int)),
            decreases n - i,
        {
            let symbol = self.code[i];
            match symbol {
                Symbol::Dot => push_char(&mut result, '.'),
                Symbol::Dash => push_char(&mut result, '-'),
                Symbol::LetterSpace => push_char(&mut result, ' '),
                Symbol::WordSpace => {
                    push_char(&mut result, ' ');
                    push_char(&mut result, ' ');
                    push_char(&mut result, ' ');
                },
            }
            assert(self.code@.take(i + 1).drop_last() =~= self.code@.take(i as int));
            assert(result@ =~= render(self.code@.take(i + 1)));
            i = i + 1;
        }
        assert(self.code@.take(n as int) =~= self.code@);
        result
    }
}

} // verus!
