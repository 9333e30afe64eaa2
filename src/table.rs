//! The code table: each supported character and its pattern of tones.
use vstd::prelude::*;

use crate::symbol::Symbol;
use crate::symbol::Symbol::{Dash, Dot};

verus! {

/// The tone pattern of each supported character; `None` for every other character.
pub open spec fn code_of(c: char) -> Option<Seq<Symbol>> {
    match c {
        'A' => Some(seq![Dot, Dash]),
        'B' => Some(seq![Dash, Dot, Dot, Dot]),
        'C' => Some(seq![Dash, Dot, Dash, Dot]),
        'D' => Some(seq![Dash, Dot, Dot]),
        'E' => Some(seq![Dot]),
        'F' => Some(seq![Dot, Dot, Dash, Dot]),
        'G' => Some(seq![Dash, Dash, Dot]),
        'H' => Some(seq![Dot, Dot, Dot, Dot]),
        'I' => Some(seq![Dot, Dot]),
        'J' => Some(seq![Dot, Dash, Dash, Dash]),
        'K' => Some(seq![Dash, Dot, Dash]),
        'L' => Some(seq![Dot, Dash, Dot, Dot]),
        'M' => Some(seq![Dash, Dash]),
        'N' => Some(seq![Dash, Dot]),
        'O' => Some(seq![Dash, Dash, Dash]),
        'P' => Some(seq![Dot, Dash, Dash, Dot]),
        'Q' => Some(seq![Dash, Dash, Dot, Dash]),
        'R' => Some(seq![Dot, Dash, Dot]),
        'S' => Some(seq![Dot, Dot, Dot]),
        'T' => Some(seq![Dash]),
        'U' => Some(seq![Dot, Dot, Dash]),
        'V' => Some(seq![Dot, Dot, Dot, Dash]),
        'W' => Some(seq![Dot, Dash, Dash]),
        'X' => Some(seq![Dash, Dot, Dot, Dash]),
        'Y' => Some(seq![Dash, Dot, Dash, Dash]),
        'Z' => Some(seq![Dash, Dash, Dot, Dot]),
        '0' => Some(seq![Dash, Dash, Dash, Dash, Dash]),
        '1' => Some(seq![Dot, Dash, Dash, Dash, Dash]),
        '2' => Some(seq![Dot, Dot, Dash, Dash, Dash]),
        '3' => Some(seq![Dot, Dot, Dot, Dash, Dash]),
        '4' => Some(seq![Dot, Dot, Dot, Dot, Dash]),
        '5' => Some(seq![Dot, Dot, Dot, Dot, Dot]),
        '6' => Some(seq![Dash, Dot, Dot, Dot, Dot]),
        '7' => Some(seq![Dash, Dash, Dot, Dot, Dot]),
        '8' => Some(seq![Dash, Dash, Dash, Dot, Dot]),
        '9' => Some(seq![Dash, Dash, Dash, Dash, Dot]),
        '.' => Some(seq![Dot, Dash, Dot, Dash, Dot, Dash]),
        ',' => Some(seq![Dash, Dash, Dot, Dot, Dash, Dash]),
        '?' => Some(seq![Dot, Dot, Dash, Dash, Dot, Dot]),
        '/' => Some(seq![Dash, Dot, Dot, Dash, Dot]),
        '=' => Some(seq![Dash, Dot, Dot, Dot, Dash]),
        _ => None,
    }
}

pub open spec fn is_supported(c: char) -> bool {
    code_of(c) is Some
}

/// The character whose tone pattern is `tones`, if there is one.
pub open spec fn char_of(tones: Seq<Symbol>) -> Option<char> {
    if exists|c: char| code_of(c) == Some(tones) {
        Some(choose|c: char| code_of(c) == Some(tones))
    } else {
        None
    }
}

/// The supported characters, in table order.
pub open spec fn alphabet() -> Seq<char> {
    seq!['A', 'B', 'C', 'D', 'E', 'F', 'G', 'H', 'I', 'J', 'K', 'L', 'M', 'N', 'O', 'P', 'Q', 'R', 'S', 'T', 'U', 'V', 'W', 'X', 'Y', 'Z', '0', '1', '2', '3', '4', '5', '6', '7', '8', '9', '.', ',', '?', '/', '=']
}

/// A number that tells apart any two tone patterns of at most six tones.
spec fn pattern_key(s: Seq<Symbol>) -> int {
    64 * s.len() + (if s.len() > 0 && s[0] is Dash { 1int } else { 0 }) + (if s.len() > 1
        && s[1] is Dash { 2int } else { 0 }) + (if s.len() > 2 && s[2] is Dash { 4int } else { 0 })
        + (if s.len() > 3 && s[3] is Dash { 8int } else { 0 }) + (if s.len() > 4 && s[4] is Dash {
        16int
    } else { 0 }) + (if s.len() > 5 && s[5] is Dash { 32int } else { 0 })
}

spec fn char_of_key(k: int) -> char {
    if k == 130 {
        'A'
    } else if k == 257 {
        'B'
    } else if k == 261 {
        'C'
    } else if k == 193 {
        'D'
    } else if k == 64 {
        'E'
    } else if k == 260 {
        'F'
    } else if k == 195 {
        'G'
    } else if k == 256 {
        'H'
    } else if k == 128 {
        'I'
    } else if k == 270 {
        'J'
    } else if k == 197 {
        'K'
    } else if k == 258 {
        'L'
    } else if k == 131 {
        'M'
    } else if k == 129 {
        'N'
    } else if k == 199 {
        'O'
    } else if k == 262 {
        'P'
    } else if k == 267 {
        'Q'
    } else if k == 194 {
        'R'
    } else if k == 192 {
        'S'
    } else if k == 65 {
        'T'
    } else if k == 196 {
        'U'
    } else if k == 264 {
        'V'
    } else if k == 198 {
        'W'
    } else if k == 265 {
        'X'
    } else if k == 269 {
        'Y'
    } else if k == 259 {
        'Z'
    } else if k == 351 {
        '0'
    } else if k == 350 {
        '1'
    } else if k == 348 {
        '2'
    } else if k == 344 {
        '3'
    } else if k == 336 {
        '4'
    } else if k == 320 {
        '5'
    } else if k == 321 {
        '6'
    } else if k == 323 {
        '7'
    } else if k == 327 {
        '8'
    } else if k == 335 {
        '9'
    } else if k == 426 {
        '.'
    } else if k == 435 {
        ','
    } else if k == 396 {
        '?'
    } else if k == 329 {
        '/'
    } else if k == 337 {
        '='
    } else {
        ' '
    }
}

proof fn lemma_key_recovers_char(c: char)
    requires
        is_supported(c),
    ensures
        char_of_key(pattern_key(code_of(c)->0)) == c,
{
}

/// No two characters of the table share a tone pattern.
pub proof fn lemma_code_injective(a: char, b: char)
    requires
        is_supported(a),
        code_of(a) == code_of(b),
    ensures
        a == b,
{
    lemma_key_recovers_char(a);
    lemma_key_recovers_char(b);
}

/// Decoding a character's tone pattern gives the character back.
pub proof fn lemma_char_of_code(c: char)
    requires
        is_supported(c),
    ensures
        char_of(code_of(c)->0) == Some(c),
{
    let t = code_of(c)->0;
    assert(exists|x: char| code_of(x) == Some(t));
    let d = choose|x: char| code_of(x) == Some(t);
    lemma_code_injective(c, d);
}

/// The table's patterns are non-empty and made of tones only.
pub proof fn lemma_code_shape(c: char)
    requires
        is_supported(c),
    ensures
        code_of(c)->0.len() > 0,
        forall|i: int| 0 <= i < code_of(c)->0.len() ==> (#[trigger] code_of(c)->0[i]).is_tone(),
{
}

/// No character has the empty pattern.
pub proof fn lemma_no_empty_pattern()
    ensures
        char_of(seq![]) is None,
{
    if exists|c: char| code_of(c) == Some(Seq::<Symbol>::empty()) {
        let c = choose|c: char| code_of(c) == Some(Seq::<Symbol>::empty());
        lemma_code_shape(c);
    }
}

proof fn lemma_alphabet_covers(c: char)
    requires
        is_supported(c),
    ensures
        alphabet().contains(c),
{
    assert(alphabet()[0] == 'A');
    assert(alphabet()[1] == 'B');
    assert(alphabet()[2] == 'C');
    assert(alphabet()[3] == 'D');
    assert(alphabet()[4] == 'E');
    assert(alphabet()[5] == 'F');
    assert(alphabet()[6] == 'G');
    assert(alphabet()[7] == 'H');
    assert(alphabet()[8] == 'I');
    assert(alphabet()[9] == 'J');
    assert(alphabet()[10] == 'K');
    assert(alphabet()[11] == 'L');
    assert(alphabet()[12] == 'M');
    assert(alphabet()[13] == 'N');
    assert(alphabet()[14] == 'O');
    assert(alphabet()[15] == 'P');
    assert(alphabet()[16] == 'Q');
    assert(alphabet()[17] == 'R');
    assert(alphabet()[18] == 'S');
    assert(alphabet()[19] == 'T');
    assert(alphabet()[20] == 'U');
    assert(alphabet()[21] == 'V');
    assert(alphabet()[22] == 'W');
    assert(alphabet()[23] == 'X');
    assert(alphabet()[24] == 'Y');
    assert(alphabet()[25] == 'Z');
    assert(alphabet()[26] == '0');
    assert(alphabet()[27] == '1');
    assert(alphabet()[28] == '2');
    assert(alphabet()[29] == '3');
    assert(alphabet()[30] == '4');
    assert(alphabet()[31] == '5');
    assert(alphabet()[32] == '6');
    assert(alphabet()[33] == '7');
    assert(alphabet()[34] == '8');
    assert(alphabet()[35] == '9');
    assert(alphabet()[36] == '.');
    assert(alphabet()[37] == ',');
    assert(alphabet()[38] == '?');
    assert(alphabet()[39] == '/');
    assert(alphabet()[40] == '=');
}

/// The tone pattern of `c` in the table.
pub fn lookup_code(c: char) -> (r: Option<Vec<Symbol>>)
    ensures
        r is Some <==> code_of(c) is Some,
        r is Some ==> r->0@ == code_of(c)->0,
{
    match c {
        'A' => Some(vec![Dot, Dash]),
        'B' => Some(vec![Dash, Dot, Dot, Dot]),
        'C' => Some(vec![Dash, Dot, Dash, Dot]),
        'D' => Some(vec![Dash, Dot, Dot]),
        'E' => Some(vec![Dot]),
        'F' => Some(vec![Dot, Dot, Dash, Dot]),
        'G' => Some(vec![Dash, Dash, Dot]),
        'H' => Some(vec![Dot, Dot, Dot, Dot]),
        'I' => Some(vec![Dot, Dot]),
        'J' => Some(vec![Dot, Dash, Dash, Dash]),
        'K' => Some(vec![Dash, Dot, Dash]),
        'L' => Some(vec![Dot, Dash, Dot, Dot]),
        'M' => Some(vec![Dash, Dash]),
        'N' => Some(vec![Dash, Dot]),
        'O' => Some(vec![Dash, Dash, Dash]),
        'P' => Some(vec![Dot, Dash, Dash, Dot]),
        'Q' => Some(vec![Dash, Dash, Dot, Dash]),
        'R' => Some(vec![Dot, Dash, Dot]),
        'S' => Some(vec![Dot, Dot, Dot]),
        'T' => Some(vec![Dash]),
        'U' => Some(vec![Dot, Dot, Dash]),
        'V' => Some(vec![Dot, Dot, Dot, Dash]),
        'W' => Some(vec![Dot, Dash, Dash]),
        'X' => Some(vec![Dash, Dot, Dot, Dash]),
        'Y' => Some(vec![Dash, Dot, Dash, Dash]),
        'Z' => Some(vec![Dash, Dash, Dot, Dot]),
        '0' => Some(vec![Dash, Dash, Dash, Dash, Dash]),
        '1' => Some(vec![Dot, Dash, Dash, Dash, Dash]),
        '2' => Some(vec![Dot, Dot, Dash, Dash, Dash]),
        '3' => Some(vec![Dot, Dot, Dot, Dash, Dash]),
        '4' => Some(vec![Dot, Dot, Dot, Dot, Dash]),
        '5' => Some(vec![Dot, Dot, Dot, Dot, Dot]),
        '6' => Some(vec![Dash, Dot, Dot, Dot, Dot]),
        '7' => Some(vec![Dash, Dash, Dot, Dot, Dot]),
        '8' => Some(vec![Dash, Dash, Dash, Dot, Dot]),
        '9' => Some(vec![Dash, Dash, Dash, Dash, Dot]),
        '.' => Some(vec![Dot, Dash, Dot, Dash, Dot, Dash]),
        ',' => Some(vec![Dash, Dash, Dot, Dot, Dash, Dash]),
        '?' => Some(vec![Dot, Dot, Dash, Dash, Dot, Dot]),
        '/' => Some(vec![Dash, Dot, Dot, Dash, Dot]),
        '=' => Some(vec![Dash, Dot, Dot, Dot, Dash]),
        _ => None,
    }
}

fn alphabet_chars() -> (r: Vec<char>)
    ensures
        r@ == alphabet(),
{
    vec!['A', 'B', 'C', 'D', 'E', 'F', 'G', 'H', 'I', 'J', 'K', 'L', 'M', 'N', 'O', 'P', 'Q', 'R', 'S', 'T', 'U', 'V', 'W', 'X', 'Y', 'Z', '0', '1', '2', '3', '4', '5', '6', '7', '8', '9', '.', ',', '?', '/', '=']
}

fn same_tones(a: &Vec<Symbol>, b: &Vec<Symbol>) -> (r: bool)
    ensures
        r == (a@ == b@),
{
    if a.len() != b.len() {
        return false;
    }
    let mut i: usize = 0;
    while i < a.len()
        invariant
            a@.len() == b@.len(),
            i <= a@.len(),
            forall|j: int| 0 <= j < i ==> a@[j] == b@[j],
        decreases a@.len() - i,
    {
        if a[i] != b[i] {
            return false;
        }
        i = i + 1;
    }
    assert(a@ =~= b@);
    true
}

/// The character whose tone pattern is `tones`, found by searching the table.
pub fn lookup_char(tones: &Vec<Symbol>) -> (r: Option<char>)
    ensures
        r == char_of(tones@),
{
    let chars = alphabet_chars();
    let mut i: usize = 0;
    while i < chars.len()
        invariant
            chars@ == alphabet(),
            i <= chars@.len(),
            forall|j: int| 0 <= j < i ==> code_of(#[trigger] chars@[j]) != Some(tones@),
        decreases chars@.len() - i,
    {
        let c = chars[i];
        match lookup_code(c) {
            Some(code) => {
                if same_tones(&code, tones) {
                    proof {
                        lemma_char_of_code(c);
                    }
                    return Some(c);
                }
            },
            None => {},
        }
        i = i + 1;
    }
    assert forall|c: char| code_of(c) != Some(tones@) by {
        if code_of(c) == Some(tones@) {
            lemma_alphabet_covers(c);
            let j = choose|j: int| 0 <= j < alphabet().len() && alphabet()[j] == c;
            assert(code_of(chars@[j]) != Some(tones@));
        }
    }
    None
}

} // verus!
