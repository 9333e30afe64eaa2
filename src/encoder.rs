//! Text to Morse symbols.
use vstd::prelude::*;

use crate::symbol::{well_separated, MorseCode, Symbol};
use crate::table::{code_of, is_supported, lemma_code_shape, lookup_code};
use crate::text::{char_is_white_space, is_white_space, keeps_case, to_upper, upper_of};

verus! {

/// `s` holds a character of the table.
pub open spec fn has_letter(s: Seq<char>) -> bool
    decreases s.len(),
{
    s.len() > 0 && (is_supported(s.last()) || has_letter(s.drop_last()))
}

/// Whitespace stands after the last character of the table in `s`: the next
/// supported character starts a new word.
pub open spec fn word_ended(s: Seq<char>) -> bool
    decreases s.len(),
{
    s.len() > 0 && !is_supported(s.last()) && (is_white_space(s.last()) || word_ended(
        s.drop_last(),
    ))
}

/// The symbols for already case-folded text: each supported character's tone
/// pattern, a `WordSpace` before the first character of each word but the first,
/// a `LetterSpace` before each other character but the first; characters
/// outside the table are skipped.
pub open spec fn encode_chars(s: Seq<char>) -> Seq<Symbol>
    decreases s.len(),
{
    if s.len() == 0 {
        seq![]
    } else {
        let p = s.drop_last();
        let c = s.last();
        if !is_supported(c) {
            encode_chars(p)
        } else if !has_letter(p) {
            code_of(c)->0
        } else if word_ended(p) {
            encode_chars(p).push(Symbol::WordSpace) + code_of(c)->0
        } else {
            encode_chars(p).push(Symbol::LetterSpace) + code_of(c)->0
        }
    }
}

/// The symbols for `text`: its uppercase form, encoded.
pub open spec fn encoding(text: Seq<char>) -> Seq<Symbol> {
    encode_chars(upper_of(text))
}

/// Every separator of an encoding stands between two tones, and the encoding is
/// empty exactly when the text has no character of the table.
pub proof fn lemma_encode_chars_shape(s: Seq<char>)
    ensures
        well_separated(encode_chars(s)),
        has_letter(s) <==> encode_chars(s).len() > 0,
    decreases s.len(),
{
    if s.len() > 0 {
        let p = s.drop_last();
        let c = s.last();
        lemma_encode_chars_shape(p);
        if is_supported(c) {
            lemma_code_shape(c);
            let t = code_of(c)->0;
            let e = encode_chars(p);
            if has_letter(p) {
                let sep = if word_ended(p) {
                    Symbol::WordSpace
                } else {
                    Symbol::LetterSpace
                };
                let r = e.push(sep) + t;
                assert(r == encode_chars(s));
                assert forall|i: int| 0 <= i < r.len() && !(#[trigger] r[i]).is_tone() implies 0
                    < i && i + 1 < r.len() && r[i - 1].is_tone() && r[i + 1].is_tone() by {
                    if i < e.len() {
                        assert(r[i] == e[i]);
                        assert(r[i - 1] == e[i - 1]);
                        if i + 1 < e.len() {
                            assert(r[i + 1] == e[i + 1]);
                        } else {
                            assert(false);
                        }
                    } else if i == e.len() {
                        assert(!e[i - 1].is_tone() ==> false);
                        assert(r[i + 1] == t[0]);
                    } else {
                        assert(r[i] == t[i - e.len() - 1]);
                    }
                }
            } else {
                assert(encode_chars(s) == t);
            }
        }
    }
}

/// The characters of already case-folded text that encoding skips: those that
/// are neither whitespace nor in the table, in order.
pub open spec fn skipped_chars(s: Seq<char>) -> Seq<char>
    decreases s.len(),
{
    if s.len() == 0 {
        seq![]
    } else if is_supported(s.last()) || is_white_space(s.last()) {
        skipped_chars(s.drop_last())
    } else {
        skipped_chars(s.drop_last()).push(s.last())
    }
}

/// The characters of already case-folded text that `encode_upper` leaves out,
/// for reporting.
pub fn unsupported_in_upper(upper: &str) -> (r: Vec<char>)
    ensures
        r@ == skipped_chars(upper@),
{
    let mut skipped: Vec<char> = Vec::new();
    for ch in it: upper.chars()
        invariant
            it.seq() == upper@,
            skipped@ == skipped_chars(upper@.take(it.index() as int)),
    {
        assert(upper@.take(it.index() + 1).drop_last() =~= upper@.take(it.index() as int));
        assert(upper@.take(it.index() + 1).last() == ch);
        if lookup_code(ch).is_none() && !char_is_white_space(ch) {
            skipped.push(ch);
        }
    }
    assert(upper@.take(upper@.len() as int) =~= upper@);
    skipped
}

/// The characters of `input`, after case folding, that `encode` leaves out,
/// for reporting.
pub fn unsupported_chars(input: &str) -> (r: Vec<char>)
    ensures
        r@ == skipped_chars(upper_of(input@)),
{
    let upper = to_upper(input);
    unsupported_in_upper(upper.as_str())
}

/// Appends the tone pattern `t` to `out`.
fn push_all(out: &mut MorseCode, t: &Vec<Symbol>)
    ensures
        final(out)@ == old(out)@ + t@,
{
    let mut i: usize = 0;
    while i < t.len()
        invariant
            i <= t@.len(),
            out@ == old(out)@ + t@.take(i as int),
        decreases t@.len() - i,
    {
        out.push(t[i]);
        assert(t@.take(i + 1) =~= t@.take(i as int).push(t@[i as int]));
        i = i + 1;
    }
    assert(t@.take(t@.len() as int) =~= t@);
}

/// Encodes already case-folded text as Morse symbols. The text is split into
/// words at whitespace; letters are joined by `LetterSpace`, words by
/// `WordSpace`, and characters outside the table are skipped.
pub fn encode_upper(upper: &str) -> (r: MorseCode)
    ensures
        r@ == encode_chars(upper@),
        well_separated(r@),
{
    let mut encoded_msg = MorseCode::new();
    let mut has: bool = false;
    let mut ended: bool = false;
    for ch in it: upper.chars()
        invariant
            it.seq() == upper@,
            encoded_msg@ == encode_chars(upper@.take(it.index() as int)),
            has == has_letter(upper@.take(it.index() as int)),
            ended == word_ended(upper@.take(it.index() as int)),
    {
        let ghost p = upper@.take(it.index() as int);
        assert(upper@.take(it.index() + 1).drop_last() =~= p);
        assert(upper@.take(it.index() + 1).last() == ch);
        match lookup_code(ch) {
            Some(tones) => {
                if has {
                    if ended {
                        encoded_msg.push(Symbol::WordSpace);
                    } else {
                        encoded_msg.push(Symbol::LetterSpace);
                    }
                }
                proof {
                    lemma_encode_chars_shape(p);
                }
                push_all(&mut encoded_msg, &tones);
                has = true;
                ended = false;
            },
            None => {
                if char_is_white_space(ch) {
                    ended = true;
                }
            },
        }
    }
    assert(upper@.take(upper@.len() as int) =~= upper@);
    proof {
        lemma_encode_chars_shape(upper@);
    }
    encoded_msg
}

/// Encodes text as Morse symbols: the text is case-folded to uppercase, then
/// encoded by `encode_upper`.
pub fn encode(input: String) -> (r: MorseCode)
    ensures
        r@ == encoding(input@),
        well_separated(r@),
        input@.len() == 0 ==> r@.len() == 0,
        (forall|i: int| 0 <= i < input@.len() ==> keeps_case(#[trigger] input@[i])) ==> r@
            == encode_chars(input@),
{
    let upper = to_upper(input.as_str());
    encode_upper(upper.as_str())
}

} // verus!
