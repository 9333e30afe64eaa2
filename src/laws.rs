//! Laws relating the encoder, the decoder and the display form.
use vstd::prelude::*;

use crate::decoder::{
    decode_symbols, decoded_before, parse_raw_spec, pending, scan, scan_from, scan_step, trim_back,
    trim_front,
};
use crate::encoder::{encode_chars, encoding, has_letter, lemma_encode_chars_shape, word_ended};
use crate::symbol::{all_tones, render, symbol_text, well_separated, Symbol};
use crate::table::{code_of, is_supported, lemma_char_of_code, lemma_code_shape};
use crate::text::{keeps_case, upper_of};

verus! {

/// Tones appended to a sequence only extend its pending pattern.
proof fn lemma_append_tones(x: Seq<Symbol>, t: Seq<Symbol>)
    requires
        all_tones(t),
    ensures
        pending(x + t) == pending(x) + t,
        decoded_before(x + t) == decoded_before(x),
    decreases t.len(),
{
    if t.len() == 0 {
        assert(x + t =~= x);
        assert(pending(x) + t =~= pending(x));
    } else {
        let t0 = t.drop_last();
        assert(all_tones(t0)) by {
            assert forall|i: int| 0 <= i < t0.len() implies (#[trigger] t0[i]).is_tone() by {
                assert(t0[i] == t[i]);
            }
        }
        lemma_append_tones(x, t0);
        assert((x + t).drop_last() =~= x + t0);
        assert((x + t).last() == t.last());
        assert(t.last().is_tone());
        assert(pending(x) + t =~= (pending(x) + t0).push(t.last()));
    }
}

/// Characters of the table, written as one word, decode back to themselves.
pub proof fn lemma_decode_encode_letters(u: Seq<char>)
    requires
        forall|i: int| 0 <= i < u.len() ==> is_supported(#[trigger] u[i]),
    ensures
        decode_symbols(encode_chars(u)) == u,
    decreases u.len(),
{
    if u.len() > 0 {
        let p = u.drop_last();
        let c = u.last();
        assert(is_supported(c));
        lemma_code_shape(c);
        lemma_char_of_code(c);
        let t = code_of(c)->0;
        assert(all_tones(t));
        if p.len() == 0 {
            assert(!has_letter(p));
            assert(encode_chars(u) == t);
            lemma_append_tones(seq![], t);
            assert(seq![] + t =~= t);
            assert(pending(Seq::<Symbol>::empty()) + t =~= t);
            assert(decode_symbols(t) =~= seq![c]);
            assert(u =~= seq![c]);
        } else {
            assert(is_supported(p[p.len() - 1]));
            assert(has_letter(p));
            assert(!word_ended(p));
            lemma_decode_encode_letters(p);
            let e = encode_chars(p);
            lemma_encode_chars_shape(p);
            let el = e.push(Symbol::LetterSpace);
            assert(encode_chars(u) == el + t);
            lemma_append_tones(el, t);
            assert(el.drop_last() =~= e);
            assert(pending(el) =~= seq![]);
            assert(seq![] + t =~= t);
            assert(e[e.len() - 1].is_tone());
            assert(e.drop_last().push(e.last()) =~= e);
            assert(pending(e).len() > 0);
            assert(decode_symbols(el + t) =~= decode_symbols(e) + seq![c]);
            assert(u =~= p + seq![c]);
        }
    }
}

/// A single character of the table, encoded and decoded, is itself again. Table
/// characters have no uppercase mapping, so `encode` applied to one of them
/// gives `encode_chars` of it.
pub proof fn lemma_char_round_trip(c: char)
    requires
        is_supported(c),
    ensures
        keeps_case(c),
        decode_symbols(encode_chars(seq![c])) == seq![c],
{
    lemma_decode_encode_letters(seq![c]);
}

/// A word whose uppercase form holds only characters of the table decodes,
/// after encoding, to that uppercase form.
pub proof fn lemma_word_round_trip(w: Seq<char>)
    requires
        forall|i: int| 0 <= i < upper_of(w).len() ==> is_supported(#[trigger] upper_of(w)[i]),
    ensures
        decode_symbols(encoding(w)) == upper_of(w),
{
    lemma_decode_encode_letters(upper_of(w));
}

/// Reading the text `a + b` is reading `a`, then `b`.
proof fn lemma_scan_concat(st: (Seq<Symbol>, nat), a: Seq<char>, b: Seq<char>)
    ensures
        scan_from(st, a + b) == scan_from(scan_from(st, a), b),
    decreases b.len(),
{
    if b.len() == 0 {
        assert(a + b =~= a);
    } else {
        lemma_scan_concat(st, a, b.drop_last());
        assert((a + b).drop_last() =~= a + b.drop_last());
        assert((a + b).last() == b.last());
    }
}

/// Every separator of `s` follows a tone, and precedes one unless it is last.
spec fn separated_prefix(s: Seq<Symbol>) -> bool {
    forall|i: int|
        0 <= i < s.len() && !(#[trigger] s[i]).is_tone() ==> 0 < i && s[i - 1].is_tone() && (i + 1
            < s.len() ==> s[i + 1].is_tone())
}

/// The space run left after reading the display form of `s`.
spec fn run_after(s: Seq<Symbol>) -> nat {
    if s.len() == 0 || s.last().is_tone() {
        0
    } else if s.last() == Symbol::LetterSpace {
        1
    } else {
        3
    }
}

proof fn lemma_scan_render(s: Seq<Symbol>)
    requires
        separated_prefix(s),
    ensures
        scan_from((seq![], 0), render(s)) == (s, run_after(s)),
    decreases s.len(),
{
    if s.len() > 0 {
        let p = s.drop_last();
        let x = s.last();
        assert(separated_prefix(p)) by {
            assert forall|i: int| 0 <= i < p.len() && !(#[trigger] p[i]).is_tone() implies 0 < i
                && p[i - 1].is_tone() && (i + 1 < p.len() ==> p[i + 1].is_tone()) by {
                assert(p[i] == s[i]);
            }
        }
        lemma_scan_render(p);
        assert(render(s) == render(p) + symbol_text(x));
        lemma_scan_concat((seq![], 0), render(p), symbol_text(x));
        reveal_with_fuel(scan_from, 4);
        let txt = symbol_text(x);
        if !x.is_tone() {
            assert(!s[s.len() - 1].is_tone());
            assert(s[s.len() - 2].is_tone());
            assert(p.last().is_tone());
        }
        match x {
            Symbol::Dot => {
                assert(txt.drop_last() =~= seq![]);
            },
            Symbol::Dash => {
                assert(txt.drop_last() =~= seq![]);
            },
            Symbol::LetterSpace => {
                assert(txt.drop_last() =~= seq![]);
            },
            Symbol::WordSpace => {
                assert(txt.drop_last() =~= seq![' ', ' ']);
                assert(txt.drop_last().drop_last() =~= seq![' ']);
                assert(txt.drop_last().drop_last().drop_last() =~= seq![]);
                assert(p.push(Symbol::LetterSpace).drop_last() =~= p);
            },
        }
        assert(p.push(x) =~= s);
    }
}

/// Reading the display form of a well-separated sequence gives the sequence back.
pub proof fn lemma_parse_render(s: Seq<Symbol>)
    requires
        well_separated(s),
    ensures
        parse_raw_spec(render(s)) == s,
{
    lemma_scan_render(s);
    assert(scan(render(s)) == s);
    if s.len() > 0 {
        assert(s[0].is_tone());
        assert(s[s.len() - 1].is_tone());
    }
}

/// Encoding, displaying, and reading the display back gives the encoding again.
pub proof fn lemma_encode_render_parse(text: Seq<char>)
    ensures
        parse_raw_spec(render(encoding(text))) == encoding(text),
{
    lemma_encode_chars_shape(upper_of(text));
    lemma_parse_render(encoding(text));
}

} // verus!
