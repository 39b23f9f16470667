//! The unit tokenizer for melodic tokens: one unit per note, sustain mark or
//! rest mark.

use crate::text::{chars_of, slice_of, string_of, texts_of};
use vstd::prelude::*;

verus! {

/// The seven note letters.
pub open spec fn spec_is_note_letter(c: char) -> bool {
    c == 'S' || c == 'R' || c == 'G' || c == 'M' || c == 'P' || c == 'D' || c == 'N'
}

/// The digits that select a variant of a note.
pub open spec fn spec_is_variant_digit(c: char) -> bool {
    c == '1' || c == '2' || c == '3'
}

/// The marks that move a note into a lower or a higher octave.
pub open spec fn spec_is_octave_mark(c: char) -> bool {
    c == '.' || c == '\''
}

pub fn is_note_letter(c: char) -> (r: bool)
    ensures
        r == spec_is_note_letter(c),
{
    c == 'S' || c == 'R' || c == 'G' || c == 'M' || c == 'P' || c == 'D' || c == 'N'
}

pub fn is_variant_digit(c: char) -> (r: bool)
    ensures
        r == spec_is_variant_digit(c),
{
    c == '1' || c == '2' || c == '3'
}

pub fn is_octave_mark(c: char) -> (r: bool)
    ensures
        r == spec_is_octave_mark(c),
{
    c == '.' || c == '\''
}

/// The first index at or after `j` that holds no octave mark.
pub open spec fn octave_end(s: Seq<char>, j: int) -> int
    decreases s.len() - j,
{
    if 0 <= j < s.len() && spec_is_octave_mark(s[j]) {
        octave_end(s, j + 1)
    } else {
        j
    }
}

/// Where the note that starts at `i` ends: after the letter, at most one
/// variant digit, and every octave mark that follows.
pub open spec fn note_end(s: Seq<char>, i: int) -> int {
    if i + 1 < s.len() && spec_is_variant_digit(s[i + 1]) {
        octave_end(s, i + 2)
    } else {
        octave_end(s, i + 1)
    }
}

proof fn lemma_octave_end_bounds(s: Seq<char>, j: int)
    requires
        0 <= j <= s.len(),
    ensures
        j <= octave_end(s, j) <= s.len(),
    decreases s.len() - j,
{
    if j < s.len() && spec_is_octave_mark(s[j]) {
        lemma_octave_end_bounds(s, j + 1);
    }
}

/// A note ends behind its letter, inside the token: every note is a unit
/// that is not empty.
pub proof fn lemma_note_end_bounds(s: Seq<char>, i: int)
    requires
        0 <= i < s.len(),
    ensures
        i < note_end(s, i) <= s.len(),
{
    if i + 1 < s.len() && spec_is_variant_digit(s[i + 1]) {
        lemma_octave_end_bounds(s, i + 2);
    } else {
        lemma_octave_end_bounds(s, i + 1);
    }
}

/// The units of a melodic token from index `i` on.
pub open spec fn melodic_units_from(s: Seq<char>, i: int) -> Seq<Seq<char>>
    decreases s.len() - i,
{
    if i < 0 || i >= s.len() {
        Seq::empty()
    } else if s[i] == ',' || s[i] == '-' {
        seq![s.subrange(i, i + 1)] + melodic_units_from(s, i + 1)
    } else if spec_is_note_letter(s[i]) {
        let e = note_end(s, i);
        if i < e <= s.len() {
            seq![s.subrange(i, e)] + melodic_units_from(s, e)
        } else {
            Seq::empty()
        }
    } else {
        melodic_units_from(s, i + 1)
    }
}

/// The units of a melodic token, left to right: each comma and each dash is
/// a unit; a note letter with its variant digit and octave marks is a unit;
/// every other character belongs to none.
pub open spec fn melodic_units(s: Seq<char>) -> Seq<Seq<char>> {
    melodic_units_from(s, 0)
}

/// Splits a melodic token into its units.
pub fn parse_swara_units(token: &str) -> (units: Vec<String>)
    ensures
        texts_of(units@) == melodic_units(token@),
{
    let v = chars_of(token);
    let mut units: Vec<String> = Vec::new();
    let mut i: usize = 0;
    while i < v.len()
        invariant
            i <= v.len(),
            v@ == token@,
            melodic_units(v@) == texts_of(units@) + melodic_units_from(v@, i as int),
        decreases v.len() - i,
    {
        let c = v[i];
        if c == ',' || c == '-' {
            let unit = string_of(&slice_of(&v, i, i + 1));
            units.push(unit);
            i += 1;
        } else if is_note_letter(c) {
            let mut j: usize = i + 1;
            if j < v.len() && is_variant_digit(v[j]) {
                j += 1;
            }
            while j < v.len() && is_octave_mark(v[j])
                invariant
                    i < j <= v.len(),
                    octave_end(v@, j as int) == note_end(v@, i as int),
                decreases v.len() - j,
            {
                j += 1;
            }
            let unit = string_of(&slice_of(&v, i, j));
            units.push(unit);
            i = j;
        } else {
            i += 1;
        }
    }
    units
}

} // verus!
