//! The syllabification engine: the units of a lyric token.
//!
//! A token that holds a backtick is cut where its author put the backticks.
//! Any other token is cut automatically: each dash is a unit, and each run
//! between dashes is written in a native script, cut into grapheme clusters,
//! and each cluster written back. Where the transliterator fails, a
//! vowel-based heuristic cuts the run instead.

use crate::text::{
    chained, chars_of, concat, extend_texts, joined, lemma_concat_append, lemma_concat_one,
    rows_of, slice_of, spells, split, split_chars, string_of, texts_of,
};
use crate::translit::{grapheme_clusters, graphemes, new_transliterator, transliterate};
use vstd::prelude::*;

verus! {

/// The vowels of the romanization, short and long.
pub open spec fn spec_is_simple_vowel(c: char) -> bool {
    ||| c == 'a'
    ||| c == '\u{101}'
    ||| c == 'i'
    ||| c == '\u{12b}'
    ||| c == 'u'
    ||| c == '\u{16b}'
    ||| c == 'e'
    ||| c == '\u{113}'
    ||| c == 'o'
    ||| c == '\u{14d}'
    ||| c == 'A'
    ||| c == 'I'
    ||| c == 'U'
    ||| c == 'E'
    ||| c == 'O'
}

pub fn is_simple_vowel(c: char) -> (r: bool)
    ensures
        r == spec_is_simple_vowel(c),
{
    c == 'a' || c == '\u{101}' || c == 'i' || c == '\u{12b}' || c == 'u' || c == '\u{16b}' || c
        == 'e' || c == '\u{113}' || c == 'o' || c == '\u{14d}' || c == 'A' || c == 'I' || c == 'U'
        || c == 'E' || c == 'O'
}

/// The short vowel that a vowel of the long-vowel digraphs is a form of.
pub open spec fn vowel_base(c: char) -> Option<char> {
    if c == 'a' || c == '\u{101}' {
        Some('a')
    } else if c == 'i' || c == '\u{12b}' {
        Some('i')
    } else if c == 'u' || c == '\u{16b}' {
        Some('u')
    } else if c == 'e' || c == '\u{113}' {
        Some('e')
    } else if c == 'o' || c == '\u{14d}' {
        Some('o')
    } else {
        None
    }
}

/// Whether two vowels in a row spell one long vowel: both are forms of the
/// same short vowel, and at most one of them carries the macron.
pub open spec fn spec_could_be_long_vowel(first: char, second: char) -> bool {
    &&& vowel_base(first).is_some()
    &&& vowel_base(first) == vowel_base(second)
    &&& (Some(first) == vowel_base(first) || Some(second) == vowel_base(second))
}

pub fn could_be_long_vowel(first: char, second: char) -> (r: bool)
    ensures
        r == spec_could_be_long_vowel(first, second),
{
    (first == 'a' && (second == 'a' || second == '\u{101}')) || (first == '\u{101}' && second
        == 'a') || (first == 'i' && (second == 'i' || second == '\u{12b}')) || (first == '\u{12b}'
        && second == 'i') || (first == 'u' && (second == 'u' || second == '\u{16b}')) || (first
        == '\u{16b}' && second == 'u') || (first == 'e' && (second == 'e' || second == '\u{113}'))
        || (first == '\u{113}' && second == 'e') || (first == 'o' && (second == 'o' || second
        == '\u{14d}')) || (first == '\u{14d}' && second == 'o')
}

/// Where the syllable ends that the vowel at `i` belongs to, if that vowel
/// closes it. `None`: the next character continues a long vowel. Otherwise
/// the syllable ends after the vowel, unless a consonant follows that no
/// vowel follows in turn: then the syllable takes that consonant too.
pub open spec fn syllable_close(s: Seq<char>, i: int) -> Option<int> {
    if i + 1 >= s.len() {
        Some(i + 1)
    } else if spec_is_simple_vowel(s[i + 1]) {
        if spec_could_be_long_vowel(s[i], s[i + 1]) {
            None
        } else {
            Some(i + 1)
        }
    } else if i + 2 < s.len() && spec_is_simple_vowel(s[i + 2]) {
        Some(i + 1)
    } else {
        Some(i + 2)
    }
}

/// The syllables of `s[start..]`, scanning from `i` with the current
/// syllable starting at `start`.
pub open spec fn vowel_scan(s: Seq<char>, start: int, i: int) -> Seq<Seq<char>>
    decreases s.len() - i,
{
    if i < 0 || i >= s.len() {
        if start < s.len() {
            seq![s.subrange(start, s.len() as int)]
        } else {
            Seq::empty()
        }
    } else if spec_is_simple_vowel(s[i]) {
        match syllable_close(s, i) {
            Some(e) => seq![s.subrange(start, e)] + vowel_scan(s, e, e),
            None => vowel_scan(s, start, i + 1),
        }
    } else {
        vowel_scan(s, start, i + 1)
    }
}

/// The syllables that the vowel heuristic cuts a run into. A run that yields
/// none is a single unit.
pub open spec fn vowel_syllables(s: Seq<char>) -> Seq<Seq<char>> {
    if s.len() == 0 {
        seq![s]
    } else {
        vowel_scan(s, 0, 0)
    }
}

proof fn lemma_vowel_scan_covers(s: Seq<char>, start: int, i: int)
    requires
        0 <= start <= i <= s.len(),
    ensures
        concat(vowel_scan(s, start, i)) == s.subrange(start, s.len() as int),
        start < s.len() ==> vowel_scan(s, start, i).len() > 0,
        forall|k: int|
            0 <= k < vowel_scan(s, start, i).len() ==> vowel_scan(s, start, i)[k].len() > 0,
    decreases s.len() - i,
{
    let n = s.len() as int;
    if i >= n {
        if start < n {
            lemma_concat_one(s.subrange(start, n));
        }
    } else if spec_is_simple_vowel(s[i]) {
        match syllable_close(s, i) {
            Some(e) => {
                lemma_vowel_scan_covers(s, e, e);
                let head = seq![s.subrange(start, e)];
                lemma_concat_one(s.subrange(start, e));
                lemma_concat_append(head, vowel_scan(s, e, e));
            },
            None => {
                lemma_vowel_scan_covers(s, start, i + 1);
            },
        }
    } else {
        lemma_vowel_scan_covers(s, start, i + 1);
    }
}

/// Coverage of the vowel heuristic: the syllables of a run are not empty,
/// there is at least one, and written one after another they are the run.
pub proof fn lemma_vowel_syllables_cover(s: Seq<char>)
    ensures
        vowel_syllables(s).len() > 0,
        concat(vowel_syllables(s)) == s,
        s.len() > 0 ==> forall|k: int|
            0 <= k < vowel_syllables(s).len() ==> vowel_syllables(s)[k].len() > 0,
{
    if s.len() == 0 {
        lemma_concat_one(s);
    } else {
        lemma_vowel_scan_covers(s, 0, 0);
    }
}

fn vowel_units(v: &Vec<char>) -> (units: Vec<String>)
    ensures
        texts_of(units@) == vowel_syllables(v@),
{
    let mut units: Vec<String> = Vec::new();
    let n = v.len();
    if n == 0 {
        units.push(string_of(v));
        return units;
    }
    let mut start: usize = 0;
    let mut i: usize = 0;
    while i < n
        invariant
            start <= i <= n == v.len(),
            vowel_scan(v@, 0, 0) == texts_of(units@) + vowel_scan(v@, start as int, i as int),
        decreases n - i,
    {
        let mut close: Option<usize> = None;
        if is_simple_vowel(v[i]) {
            if i + 1 >= n {
                close = Some(i + 1);
            } else if is_simple_vowel(v[i + 1]) {
                if !could_be_long_vowel(v[i], v[i + 1]) {
                    close = Some(i + 1);
                }
            } else if i + 2 < n && is_simple_vowel(v[i + 2]) {
                close = Some(i + 1);
            } else {
                close = Some(i + 2);
            }
        }
        match close {
            Some(e) => {
                let unit = string_of(&slice_of(v, start, e));
                units.push(unit);
                start = e;
                i = e;
            },
            None => {
                i += 1;
            },
        }
    }
    if start < n {
        let unit = string_of(&slice_of(v, start, n));
        units.push(unit);
    }
    units
}

/// Cuts a run into syllables by its vowels alone.
pub fn parse_vowel_based(segment: &str) -> (units: Vec<String>)
    ensures
        texts_of(units@) == vowel_syllables(segment@),
        units@.len() > 0,
        concat(texts_of(units@)) == segment@,
{
    let v = chars_of(segment);
    proof {
        lemma_vowel_syllables_cover(v@);
    }
    vowel_units(&v)
}

/// A run as a single unit.
pub fn parse_automatic_fallback(segment: &str) -> (units: Vec<String>)
    ensures
        texts_of(units@) == seq![segment@],
{
    let mut units: Vec<String> = Vec::new();
    units.push(string_of(&chars_of(segment)));
    units
}

/// The one-character unit that a dash is.
pub open spec fn dash_unit() -> Seq<char> {
    seq!['-']
}

/// The unit lists written one after another, with a dash unit between each
/// list and the next.
pub open spec fn dash_joined(parts: Seq<Seq<Seq<char>>>) -> Seq<Seq<char>>
    decreases parts.len(),
{
    if parts.len() == 0 {
        Seq::empty()
    } else if parts.len() == 1 {
        parts[0]
    } else {
        dash_joined(parts.drop_last()).push(dash_unit()) + parts.last()
    }
}

/// A run between dashes as the unit it is; the empty run is none.
pub open spec fn whole_run(run: Seq<char>) -> Seq<Seq<char>> {
    if run.len() == 0 {
        Seq::empty()
    } else {
        seq![run]
    }
}

/// The units of a segment that is cut at its dashes only: each dash is a
/// unit, and so is each run between dashes.
pub open spec fn dash_units(s: Seq<char>) -> Seq<Seq<char>> {
    dash_joined(split(s, '-').map_values(|run: Seq<char>| whole_run(run)))
}

/// The units of a token that is cut by hand: the backticks cut it into
/// segments, and each segment is cut at its dashes.
pub open spec fn manual_units(t: Seq<char>) -> Seq<Seq<char>> {
    chained(split(t, '`').map_values(|segment: Seq<char>| dash_units(segment)))
}

proof fn lemma_dash_joined_covers(runs: Seq<Seq<char>>)
    ensures
        concat(dash_joined(runs.map_values(|run: Seq<char>| whole_run(run)))) == joined(
            runs,
            '-',
        ),
    decreases runs.len(),
{
    let parts = runs.map_values(|run: Seq<char>| whole_run(run));
    if runs.len() == 1 {
        if runs[0].len() > 0 {
            lemma_concat_one(runs[0]);
        }
    } else if runs.len() > 1 {
        let before = runs.drop_last();
        assert(parts.drop_last() =~= before.map_values(|run: Seq<char>| whole_run(run)));
        lemma_dash_joined_covers(before);
        let head = dash_joined(parts.drop_last());
        assert(head.push(dash_unit()) =~= head + seq![dash_unit()]);
        lemma_concat_append(head, seq![dash_unit()]);
        lemma_concat_one(dash_unit());
        lemma_concat_append(head.push(dash_unit()), parts.last());
        if runs.last().len() > 0 {
            lemma_concat_one(runs.last());
        }
    }
}

/// Cutting at the dashes drops and repeats nothing: the units of a segment,
/// written one after another, are the segment.
pub proof fn lemma_dash_units_cover(s: Seq<char>)
    ensures
        concat(dash_units(s)) == s,
{
    lemma_dash_joined_covers(split(s, '-'));
    crate::text::lemma_split_joined(s, '-');
}

proof fn lemma_chained_covers(segments: Seq<Seq<char>>)
    ensures
        concat(chained(segments.map_values(|segment: Seq<char>| dash_units(segment)))) == concat(
            segments,
        ),
    decreases segments.len(),
{
    let parts = segments.map_values(|segment: Seq<char>| dash_units(segment));
    if segments.len() > 0 {
        assert(parts.drop_last() =~= segments.drop_last().map_values(
            |segment: Seq<char>| dash_units(segment),
        ));
        lemma_chained_covers(segments.drop_last());
        lemma_concat_append(chained(parts.drop_last()), parts.last());
        lemma_dash_units_cover(segments.last());
    }
}

/// Cutting by hand drops nothing but the backticks: the units of a token,
/// written one after another, are the segments between its backticks,
/// written one after another.
pub proof fn lemma_manual_units_cover(t: Seq<char>)
    ensures
        concat(manual_units(t)) == concat(split(t, '`')),
{
    lemma_chained_covers(split(t, '`'));
}

fn push_dash(units: &mut Vec<String>)
    ensures
        texts_of(final(units)@) == texts_of(old(units)@).push(dash_unit()),
{
    let mut d: Vec<char> = Vec::new();
    d.push('-');
    let unit = string_of(&d);
    units.push(unit);
}

fn dash_units_of(v: &Vec<char>) -> (units: Vec<String>)
    ensures
        texts_of(units@) == dash_units(v@),
{
    let runs = split_chars(v, '-');
    let ghost parts = split(v@, '-').map_values(|run: Seq<char>| whole_run(run));
    let mut units: Vec<String> = Vec::new();
    let mut k: usize = 0;
    while k < runs.len()
        invariant
            k <= runs.len(),
            rows_of(runs@) == split(v@, '-'),
            parts == split(v@, '-').map_values(|run: Seq<char>| whole_run(run)),
            texts_of(units@) == dash_joined(parts.take(k as int)),
        decreases runs.len() - k,
    {
        proof {
            assert(parts.take(k + 1).drop_last() =~= parts.take(k as int));
        }
        if k > 0 {
            push_dash(&mut units);
        }
        if runs[k].len() > 0 {
            let unit = string_of(&runs[k]);
            units.push(unit);
        }
        k += 1;
    }
    assert(parts.take(runs.len() as int) =~= parts);
    units
}

/// Cuts a segment at its dashes.
pub fn split_on_dashes(segment: &str) -> (units: Vec<String>)
    ensures
        texts_of(units@) == dash_units(segment@),
{
    dash_units_of(&chars_of(segment))
}

/// Cuts a token at its backticks, and each segment at its dashes.
pub fn parse_with_backticks(token: &str) -> (units: Vec<String>)
    ensures
        texts_of(units@) == manual_units(token@),
{
    let v = chars_of(token);
    let segments = split_chars(&v, '`');
    let ghost parts = split(v@, '`').map_values(|segment: Seq<char>| dash_units(segment));
    let mut units: Vec<String> = Vec::new();
    let mut k: usize = 0;
    while k < segments.len()
        invariant
            k <= segments.len(),
            rows_of(segments@) == split(v@, '`'),
            parts == split(v@, '`').map_values(|segment: Seq<char>| dash_units(segment)),
            texts_of(units@) == chained(parts.take(k as int)),
        decreases segments.len() - k,
    {
        proof {
            assert(parts.take(k + 1).drop_last() =~= parts.take(k as int));
        }
        let tail = dash_units_of(&segments[k]);
        extend_texts(&mut units, &tail);
        k += 1;
    }
    assert(parts.take(segments.len() as int) =~= parts);
    units
}

/// The characters of an optional string slice.
pub open spec fn hint_text(language: Option<&str>) -> Option<Seq<char>> {
    match language {
        Some(l) => Some(l@),
        None => None,
    }
}

/// The native script that a language hint selects.
pub open spec fn spec_target_script(language: Option<Seq<char>>) -> Seq<char> {
    if language == Some("telugu"@) {
        "telugu"@
    } else if language == Some("tamil"@) {
        "tamil"@
    } else {
        "devanagari"@
    }
}

pub fn target_script(language: Option<&str>) -> (script: &'static str)
    ensures
        script@ == spec_target_script(hint_text(language)),
{
    match language {
        Some(l) => {
            let hint = chars_of(l);
            if spells(&hint, "telugu") {
                "telugu"
            } else if spells(&hint, "tamil") {
                "tamil"
            } else {
                "devanagari"
            }
        },
        None => "devanagari",
    }
}

/// The syllables of a run, given what the transliterator returned: whether
/// it wrote the run in the native script, and what it wrote back for each
/// grapheme cluster. Where anything failed, the vowel heuristic decides.
pub open spec fn round_trip_syllables(
    run: Seq<char>,
    native: bool,
    back: Seq<Option<Seq<char>>>,
) -> Seq<Seq<char>> {
    if native && (forall|i: int| 0 <= i < back.len() ==> (#[trigger] back[i]).is_some()) {
        Seq::new(back.len(), |i: int| back[i].unwrap())
    } else {
        vowel_syllables(run)
    }
}

/// Coverage where the transliterator fails: the run is cut by the vowel
/// heuristic, so there is at least one syllable, and the syllables written
/// one after another are the run.
pub proof fn lemma_fallback_covers(run: Seq<char>, native: bool, back: Seq<Option<Seq<char>>>)
    requires
        !native || exists|i: int| 0 <= i < back.len() && (#[trigger] back[i]).is_none(),
    ensures
        round_trip_syllables(run, native, back).len() > 0,
        concat(round_trip_syllables(run, native, back)) == run,
{
    lemma_vowel_syllables_cover(run);
}

/// The characters of each optional string.
pub open spec fn opt_texts_of(v: Seq<Option<String>>) -> Seq<Option<Seq<char>>> {
    Seq::new(
        v.len(),
        |i: int|
            match v[i] {
                Some(s) => Some(s@),
                None => None,
            },
    )
}

/// Chooses between the two ways to cut a run: the clusters that came back
/// from the native script, or, where the transliterator failed, the vowel
/// heuristic.
pub fn resolve_round_trip(run: &str, native: bool, back: &Vec<Option<String>>) -> (units: Vec<
    String,
>)
    ensures
        texts_of(units@) == round_trip_syllables(run@, native, opt_texts_of(back@)),
{
    if !native {
        return parse_vowel_based(run);
    }
    let mut units: Vec<String> = Vec::new();
    let mut i: usize = 0;
    while i < back.len()
        invariant
            i <= back.len(),
            forall|k: int| 0 <= k < i ==> (#[trigger] opt_texts_of(back@)[k]).is_some(),
            texts_of(units@) == Seq::new(i as nat, |k: int| opt_texts_of(back@)[k].unwrap()),
        decreases back.len() - i,
    {
        match &back[i] {
            Some(s) => {
                let unit = s.clone();
                let ghost before = texts_of(units@);
                units.push(unit);
                assert(texts_of(units@) =~= before.push(s@));
            },
            None => {
                assert(opt_texts_of(back@)[i as int].is_none());
                return parse_vowel_based(run);
            },
        }
        i += 1;
    }
    units
}

/// Whether `units` can be the syllables of a run that is not empty. Either
/// the transliterator wrote the run in a native script and wrote each
/// grapheme cluster of that text back, and there is one syllable for each
/// cluster; or it failed on the way, and the syllables are those of the
/// vowel heuristic.
pub open spec fn possible_syllables(run: Seq<char>, units: Seq<Seq<char>>) -> bool {
    ||| units == vowel_syllables(run)
    ||| exists|native: Seq<char>| units.len() == (#[trigger] grapheme_clusters(native)).len()
}

/// Cuts a run without dashes into syllables through the native script: one
/// syllable for each grapheme cluster of the run as the transliterator wrote
/// it, or the syllables of the vowel heuristic where the transliterator
/// failed. The empty run has none.
fn syllabify_segment(run: &Vec<char>, language: Option<&str>) -> (units: Vec<String>)
    ensures
        run@.len() == 0 ==> units@.len() == 0,
        run@.len() > 0 ==> possible_syllables(run@, texts_of(units@)),
{
    if run.len() == 0 {
        return Vec::new();
    }
    let text = string_of(run);
    let engine = new_transliterator();
    let script = target_script(language);
    match transliterate(&engine, text.as_str(), "iso", script) {
        Some(native) => {
            let clusters = graphemes(native.as_str());
            let mut back: Vec<Option<String>> = Vec::new();
            let mut failed = false;
            let mut i: usize = 0;
            while i < clusters.len() && !failed
                invariant
                    i <= clusters.len(),
                    back@.len() == i,
                    failed ==> i > 0 && back@[i - 1].is_none(),
                    !failed ==> forall|k: int| 0 <= k < i ==> (#[trigger] back@[k]).is_some(),
                decreases clusters.len() - i,
            {
                let syllable = transliterate(&engine, clusters[i].as_str(), script, "iso");
                failed = syllable.is_none();
                back.push(syllable);
                i += 1;
            }
            let units = resolve_round_trip(text.as_str(), true, &back);
            proof {
                let answers = opt_texts_of(back@);
                if failed {
                    assert(answers[i - 1].is_none());
                } else {
                    assert forall|k: int| 0 <= k < answers.len() implies (
                    #[trigger] answers[k]).is_some() by {
                        assert(back@[k].is_some());
                    }
                    assert(texts_of(units@).len() == grapheme_clusters(native@).len());
                }
            }
            units
        },
        None => resolve_round_trip(text.as_str(), false, &Vec::new()),
    }
}

/// Whether `parts` can be what automatic syllabification makes of the runs
/// between the dashes of `t`: one list for each run, and none for an empty
/// run.
pub open spec fn fits_runs(t: Seq<char>, parts: Seq<Seq<Seq<char>>>) -> bool {
    &&& parts.len() == split(t, '-').len()
    &&& forall|k: int|
        0 <= k < parts.len() && (#[trigger] split(t, '-')[k]).len() == 0 ==> parts[k].len() == 0
}

/// Whether `units` can be the units of the lyric token `t`. A token with a
/// backtick has the units that its author marked. For any other token the
/// dashes are units of their own, and between them stand the syllables of
/// each run, of which nothing is fixed here.
pub open spec fn possible_units(t: Seq<char>, units: Seq<Seq<char>>) -> bool {
    if t.contains('`') {
        units == manual_units(t)
    } else {
        exists|parts: Seq<Seq<Seq<char>>>| fits_runs(t, parts) && units == dash_joined(parts)
    }
}

/// Whether the units of a token are fixed by the token alone: it carries a
/// backtick, or it is made of dashes only.
pub open spec fn cut_by_marks(t: Seq<char>) -> bool {
    t.contains('`') || forall|i: int| 0 <= i < t.len() ==> t[i] == '-'
}

proof fn lemma_dashes_split_empty(s: Seq<char>, i: int)
    requires
        0 <= i <= s.len(),
        forall|k: int| 0 <= k < s.len() ==> s[k] == '-',
    ensures
        forall|k: int|
            0 <= k < crate::text::split_from(s, '-', i, i).len() ==> (
            #[trigger] crate::text::split_from(s, '-', i, i)[k]).len() == 0,
    decreases s.len() - i,
{
    if i < s.len() {
        lemma_dashes_split_empty(s, i + 1);
        let rest = crate::text::split_from(s, '-', i + 1, i + 1);
        let all = seq![s.subrange(i, i)] + rest;
    }
}

/// The units of a token that carries a backtick, or that is made of dashes
/// only, are fixed by the token: no two cuts of it differ.
pub proof fn lemma_marked_units_fixed(t: Seq<char>, a: Seq<Seq<char>>, b: Seq<Seq<char>>)
    requires
        cut_by_marks(t),
        possible_units(t, a),
        possible_units(t, b),
    ensures
        a == b,
{
    if !t.contains('`') {
        let pa = choose|parts: Seq<Seq<Seq<char>>>| fits_runs(t, parts) && a == dash_joined(parts);
        let pb = choose|parts: Seq<Seq<Seq<char>>>| fits_runs(t, parts) && b == dash_joined(parts);
        lemma_dashes_split_empty(t, 0);
        assert forall|k: int| 0 <= k < pa.len() implies pa[k] == pb[k] by {
            assert(split(t, '-')[k].len() == 0);
        }
        assert(pa =~= pb);
    }
}

/// Cuts a token without backticks into units: each dash is one, and each run
/// between dashes is cut into syllables.
pub fn parse_automatic_with_shlesha(token: &str, language: Option<&str>) -> (units: Vec<String>)
    ensures
        exists|parts: Seq<Seq<Seq<char>>>|
            fits_runs(token@, parts) && texts_of(units@) == dash_joined(parts),
{
    let v = chars_of(token);
    let runs = split_chars(&v, '-');
    let ghost mut parts: Seq<Seq<Seq<char>>> = Seq::empty();
    let mut units: Vec<String> = Vec::new();
    let mut k: usize = 0;
    while k < runs.len()
        invariant
            k <= runs.len(),
            rows_of(runs@) == split(v@, '-'),
            parts.len() == k,
            forall|j: int|
                0 <= j < k && (#[trigger] split(v@, '-')[j]).len() == 0 ==> parts[j].len() == 0,
            texts_of(units@) == dash_joined(parts),
        decreases runs.len() - k,
    {
        if k > 0 {
            push_dash(&mut units);
        }
        let tail = syllabify_segment(&runs[k], language);
        proof {
            let next = parts.push(texts_of(tail@));
            assert(next.drop_last() =~= parts);
            parts = next;
        }
        extend_texts(&mut units, &tail);
        k += 1;
    }
    units
}

/// The units of a lyric token, with a hint at the language of the lyric. A
/// backtick anywhere in the token switches automatic syllabification off for
/// the whole token, whatever the hint.
pub fn parse_sahitya_token_with_lang(token: &str, language: Option<&str>) -> (units: Vec<String>)
    ensures
        possible_units(token@, texts_of(units@)),
        token@.contains('`') ==> texts_of(units@) == manual_units(token@),
{
    let v = chars_of(token);
    if crate::text::contains_char(&v, '`') {
        parse_with_backticks(token)
    } else {
        parse_automatic_with_shlesha(token, language)
    }
}

/// The units of a lyric token, without a language hint.
pub fn parse_sahitya_token(token: &str) -> (units: Vec<String>)
    ensures
        possible_units(token@, texts_of(units@)),
        token@.contains('`') ==> texts_of(units@) == manual_units(token@),
{
    parse_sahitya_token_with_lang(token, None)
}

} // verus!
