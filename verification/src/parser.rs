//! The document parser: a single forward pass over the lines of a text.
//!
//! The grammar is stated as spec functions over the lines of the text, each
//! without its leading and trailing whitespace; the executable functions
//! are proved to compute exactly what those state.

use crate::text::{
    append_chars, chained, chars_of, contains_char, decimal, ends_with, extend_texts, has_prefix,
    has_suffix, join_rows, joined, lines, push_decimal, push_text, parse_unsigned, rows_of,
    same_chars, slice_of, split, split_chars, split_lines, split_words, starts_with, string_of,
    strings_of, strip_char, stripped, texts_of, trim, trimmed, unsigned_of, words,
};
use crate::types::{
    views, Comment, CommentType, CommentView, DocumentView, Metadata, MetadataView, ParseError,
    ParseErrorKind, ParseErrorView, Phrase, PhraseView, Section, SectionView, VnaDocument,
};
use crate::yaml::{
    decode_flat_map, decoded_view, metadata_from_fields, metadata_of, yaml_flat_map, Field,
    FieldView,
};
use vstd::prelude::*;

verus! {

// ---------------------------------------------------------------------
// Lines
// ---------------------------------------------------------------------
/// Each line without its leading and trailing whitespace.
pub open spec fn trimmed_lines(ls: Seq<Seq<char>>) -> Seq<Seq<char>> {
    Seq::new(ls.len(), |i: int| trimmed(ls[i]))
}

/// Whether a trimmed line is a frontmatter delimiter.
pub open spec fn is_delimiter(t: Seq<char>) -> bool {
    t == "---"@
}

/// Whether a trimmed line is a comment.
pub open spec fn is_comment(t: Seq<char>) -> bool {
    t.len() > 0 && t[0] == '#'
}

/// Whether a trimmed line is a section header: wrapped in square brackets.
pub open spec fn is_header(t: Seq<char>) -> bool {
    t.len() > 0 && t[0] == '[' && t.last() == ']'
}

/// The name between the brackets of a section header.
pub open spec fn header_name(t: Seq<char>) -> Seq<char> {
    if t.len() >= 2 {
        t.subrange(1, t.len() - 1)
    } else {
        Seq::empty()
    }
}

/// The comment that the trimmed line `t`, at index `i`, holds.
pub open spec fn comment_at(t: Seq<char>, i: int) -> CommentView {
    CommentView {
        text: trimmed(t.skip(1)),
        line_number: (i + 1) as usize,
        comment_type: CommentType::Line,
    }
}

pub open spec fn is_gati_line(t: Seq<char>) -> bool {
    has_prefix(t, "@gati:"@)
}

pub open spec fn is_tala_line(t: Seq<char>) -> bool {
    has_prefix(t, "@tala:"@)
}

/// The text after the colon of a `@gati:` line.
pub open spec fn gati_text(t: Seq<char>) -> Seq<char> {
    trimmed(t.skip("@gati:"@.len() as int))
}

/// The value of a `@gati:` line: a decimal numeral from 1 to 255.
pub open spec fn gati_value(t: Seq<char>) -> Option<u8> {
    match unsigned_of(gati_text(t), 255) {
        Some(n) => if n > 0 {
            Some(n as u8)
        } else {
            None
        },
        None => None,
    }
}

/// The pattern of a `@tala:` line: the text after the colon, without the
/// double quotes around it.
pub open spec fn tala_value(t: Seq<char>) -> Seq<char> {
    stripped(trimmed(t.skip("@tala:"@.len() as int)), '"')
}

pub open spec fn is_analysis_line(t: Seq<char>) -> bool {
    has_prefix(t, "phrases = "@)
}

pub open spec fn analysis_text(t: Seq<char>) -> Seq<char> {
    t.skip("phrases = "@.len() as int)
}

// ---------------------------------------------------------------------
// Errors
// ---------------------------------------------------------------------
pub open spec fn failure(kind: ParseErrorKind, line: int, message: Seq<char>) -> ParseErrorView {
    ParseErrorView { kind, line: line as usize, message }
}

pub open spec fn missing_frontmatter(line: int) -> ParseErrorView {
    failure(
        ParseErrorKind::MissingFrontmatter,
        line,
        "Missing YAML frontmatter at start of file"@,
    )
}

pub open spec fn empty_frontmatter(line: int) -> ParseErrorView {
    failure(ParseErrorKind::EmptyFrontmatter, line, "Empty YAML frontmatter"@)
}

pub open spec fn malformed_metadata(line: int, detail: Seq<char>) -> ParseErrorView {
    failure(ParseErrorKind::MalformedMetadata, line, "Invalid YAML metadata: "@ + detail)
}

pub open spec fn missing_required(line: int, field: Seq<char>) -> ParseErrorView {
    failure(ParseErrorKind::MissingRequiredField, line, "Missing required field: "@ + field)
}

pub open spec fn unexpected_content(line: int, t: Seq<char>) -> ParseErrorView {
    failure(
        ParseErrorKind::UnexpectedContent,
        line,
        "Unexpected content at line "@ + decimal(line as nat) + ": "@ + t,
    )
}

pub open spec fn unexpected_in_section(name: Seq<char>, line: int, t: Seq<char>) -> ParseErrorView {
    failure(
        ParseErrorKind::UnexpectedContent,
        line,
        "Unexpected content in section '"@ + name + "' at line "@ + decimal(line as nat) + ": "@
            + t,
    )
}

pub open spec fn invalid_gati(line: int, text: Seq<char>) -> ParseErrorView {
    failure(
        ParseErrorKind::InvalidGati,
        line,
        "Invalid gati value at line "@ + decimal(line as nat) + ": "@ + text,
    )
}

pub open spec fn incomplete_phrase(line: int) -> ParseErrorView {
    failure(
        ParseErrorKind::IncompletePhrase,
        line,
        "Incomplete phrase at line "@ + decimal(line as nat)
            + " - need at least 2 lines (swara, sahitya)"@,
    )
}

pub open spec fn missing_beats(which: Seq<char>, line: int) -> ParseErrorView {
    failure(
        ParseErrorKind::MissingBeatMarkers,
        line,
        "Invalid "@ + which + " line at "@ + decimal(line as nat) + ": missing beat markers"@,
    )
}

pub open spec fn beat_misalignment(line: int) -> ParseErrorView {
    failure(
        ParseErrorKind::BeatMisalignment,
        line,
        "Beat markers misaligned between swara and sahitya lines at line "@ + decimal(
            line as nat,
        ),
    )
}

fn fail(kind: ParseErrorKind, line: usize, message: &Vec<char>) -> (e: ParseError)
    ensures
        e@ == failure(kind, line as int, message@),
{
    ParseError { kind, line, message: string_of(message) }
}

fn fail_missing_frontmatter(line: usize) -> (e: ParseError)
    ensures
        e@ == missing_frontmatter(line as int),
{
    fail(
        ParseErrorKind::MissingFrontmatter,
        line,
        &chars_of("Missing YAML frontmatter at start of file"),
    )
}

fn fail_empty_frontmatter(line: usize) -> (e: ParseError)
    ensures
        e@ == empty_frontmatter(line as int),
{
    fail(ParseErrorKind::EmptyFrontmatter, line, &chars_of("Empty YAML frontmatter"))
}

fn fail_malformed_metadata(line: usize, detail: &str) -> (e: ParseError)
    ensures
        e@ == malformed_metadata(line as int, detail@),
{
    let mut m: Vec<char> = Vec::new();
    push_text(&mut m, "Invalid YAML metadata: ");
    push_text(&mut m, detail);
    fail(ParseErrorKind::MalformedMetadata, line, &m)
}

fn fail_missing_required(line: usize, field: &str) -> (e: ParseError)
    ensures
        e@ == missing_required(line as int, field@),
{
    let mut m: Vec<char> = Vec::new();
    push_text(&mut m, "Missing required field: ");
    push_text(&mut m, field);
    fail(ParseErrorKind::MissingRequiredField, line, &m)
}

fn fail_unexpected_content(line: usize, t: &Vec<char>) -> (e: ParseError)
    ensures
        e@ == unexpected_content(line as int, t@),
{
    let mut m: Vec<char> = Vec::new();
    push_text(&mut m, "Unexpected content at line ");
    push_decimal(&mut m, line as u64);
    push_text(&mut m, ": ");
    append_chars(&mut m, t);
    fail(ParseErrorKind::UnexpectedContent, line, &m)
}

fn fail_unexpected_in_section(name: &Vec<char>, line: usize, t: &Vec<char>) -> (e: ParseError)
    ensures
        e@ == unexpected_in_section(name@, line as int, t@),
{
    let mut m: Vec<char> = Vec::new();
    push_text(&mut m, "Unexpected content in section '");
    append_chars(&mut m, name);
    push_text(&mut m, "' at line ");
    push_decimal(&mut m, line as u64);
    push_text(&mut m, ": ");
    append_chars(&mut m, t);
    fail(ParseErrorKind::UnexpectedContent, line, &m)
}

fn fail_invalid_gati(line: usize, text: &Vec<char>) -> (e: ParseError)
    ensures
        e@ == invalid_gati(line as int, text@),
{
    let mut m: Vec<char> = Vec::new();
    push_text(&mut m, "Invalid gati value at line ");
    push_decimal(&mut m, line as u64);
    push_text(&mut m, ": ");
    append_chars(&mut m, text);
    fail(ParseErrorKind::InvalidGati, line, &m)
}

fn fail_incomplete_phrase(line: usize) -> (e: ParseError)
    ensures
        e@ == incomplete_phrase(line as int),
{
    let mut m: Vec<char> = Vec::new();
    push_text(&mut m, "Incomplete phrase at line ");
    push_decimal(&mut m, line as u64);
    push_text(&mut m, " - need at least 2 lines (swara, sahitya)");
    fail(ParseErrorKind::IncompletePhrase, line, &m)
}

fn fail_missing_beats(which: &str, line: usize) -> (e: ParseError)
    ensures
        e@ == missing_beats(which@, line as int),
{
    let mut m: Vec<char> = Vec::new();
    push_text(&mut m, "Invalid ");
    push_text(&mut m, which);
    push_text(&mut m, " line at ");
    push_decimal(&mut m, line as u64);
    push_text(&mut m, ": missing beat markers");
    fail(ParseErrorKind::MissingBeatMarkers, line, &m)
}

fn fail_beat_misalignment(line: usize) -> (e: ParseError)
    ensures
        e@ == beat_misalignment(line as int),
{
    let mut m: Vec<char> = Vec::new();
    push_text(&mut m, "Beat markers misaligned between swara and sahitya lines at line ");
    push_decimal(&mut m, line as u64);
    fail(ParseErrorKind::BeatMisalignment, line, &m)
}

// ---------------------------------------------------------------------
// Notation lines
// ---------------------------------------------------------------------
/// A notation line without the phrase-end marker at its end.
pub open spec fn without_end_marker(t: Seq<char>) -> Seq<char> {
    if has_suffix(t, "||"@) {
        trimmed(t.take(t.len() - "||"@.len()))
    } else {
        trimmed(t)
    }
}

/// The tokens of each beat of a notation line.
pub open spec fn beat_tokens(t: Seq<char>) -> Seq<Seq<Seq<char>>> {
    split(without_end_marker(t), '|').map_values(|beat: Seq<char>| words(beat))
}

/// The tokens of a notation line, in order.
pub open spec fn notation_tokens(t: Seq<char>) -> Seq<Seq<char>> {
    chained(beat_tokens(t))
}

/// The beat boundaries behind the first `k` beats: for each, the number of
/// tokens before it, unless that is none.
pub open spec fn marks_upto(beats: Seq<Seq<Seq<char>>>, k: int) -> Seq<usize>
    decreases k,
{
    if k <= 0 {
        Seq::empty()
    } else {
        let count = chained(beats.take(k)).len();
        if count > 0 {
            marks_upto(beats, k - 1).push(count as usize)
        } else {
            marks_upto(beats, k - 1)
        }
    }
}

/// The beat positions of a notation line: the running number of tokens at
/// each beat boundary but the last.
pub open spec fn beat_marks(t: Seq<char>) -> Seq<usize> {
    marks_upto(beat_tokens(t), beat_tokens(t).len() - 1)
}

fn notation_of(line: &Vec<char>) -> (r: (Vec<String>, Vec<usize>))
    ensures
        texts_of(r.0@) == notation_tokens(line@),
        r.1@ == beat_marks(line@),
{
    let marker = chars_of("||");
    let clean = if ends_with(line, &marker) {
        trim(&slice_of(line, 0, line.len() - marker.len()))
    } else {
        trim(line)
    };
    let beats = split_chars(&clean, '|');
    let ghost bt = beat_tokens(line@);
    let n = beats.len();
    let mut tokens: Vec<String> = Vec::new();
    let mut marks: Vec<usize> = Vec::new();
    let mut k: usize = 0;
    while k < n
        invariant
            k <= n == beats.len(),
            rows_of(beats@) == split(clean@, '|'),
            bt == split(clean@, '|').map_values(|beat: Seq<char>| words(beat)),
            bt.len() == n,
            texts_of(tokens@) == chained(bt.take(k as int)),
            marks@ == marks_upto(bt, if k < n { k as int } else { n - 1 }),
        decreases n - k,
    {
        let found = split_words(&beats[k]);
        let found_texts = strings_of(&found);
        proof {
            assert(bt.take(k + 1).drop_last() =~= bt.take(k as int));
        }
        extend_texts(&mut tokens, &found_texts);
        if k + 1 < n && tokens.len() > 0 {
            marks.push(tokens.len());
        }
        k += 1;
    }
    assert(bt.take(n as int) =~= bt);
    (tokens, marks)
}

/// Tokenizes a notation line and records its beat positions.
pub fn parse_notation_line_with_beats(line: &str) -> (r: (Vec<String>, Vec<usize>))
    ensures
        texts_of(r.0@) == notation_tokens(line@),
        r.1@ == beat_marks(line@),
{
    notation_of(&chars_of(line))
}

/// The tokens of a notation line.
pub fn parse_notation_line(line: &str) -> (tokens: Vec<String>)
    ensures
        texts_of(tokens@) == notation_tokens(line@),
{
    parse_notation_line_with_beats(line).0
}

// ---------------------------------------------------------------------
// Phrases
// ---------------------------------------------------------------------
/// The index behind the annotation lines that start at `i`, with the
/// overrides that they set.
pub open spec fn annotations(ts: Seq<Seq<char>>, i: int, gati: Option<u8>, tala: Option<Seq<char>>)
    -> Result<(int, Option<u8>, Option<Seq<char>>), ParseErrorView>
    decreases ts.len() - i,
{
    if 0 <= i < ts.len() && is_gati_line(ts[i]) {
        match gati_value(ts[i]) {
            Some(g) => annotations(ts, i + 1, Some(g), tala),
            None => Err(invalid_gati(i + 1, gati_text(ts[i]))),
        }
    } else if 0 <= i < ts.len() && is_tala_line(ts[i]) {
        annotations(ts, i + 1, gati, Some(tala_value(ts[i])))
    } else {
        Ok((i, gati, tala))
    }
}

proof fn lemma_annotations_advance(
    ts: Seq<Seq<char>>,
    i: int,
    gati: Option<u8>,
    tala: Option<Seq<char>>,
)
    requires
        0 <= i <= ts.len(),
    ensures
        annotations(ts, i, gati, tala) matches Ok(found) ==> i <= found.0 <= ts.len(),
    decreases ts.len() - i,
{
    if i < ts.len() && is_gati_line(ts[i]) {
        match gati_value(ts[i]) {
            Some(g) => lemma_annotations_advance(ts, i + 1, Some(g), tala),
            None => {},
        }
    } else if i < ts.len() && is_tala_line(ts[i]) {
        lemma_annotations_advance(ts, i + 1, gati, Some(tala_value(ts[i])));
    }
}

/// The phrase whose melodic line is at `j`, with the overrides given, for a
/// phrase that started at `start`; and the index behind it.
pub open spec fn phrase_lines(
    ts: Seq<Seq<char>>,
    start: int,
    j: int,
    gati: Option<u8>,
    tala: Option<Seq<char>>,
) -> Result<(PhraseView, int), ParseErrorView> {
    if j + 1 >= ts.len() {
        Err(incomplete_phrase(start + 1))
    } else if !ts[j].contains('|') {
        Err(missing_beats("swara"@, j + 1))
    } else if !ts[j + 1].contains('|') {
        Err(missing_beats("sahitya"@, j + 2))
    } else if beat_marks(ts[j]) != beat_marks(ts[j + 1]) {
        Err(beat_misalignment(start + 1))
    } else {
        let analysed = j + 2 < ts.len() && is_analysis_line(ts[j + 2]);
        Ok(
            (
                PhraseView {
                    swaras: notation_tokens(ts[j]),
                    sahitya: notation_tokens(ts[j + 1]),
                    phrase_analysis: if analysed {
                        Some(analysis_text(ts[j + 2]))
                    } else {
                        None
                    },
                    line_number: (start + 1) as usize,
                    preceding_comments: Seq::empty(),
                    gati,
                    tala,
                    beat_positions: beat_marks(ts[j]),
                },
                if analysed {
                    j + 3
                } else {
                    j + 2
                },
            ),
        )
    }
}

/// The phrase that starts at line `start`: annotation lines, a melodic
/// line, a lyric line, and an analysis line if one follows; and the index
/// behind it.
pub open spec fn phrase_at(ts: Seq<Seq<char>>, start: int) -> Result<
    (PhraseView, int),
    ParseErrorView,
> {
    match annotations(ts, start, None, None) {
        Ok((j, gati, tala)) => phrase_lines(ts, start, j, gati, tala),
        Err(e) => Err(e),
    }
}

fn gati_of_line(t: &Vec<char>, line: usize) -> (r: Result<u8, ParseError>)
    requires
        is_gati_line(t@),
    ensures
        match r {
            Ok(g) => gati_value(t@) == Some(g),
            Err(e) => gati_value(t@).is_none() && e@ == invalid_gati(line as int, gati_text(t@)),
        },
{
    let prefix = chars_of("@gati:");
    let text = trim(&slice_of(t, prefix.len(), t.len()));
    match parse_unsigned(&text, 255) {
        Some(n) => {
            if n > 0 {
                Ok(n as u8)
            } else {
                Err(fail_invalid_gati(line, &text))
            }
        },
        None => Err(fail_invalid_gati(line, &text)),
    }
}

fn tala_of_line(t: &Vec<char>) -> (r: String)
    requires
        is_tala_line(t@),
    ensures
        r@ == tala_value(t@),
{
    let prefix = chars_of("@tala:");
    let text = trim(&slice_of(t, prefix.len(), t.len()));
    string_of(&strip_char(&text, '"'))
}

fn is_gati(t: &Vec<char>) -> (r: bool)
    ensures
        r == is_gati_line(t@),
{
    starts_with(t, &chars_of("@gati:"))
}

fn is_tala(t: &Vec<char>) -> (r: bool)
    ensures
        r == is_tala_line(t@),
{
    starts_with(t, &chars_of("@tala:"))
}

/// Whether two lists of positions are the same.
fn same_marks(a: &Vec<usize>, b: &Vec<usize>) -> (r: bool)
    ensures
        r == (a@ == b@),
{
    if a.len() != b.len() {
        return false;
    }
    let mut i: usize = 0;
    while i < a.len()
        invariant
            i <= a.len(),
            a.len() == b.len(),
            forall|k: int| 0 <= k < i ==> a@[k] == b@[k],
        decreases a.len() - i,
    {
        if a[i] != b[i] {
            return false;
        }
        i += 1;
    }
    assert(a@ =~= b@);
    true
}

/// Parses the phrase that starts at line `start` of the trimmed lines.
fn parse_phrase(ts: &Vec<Vec<char>>, start: usize) -> (r: Result<(Phrase, usize), ParseError>)
    requires
        start < ts.len(),
    ensures
        match r {
            Ok((p, next)) => phrase_at(rows_of(ts@), start as int) == Ok::<
                (PhraseView, int),
                ParseErrorView,
            >((p@, next as int)) && start < next <= ts.len(),
            Err(e) => phrase_at(rows_of(ts@), start as int) == Err::<
                (PhraseView, int),
                ParseErrorView,
            >(e@),
        },
{
    let ghost rows = rows_of(ts@);
    let n = ts.len();
    let mut gati: Option<u8> = None;
    let mut tala: Option<String> = None;
    let mut j: usize = start;
    loop
        invariant_except_break
            start <= j <= n == ts.len(),
            rows == rows_of(ts@),
            annotations(rows, start as int, None, None) == annotations(
                rows,
                j as int,
                gati,
                crate::types::opt_text(tala),
            ),
        ensures
            start <= j <= n == ts.len(),
            rows == rows_of(ts@),
            annotations(rows, start as int, None, None) == Ok::<
                (int, Option<u8>, Option<Seq<char>>),
                ParseErrorView,
            >((j as int, gati, crate::types::opt_text(tala))),
        decreases n - j,
    {
        if j >= n {
            break ;
        }
        if is_gati(&ts[j]) {
            match gati_of_line(&ts[j], j + 1) {
                Ok(g) => {
                    gati = Some(g);
                },
                Err(e) => {
                    return Err(e);
                },
            }
            j += 1;
        } else if is_tala(&ts[j]) {
            tala = Some(tala_of_line(&ts[j]));
            j += 1;
        } else {
            break ;
        }
    }
    if n - j < 2 {
        return Err(fail_incomplete_phrase(start + 1));
    }
    if !contains_char(&ts[j], '|') {
        return Err(fail_missing_beats("swara", j + 1));
    }
    if !contains_char(&ts[j + 1], '|') {
        return Err(fail_missing_beats("sahitya", j + 2));
    }
    let (swaras, swara_beats) = notation_of(&ts[j]);
    let (sahitya, sahitya_beats) = notation_of(&ts[j + 1]);
    let mut next: usize = j + 2;
    let mut phrase_analysis: Option<String> = None;
    if next < n {
        let prefix = chars_of("phrases = ");
        if starts_with(&ts[next], &prefix) {
            phrase_analysis = Some(string_of(&slice_of(&ts[next], prefix.len(), ts[next].len())));
            next += 1;
        }
    }
    if !same_marks(&swara_beats, &sahitya_beats) {
        return Err(fail_beat_misalignment(start + 1));
    }
    let phrase = Phrase {
        swaras,
        sahitya,
        phrase_analysis,
        line_number: start + 1,
        preceding_comments: Vec::new(),
        gati,
        tala,
        beat_positions: swara_beats,
    };
    proof {
        assert(views(phrase.preceding_comments@) =~= Seq::<CommentView>::empty());
    }
    Ok((phrase, next))
}

// ---------------------------------------------------------------------
// Sections
// ---------------------------------------------------------------------
/// A phrase with the comments that stood before it.
pub open spec fn with_comments(p: PhraseView, comments: Seq<CommentView>) -> PhraseView {
    PhraseView { preceding_comments: comments, ..p }
}

/// The section that is being read when the scan stands at line `i`: what
/// the lines from `i` on make of it, and the index of the line that ends it.
/// Comments are held back as `pending` until the next phrase takes them; at
/// the end of the section those left over are the section's own.
pub open spec fn section_scan(
    ts: Seq<Seq<char>>,
    i: int,
    name: Seq<char>,
    line_number: usize,
    phrases: Seq<PhraseView>,
    pending: Seq<CommentView>,
    gati: Option<u8>,
    tala: Option<Seq<char>>,
) -> Result<(SectionView, int), ParseErrorView>
    decreases ts.len() - i,
{
    let finished = SectionView { name, phrases, line_number, comments: pending, gati, tala };
    if i < 0 || i >= ts.len() {
        Ok((finished, i))
    } else if ts[i].len() == 0 {
        section_scan(ts, i + 1, name, line_number, phrases, pending, gati, tala)
    } else if is_comment(ts[i]) {
        section_scan(
            ts,
            i + 1,
            name,
            line_number,
            phrases,
            pending.push(comment_at(ts[i], i)),
            gati,
            tala,
        )
    } else if is_header(ts[i]) {
        Ok((finished, i))
    } else if is_gati_line(ts[i]) {
        match gati_value(ts[i]) {
            Some(g) => section_scan(
                ts,
                i + 1,
                name,
                line_number,
                phrases,
                pending,
                Some(g),
                tala,
            ),
            None => Err(invalid_gati(i + 1, gati_text(ts[i]))),
        }
    } else if is_tala_line(ts[i]) {
        section_scan(
            ts,
            i + 1,
            name,
            line_number,
            phrases,
            pending,
            gati,
            Some(tala_value(ts[i])),
        )
    } else if ts[i].contains('|') {
        match phrase_at(ts, i) {
            Ok((p, next)) => section_scan(
                ts,
                if i < next <= ts.len() {
                    next
                } else {
                    i + 1
                },
                name,
                line_number,
                phrases.push(with_comments(p, pending)),
                Seq::empty(),
                gati,
                tala,
            ),
            Err(e) => Err(e),
        }
    } else {
        Err(unexpected_in_section(name, i + 1, ts[i]))
    }
}

/// The section whose header is line `start`, and the index behind it.
pub open spec fn section_at(ts: Seq<Seq<char>>, start: int) -> Result<
    (SectionView, int),
    ParseErrorView,
> {
    section_scan(
        ts,
        start + 1,
        header_name(ts[start]),
        (start + 1) as usize,
        Seq::empty(),
        Seq::empty(),
        None,
        None,
    )
}

fn is_comment_line(t: &Vec<char>) -> (r: bool)
    ensures
        r == is_comment(t@),
{
    t.len() > 0 && t[0] == '#'
}

fn is_header_line(t: &Vec<char>) -> (r: bool)
    ensures
        r == is_header(t@),
{
    t.len() > 0 && t[0] == '[' && t[t.len() - 1] == ']'
}

fn comment_of_line(t: &Vec<char>, i: usize) -> (c: Comment)
    requires
        is_comment(t@),
        i < usize::MAX,
    ensures
        c@ == comment_at(t@, i as int),
{
    Comment {
        text: string_of(&trim(&slice_of(t, 1, t.len()))),
        line_number: i + 1,
        comment_type: CommentType::Line,
    }
}

/// Parses the section whose header is line `start` of the trimmed lines.
fn parse_section(ts: &Vec<Vec<char>>, start: usize) -> (r: Result<(Section, usize), ParseError>)
    requires
        start < ts.len(),
        is_header(ts@[start as int]@),
    ensures
        match r {
            Ok((s, next)) => section_at(rows_of(ts@), start as int) == Ok::<
                (SectionView, int),
                ParseErrorView,
            >((s@, next as int)) && start < next <= ts.len(),
            Err(e) => section_at(rows_of(ts@), start as int) == Err::<
                (SectionView, int),
                ParseErrorView,
            >(e@),
        },
{
    let ghost rows = rows_of(ts@);
    let n = ts.len();
    let header = &ts[start];
    let name_chars = slice_of(header, 1, header.len() - 1);
    let name = string_of(&name_chars);
    let line_number = start + 1;
    let mut phrases: Vec<Phrase> = Vec::new();
    let mut pending: Vec<Comment> = Vec::new();
    let mut gati: Option<u8> = None;
    let mut tala: Option<String> = None;
    let mut i: usize = start + 1;
    assert(views(phrases@) =~= Seq::<PhraseView>::empty());
    assert(views(pending@) =~= Seq::<CommentView>::empty());
    loop
        invariant_except_break
            start < i <= n == ts.len(),
            rows == rows_of(ts@),
            name@ == name_chars@,
            section_at(rows, start as int) == section_scan(
                rows,
                i as int,
                name@,
                line_number,
                views(phrases@),
                views(pending@),
                gati,
                crate::types::opt_text(tala),
            ),
        ensures
            start < i <= n == ts.len(),
            section_at(rows, start as int) == Ok::<(SectionView, int), ParseErrorView>(
                (
                    SectionView {
                        name: name@,
                        phrases: views(phrases@),
                        line_number,
                        comments: views(pending@),
                        gati,
                        tala: crate::types::opt_text(tala),
                    },
                    i as int,
                ),
            ),
        decreases n - i,
    {
        if i >= n {
            break ;
        }
        let t = &ts[i];
        if t.len() == 0 {
            i += 1;
        } else if is_comment_line(t) {
            let c = comment_of_line(t, i);
            let ghost before = views(pending@);
            pending.push(c);
            assert(views(pending@) =~= before.push(c@));
            i += 1;
        } else if is_header_line(t) {
            break ;
        } else if is_gati(t) {
            match gati_of_line(t, i + 1) {
                Ok(g) => {
                    gati = Some(g);
                },
                Err(e) => {
                    return Err(e);
                },
            }
            i += 1;
        } else if is_tala(t) {
            tala = Some(tala_of_line(t));
            i += 1;
        } else if contains_char(t, '|') {
            match parse_phrase(ts, i) {
                Ok((found, next)) => {
                    let ghost found_view = found@;
                    let ghost held = views(pending@);
                    let mut phrase = found;
                    phrase.preceding_comments = pending;
                    pending = Vec::new();
                    let ghost before = views(phrases@);
                    phrases.push(phrase);
                    assert(views(phrases@) =~= before.push(with_comments(found_view, held)));
                    assert(views(pending@) =~= Seq::<CommentView>::empty());
                    i = next;
                },
                Err(e) => {
                    return Err(e);
                },
            }
        } else {
            return Err(fail_unexpected_in_section(&name_chars, i + 1, t));
        }
    }
    let section = Section { name, phrases, line_number, comments: pending, gati, tala };
    Ok((section, i))
}

// ---------------------------------------------------------------------
// Body
// ---------------------------------------------------------------------
/// The sections and the document-level comments that the lines from `i` on
/// add to those already read.
pub open spec fn body_scan(
    ts: Seq<Seq<char>>,
    i: int,
    sections: Seq<SectionView>,
    comments: Seq<CommentView>,
) -> Result<(Seq<SectionView>, Seq<CommentView>), ParseErrorView>
    decreases ts.len() - i,
{
    if i < 0 || i >= ts.len() {
        Ok((sections, comments))
    } else if ts[i].len() == 0 {
        body_scan(ts, i + 1, sections, comments)
    } else if is_comment(ts[i]) {
        body_scan(ts, i + 1, sections, comments.push(comment_at(ts[i], i)))
    } else if is_header(ts[i]) {
        match section_at(ts, i) {
            Ok((s, next)) => body_scan(
                ts,
                if i < next <= ts.len() {
                    next
                } else {
                    i + 1
                },
                sections.push(s),
                comments,
            ),
            Err(e) => Err(e),
        }
    } else {
        Err(unexpected_content(i + 1, ts[i]))
    }
}

/// Parses the body of a document: the trimmed lines from `start` on.
fn parse_body(ts: &Vec<Vec<char>>, start: usize) -> (r: Result<
    (Vec<Section>, Vec<Comment>),
    ParseError,
>)
    requires
        start <= ts.len(),
    ensures
        match r {
            Ok((sections, comments)) => body_scan(
                rows_of(ts@),
                start as int,
                Seq::empty(),
                Seq::empty(),
            ) == Ok::<(Seq<SectionView>, Seq<CommentView>), ParseErrorView>(
                (views(sections@), views(comments@)),
            ),
            Err(e) => body_scan(rows_of(ts@), start as int, Seq::empty(), Seq::empty()) == Err::<
                (Seq<SectionView>, Seq<CommentView>),
                ParseErrorView,
            >(e@),
        },
{
    let ghost rows = rows_of(ts@);
    let n = ts.len();
    let mut sections: Vec<Section> = Vec::new();
    let mut comments: Vec<Comment> = Vec::new();
    let mut i: usize = start;
    assert(views(sections@) =~= Seq::<SectionView>::empty());
    assert(views(comments@) =~= Seq::<CommentView>::empty());
    while i < n
        invariant
            start <= i <= n == ts.len(),
            rows == rows_of(ts@),
            body_scan(rows, start as int, Seq::empty(), Seq::empty()) == body_scan(
                rows,
                i as int,
                views(sections@),
                views(comments@),
            ),
        decreases n - i,
    {
        let t = &ts[i];
        if t.len() == 0 {
            i += 1;
        } else if is_comment_line(t) {
            let c = comment_of_line(t, i);
            let ghost before = views(comments@);
            comments.push(c);
            assert(views(comments@) =~= before.push(c@));
            i += 1;
        } else if is_header_line(t) {
            match parse_section(ts, i) {
                Ok((section, next)) => {
                    let ghost before = views(sections@);
                    let ghost found = section@;
                    sections.push(section);
                    assert(views(sections@) =~= before.push(found));
                    i = next;
                },
                Err(e) => {
                    return Err(e);
                },
            }
        } else {
            return Err(fail_unexpected_content(i + 1, t));
        }
    }
    Ok((sections, comments))
}

// ---------------------------------------------------------------------
// Frontmatter
// ---------------------------------------------------------------------
/// The first index at or after `i` of a line that is not blank.
pub open spec fn first_content(ts: Seq<Seq<char>>, i: int) -> int
    decreases ts.len() - i,
{
    if 0 <= i < ts.len() && ts[i].len() == 0 {
        first_content(ts, i + 1)
    } else {
        i
    }
}

/// The first index at or after `i` of a delimiter line (the number of lines
/// if there is none).
pub open spec fn next_delimiter(ts: Seq<Seq<char>>, i: int) -> int
    decreases ts.len() - i,
{
    if 0 <= i < ts.len() && !is_delimiter(ts[i]) {
        next_delimiter(ts, i + 1)
    } else {
        i
    }
}

/// Where the metadata block of a text lies.
#[derive(Debug, Clone, PartialEq)]
pub struct Frontmatter {
    /// The index of the opening delimiter.
    pub open: usize,
    /// The lines between the delimiters, joined by line feeds.
    pub block: String,
    /// The index of the first line of the body.
    pub body: usize,
}

pub struct FrontmatterView {
    pub open: usize,
    pub block: Seq<char>,
    pub body: usize,
}

impl View for Frontmatter {
    type V = FrontmatterView;

    open spec fn view(&self) -> FrontmatterView {
        FrontmatterView { open: self.open, block: self.block@, body: self.body }
    }
}

/// The metadata block of the lines `ls`: the first line that is not blank
/// must be a delimiter; the block runs to the next delimiter, or to the end
/// of the text; it must hold at least one line.
pub open spec fn frontmatter_of(ls: Seq<Seq<char>>) -> Result<FrontmatterView, ParseErrorView> {
    let ts = trimmed_lines(ls);
    let open = first_content(ts, 0);
    if open >= ts.len() {
        Err(missing_frontmatter(1))
    } else if !is_delimiter(ts[open]) {
        Err(missing_frontmatter(open + 1))
    } else {
        let close = next_delimiter(ts, open + 1);
        if close == open + 1 {
            Err(empty_frontmatter(open + 1))
        } else {
            Ok(
                FrontmatterView {
                    open: open as usize,
                    block: joined(ls.subrange(open + 1, close), '\n'),
                    body: (if close < ts.len() {
                        close + 1
                    } else {
                        close
                    }) as usize,
                },
            )
        }
    }
}

fn trim_lines(ls: &Vec<Vec<char>>) -> (ts: Vec<Vec<char>>)
    ensures
        rows_of(ts@) == trimmed_lines(rows_of(ls@)),
{
    let mut ts: Vec<Vec<char>> = Vec::new();
    let mut i: usize = 0;
    while i < ls.len()
        invariant
            i <= ls.len(),
            rows_of(ts@) =~= trimmed_lines(rows_of(ls@)).take(i as int),
        decreases ls.len() - i,
    {
        let t = trim(&ls[i]);
        let ghost before = rows_of(ts@);
        ts.push(t);
        assert(rows_of(ts@) =~= before.push(trimmed(ls@[i as int]@)));
        i += 1;
    }
    ts
}

fn find_frontmatter(ls: &Vec<Vec<char>>, ts: &Vec<Vec<char>>) -> (r: Result<
    Frontmatter,
    ParseError,
>)
    requires
        rows_of(ts@) == trimmed_lines(rows_of(ls@)),
    ensures
        match r {
            Ok(f) => frontmatter_of(rows_of(ls@)) == Ok::<FrontmatterView, ParseErrorView>(f@)
                && f.open < f.body <= ts.len(),
            Err(e) => frontmatter_of(rows_of(ls@)) == Err::<FrontmatterView, ParseErrorView>(e@),
        },
{
    let ghost rows = rows_of(ts@);
    let n = ts.len();
    let delimiter = chars_of("---");
    let mut open: usize = 0;
    while open < n && ts[open].len() == 0
        invariant
            open <= n == ts.len(),
            rows == rows_of(ts@),
            first_content(rows, 0) == first_content(rows, open as int),
        decreases n - open,
    {
        open += 1;
    }
    if open >= n {
        return Err(fail_missing_frontmatter(1));
    }
    if !same_chars(&ts[open], &delimiter) {
        return Err(fail_missing_frontmatter(open + 1));
    }
    let mut close: usize = open + 1;
    while close < n && !same_chars(&ts[close], &delimiter)
        invariant
            open < close <= n == ts.len(),
            rows == rows_of(ts@),
            delimiter@ == "---"@,
            next_delimiter(rows, open + 1) == next_delimiter(rows, close as int),
        decreases n - close,
    {
        close += 1;
    }
    if close == open + 1 {
        return Err(fail_empty_frontmatter(open + 1));
    }
    let mut block_lines: Vec<Vec<char>> = Vec::new();
    let mut k: usize = open + 1;
    while k < close
        invariant
            open < k <= close <= n == ls.len(),
            rows_of(block_lines@) =~= rows_of(ls@).subrange(open + 1, k as int),
        decreases close - k,
    {
        let copy = slice_of(&ls[k], 0, ls[k].len());
        assert(copy@ =~= ls@[k as int]@);
        let ghost before = rows_of(block_lines@);
        block_lines.push(copy);
        assert(rows_of(block_lines@) =~= before.push(ls@[k as int]@));
        k += 1;
    }
    let block = string_of(&join_rows(&block_lines, '\n'));
    let body = if close < n {
        close + 1
    } else {
        close
    };
    Ok(Frontmatter { open, block, body })
}

/// Finds the metadata block of a text.
pub fn frontmatter(content: &str) -> (r: Result<Frontmatter, ParseError>)
    ensures
        match r {
            Ok(f) => frontmatter_of(lines(content@)) == Ok::<FrontmatterView, ParseErrorView>(f@),
            Err(e) => frontmatter_of(lines(content@)) == Err::<FrontmatterView, ParseErrorView>(
                e@,
            ),
        },
{
    let ls = split_lines(&chars_of(content));
    let ts = trim_lines(&ls);
    find_frontmatter(&ls, &ts)
}

// ---------------------------------------------------------------------
// Documents
// ---------------------------------------------------------------------
/// The first of the three required fields that is empty, if one is.
pub open spec fn empty_required(m: MetadataView) -> Option<Seq<char>> {
    if m.title.len() == 0 {
        Some("title"@)
    } else if m.raga.len() == 0 {
        Some("raga"@)
    } else if m.tala.len() == 0 {
        Some("tala"@)
    } else {
        None
    }
}

/// The metadata of a document whose block, opened at line `open`, decoded to
/// `decoded`.
pub open spec fn metadata_checked(open: int, decoded: Result<Seq<FieldView>, Seq<char>>) -> Result<
    MetadataView,
    ParseErrorView,
> {
    match decoded {
        Err(message) => Err(malformed_metadata(open + 1, message)),
        Ok(fields) => match metadata_of(fields) {
            Err(message) => Err(malformed_metadata(open + 1, message)),
            Ok(m) => match empty_required(m) {
                Some(field) => Err(missing_required(open + 1, field)),
                None => Ok(m),
            },
        },
    }
}

/// The document that the lines of a text denote, given what its metadata
/// block decodes to; or the first failure on the way.
pub open spec fn document_of_lines(ls: Seq<Seq<char>>, decoded: Result<Seq<FieldView>, Seq<char>>)
    -> Result<DocumentView, ParseErrorView> {
    match frontmatter_of(ls) {
        Err(e) => Err(e),
        Ok(f) => match metadata_checked(f.open as int, decoded) {
            Err(e) => Err(e),
            Ok(metadata) => match body_scan(
                trimmed_lines(ls),
                f.body as int,
                Seq::empty(),
                Seq::empty(),
            ) {
                Err(e) => Err(e),
                Ok((sections, comments)) => Ok(DocumentView { metadata, sections, comments }),
            },
        },
    }
}

/// The document that a text denotes, given what its metadata block decodes
/// to; or the first failure on the way.
pub open spec fn document_of(content: Seq<char>, decoded: Result<Seq<FieldView>, Seq<char>>)
    -> Result<DocumentView, ParseErrorView> {
    document_of_lines(lines(content), decoded)
}

/// The block of the text where it has one, and the empty text where it has
/// none.
pub open spec fn block_of(content: Seq<char>) -> Seq<char> {
    match frontmatter_of(lines(content)) {
        Ok(f) => f.block,
        Err(_) => Seq::empty(),
    }
}

/// What parsing a text yields: the document that the text denotes, with its
/// metadata block decoded as a flat YAML map.
pub open spec fn parsed(content: Seq<char>) -> Result<DocumentView, ParseErrorView> {
    document_of(content, yaml_flat_map(block_of(content)))
}

fn check_metadata(open: usize, decoded: Result<Vec<Field>, String>) -> (r: Result<
    Metadata,
    ParseError,
>)
    requires
        open < usize::MAX,
    ensures
        match r {
            Ok(m) => metadata_checked(open as int, decoded_view(decoded)) == Ok::<
                MetadataView,
                ParseErrorView,
            >(m@),
            Err(e) => metadata_checked(open as int, decoded_view(decoded)) == Err::<
                MetadataView,
                ParseErrorView,
            >(e@),
        },
{
    let fields = match decoded {
        Ok(fields) => fields,
        Err(message) => {
            return Err(fail_malformed_metadata(open + 1, message.as_str()));
        },
    };
    let metadata = match metadata_from_fields(&fields) {
        Ok(m) => m,
        Err(message) => {
            return Err(fail_malformed_metadata(open + 1, message.as_str()));
        },
    };
    if metadata.title.as_str().is_empty() {
        return Err(fail_missing_required(open + 1, "title"));
    }
    if metadata.raga.as_str().is_empty() {
        return Err(fail_missing_required(open + 1, "raga"));
    }
    if metadata.tala.as_str().is_empty() {
        return Err(fail_missing_required(open + 1, "tala"));
    }
    Ok(metadata)
}

fn parse_lines(
    ls: &Vec<Vec<char>>,
    ts: &Vec<Vec<char>>,
    found: &Frontmatter,
    decoded: Result<Vec<Field>, String>,
) -> (r: Result<VnaDocument, ParseError>)
    requires
        rows_of(ts@) == trimmed_lines(rows_of(ls@)),
        frontmatter_of(rows_of(ls@)) == Ok::<FrontmatterView, ParseErrorView>(found@),
        found.open < found.body <= ts.len(),
    ensures
        match r {
            Ok(doc) => document_of_lines(rows_of(ls@), decoded_view(decoded)) == Ok::<
                DocumentView,
                ParseErrorView,
            >(doc@) && doc@.metadata.complete(),
            Err(e) => document_of_lines(rows_of(ls@), decoded_view(decoded)) == Err::<
                DocumentView,
                ParseErrorView,
            >(e@),
        },
{
    let metadata = match check_metadata(found.open, decoded) {
        Ok(m) => m,
        Err(e) => {
            return Err(e);
        },
    };
    let (sections, comments) = match parse_body(ts, found.body) {
        Ok(body) => body,
        Err(e) => {
            return Err(e);
        },
    };
    Ok(VnaDocument { metadata, sections, comments })
}

/// Parses a text whose metadata block has been decoded already: `decoded`
/// is what the block decodes to as a flat map. Fails fast, with the first
/// structural problem of the text.
pub fn parse_decoded(content: &str, decoded: Result<Vec<Field>, String>) -> (r: Result<
    VnaDocument,
    ParseError,
>)
    ensures
        match r {
            Ok(doc) => document_of(content@, decoded_view(decoded)) == Ok::<
                DocumentView,
                ParseErrorView,
            >(doc@) && doc@.metadata.complete(),
            Err(e) => document_of(content@, decoded_view(decoded)) == Err::<
                DocumentView,
                ParseErrorView,
            >(e@),
        },
{
    let ls = split_lines(&chars_of(content));
    let ts = trim_lines(&ls);
    match find_frontmatter(&ls, &ts) {
        Ok(found) => parse_lines(&ls, &ts, &found, decoded),
        Err(e) => Err(e),
    }
}

/// Parses a text into a document, or fails with the first structural
/// problem of the text. The metadata of a document that was parsed is
/// complete.
pub fn parse(content: &str) -> (r: Result<VnaDocument, ParseError>)
    ensures
        match r {
            Ok(doc) => parsed(content@) == Ok::<DocumentView, ParseErrorView>(doc@)
                && doc@.metadata.complete(),
            Err(e) => parsed(content@) == Err::<DocumentView, ParseErrorView>(e@),
        },
{
    let ls = split_lines(&chars_of(content));
    let ts = trim_lines(&ls);
    match find_frontmatter(&ls, &ts) {
        Ok(found) => {
            let decoded = decode_flat_map(found.block.as_str());
            parse_lines(&ls, &ts, &found, decoded)
        },
        Err(e) => Err(e),
    }
}

// ---------------------------------------------------------------------
// Laws
// ---------------------------------------------------------------------
/// The index of the melodic line of the phrase that starts at `start`: the
/// first line behind its annotation lines.
pub open spec fn melodic_line(ts: Seq<Seq<char>>, start: int) -> int {
    match annotations(ts, start, None, None) {
        Ok(found) => found.0,
        Err(_) => start,
    }
}

/// Beat-boundary symmetry. A phrase whose melodic line and lyric line
/// differ in their beat positions is no phrase: reading it fails with
/// `BeatMisalignment`, and so does the scan of the section that stands at
/// it, whatever that section holds so far. And the beat positions of a
/// phrase that was read are those of both its lines.
pub proof fn lemma_beats_agree(
    ts: Seq<Seq<char>>,
    start: int,
    name: Seq<char>,
    line_number: usize,
    phrases: Seq<PhraseView>,
    pending: Seq<CommentView>,
    gati: Option<u8>,
    tala: Option<Seq<char>>,
)
    requires
        0 <= start < ts.len(),
        annotations(ts, start, None, None).is_ok(),
    ensures
        ({
            let j = melodic_line(ts, start);
            &&& j + 1 < ts.len() && ts[j].contains('|') && ts[j + 1].contains('|') && beat_marks(
                ts[j],
            ) != beat_marks(ts[j + 1]) ==> phrase_at(ts, start) == Err::<
                (PhraseView, int),
                ParseErrorView,
            >(beat_misalignment(start + 1))
            &&& phrase_at(ts, start) matches Ok(found) ==> found.0.beat_positions == beat_marks(
                ts[j],
            ) && found.0.beat_positions == beat_marks(ts[j + 1])
        }),
        ts[start].len() > 0 && !is_comment(ts[start]) && !is_header(ts[start]) && !is_gati_line(
            ts[start],
        ) && !is_tala_line(ts[start]) && ts[start].contains('|') ==> (phrase_at(ts, start)
            matches Err(e) ==> section_scan(
            ts,
            start,
            name,
            line_number,
            phrases,
            pending,
            gati,
            tala,
        ) == Err::<(SectionView, int), ParseErrorView>(e)),
{
}

/// Whether line `k` lies inside the metadata block, between its delimiters.
pub open spec fn in_block(ls: Seq<Seq<char>>, k: int) -> bool {
    let ts = trimmed_lines(ls);
    let open = first_content(ts, 0);
    open < k < next_delimiter(ts, open + 1)
}

/// Trailing whitespace is ignored: whitespace at the end of a line outside
/// the metadata block changes nothing of what the text denotes.
pub proof fn lemma_trailing_space_ignored(
    ls: Seq<Seq<char>>,
    k: int,
    ws: Seq<char>,
    decoded: Result<Seq<FieldView>, Seq<char>>,
)
    requires
        0 <= k < ls.len(),
        !in_block(ls, k),
        forall|i: int| 0 <= i < ws.len() ==> crate::text::spec_is_space(#[trigger] ws[i]),
    ensures
        document_of_lines(ls.update(k, ls[k] + ws), decoded) == document_of_lines(ls, decoded),
{
    let padded = ls.update(k, ls[k] + ws);
    crate::text::lemma_trimmed_ignores_padding(ls[k], ws);
    assert(trimmed_lines(padded) =~= trimmed_lines(ls));
    let ts = trimmed_lines(ls);
    let open = first_content(ts, 0);
    let close = next_delimiter(ts, open + 1);
}

/// The lines with a blank line put in before line `k`.
pub open spec fn with_blank_at(ts: Seq<Seq<char>>, k: int) -> Seq<Seq<char>> {
    ts.take(k) + seq![Seq::<char>::empty()] + ts.skip(k)
}

/// Whether two scans ended alike, the second one line further down: both
/// failed, for the same kind of reason, or both came through.
pub open spec fn alike_one_down<T>(
    x: Result<(T, int), ParseErrorView>,
    y: Result<(T, int), ParseErrorView>,
) -> bool {
    match (x, y) {
        (Ok(p), Ok(q)) => q.1 == p.1 + 1,
        (Err(e), Err(f)) => e.kind == f.kind,
        _ => false,
    }
}

proof fn lemma_annotations_shift(
    a: Seq<Seq<char>>,
    b: Seq<Seq<char>>,
    k: int,
    i: int,
    gati: Option<u8>,
    tala: Option<Seq<char>>,
)
    requires
        0 <= k <= i <= a.len(),
        b == with_blank_at(a, k),
    ensures
        match (annotations(a, i, gati, tala), annotations(b, i + 1, gati, tala)) {
            (Ok(p), Ok(q)) => q.0 == p.0 + 1 && q.1 == p.1 && q.2 == p.2,
            (Err(e), Err(f)) => e.kind == f.kind,
            _ => false,
        },
    decreases a.len() - i,
{
    if i < a.len() {
        if is_gati_line(a[i]) {
            match gati_value(a[i]) {
                Some(g) => lemma_annotations_shift(a, b, k, i + 1, Some(g), tala),
                None => {},
            }
        } else if is_tala_line(a[i]) {
            lemma_annotations_shift(a, b, k, i + 1, gati, Some(tala_value(a[i])));
        }
    }
}

proof fn lemma_phrase_shift(a: Seq<Seq<char>>, b: Seq<Seq<char>>, k: int, i: int)
    requires
        0 <= k <= i <= a.len(),
        b == with_blank_at(a, k),
    ensures
        alike_one_down(phrase_at(a, i), phrase_at(b, i + 1)),
{
    lemma_annotations_shift(a, b, k, i, None, None);
    lemma_annotations_advance(a, i, None, None);
}

proof fn lemma_section_shift(
    a: Seq<Seq<char>>,
    b: Seq<Seq<char>>,
    k: int,
    i: int,
    name: Seq<char>,
    line_number: usize,
    phrases: Seq<PhraseView>,
    pending: Seq<CommentView>,
    gati: Option<u8>,
    tala: Option<Seq<char>>,
    name2: Seq<char>,
    line_number2: usize,
    phrases2: Seq<PhraseView>,
    pending2: Seq<CommentView>,
    gati2: Option<u8>,
    tala2: Option<Seq<char>>,
)
    requires
        0 <= k <= i <= a.len(),
        b == with_blank_at(a, k),
    ensures
        alike_one_down(
            section_scan(a, i, name, line_number, phrases, pending, gati, tala),
            section_scan(b, i + 1, name2, line_number2, phrases2, pending2, gati2, tala2),
        ),
    decreases a.len() - i,
{
    if i < a.len() {
        let t = a[i];
        if t.len() == 0 {
            lemma_section_shift(
                a, b, k, i + 1, name, line_number, phrases, pending, gati, tala, name2,
                line_number2, phrases2, pending2, gati2, tala2,
            );
        } else if is_comment(t) {
            lemma_section_shift(
                a, b, k, i + 1, name, line_number, phrases, pending.push(comment_at(t, i)), gati,
                tala, name2, line_number2, phrases2, pending2.push(comment_at(t, i + 1)), gati2,
                tala2,
            );
        } else if is_header(t) {
        } else if is_gati_line(t) {
            match gati_value(t) {
                Some(g) => lemma_section_shift(
                    a, b, k, i + 1, name, line_number, phrases, pending, Some(g), tala, name2,
                    line_number2, phrases2, pending2, Some(g), tala2,
                ),
                None => {},
            }
        } else if is_tala_line(t) {
            lemma_section_shift(
                a, b, k, i + 1, name, line_number, phrases, pending, gati, Some(tala_value(t)),
                name2, line_number2, phrases2, pending2, gati2, Some(tala_value(t)),
            );
        } else if t.contains('|') {
            lemma_phrase_shift(a, b, k, i);
            match (phrase_at(a, i), phrase_at(b, i + 1)) {
                (Ok((p, next)), Ok((q, next2))) => {
                    lemma_section_shift(
                        a, b, k, next, name, line_number, phrases.push(with_comments(p, pending)),
                        Seq::empty(), gati, tala, name2, line_number2,
                        phrases2.push(with_comments(q, pending2)), Seq::empty(), gati2, tala2,
                    );
                },
                _ => {},
            }
        }
    }
}

proof fn lemma_body_shift(
    a: Seq<Seq<char>>,
    b: Seq<Seq<char>>,
    k: int,
    i: int,
    sections: Seq<SectionView>,
    comments: Seq<CommentView>,
    sections2: Seq<SectionView>,
    comments2: Seq<CommentView>,
)
    requires
        0 <= k <= i <= a.len(),
        b == with_blank_at(a, k),
    ensures
        body_outcome(body_scan(a, i, sections, comments)) == body_outcome(
            body_scan(b, i + 1, sections2, comments2),
        ),
    decreases a.len() - i,
{
    if i < a.len() {
        let t = a[i];
        if t.len() == 0 {
            lemma_body_shift(a, b, k, i + 1, sections, comments, sections2, comments2);
        } else if is_comment(t) {
            lemma_body_shift(
                a, b, k, i + 1, sections, comments.push(comment_at(t, i)), sections2,
                comments2.push(comment_at(t, i + 1)),
            );
        } else if is_header(t) {
            lemma_section_shift(
                a, b, k, i + 1, header_name(a[i]), (i + 1) as usize, Seq::empty(), Seq::empty(),
                None, None, header_name(b[i + 1]), (i + 2) as usize, Seq::empty(), Seq::empty(),
                None, None,
            );
            lemma_section_advance(
                a, i + 1, header_name(a[i]), (i + 1) as usize, Seq::empty(), Seq::empty(), None,
                None,
            );
            match (section_at(a, i), section_at(b, i + 1)) {
                (Ok((s, next)), Ok((s2, next2))) => {
                    lemma_body_shift(
                        a, b, k, next, sections.push(s), comments, sections2.push(s2), comments2,
                    );
                },
                _ => {},
            }
        }
    }
}

proof fn lemma_section_advance(
    ts: Seq<Seq<char>>,
    i: int,
    name: Seq<char>,
    line_number: usize,
    phrases: Seq<PhraseView>,
    pending: Seq<CommentView>,
    gati: Option<u8>,
    tala: Option<Seq<char>>,
)
    requires
        0 <= i <= ts.len(),
    ensures
        section_scan(ts, i, name, line_number, phrases, pending, gati, tala) matches Ok(found)
            ==> i <= found.1 <= ts.len(),
    decreases ts.len() - i,
{
    if i < ts.len() {
        let t = ts[i];
        if t.len() == 0 {
            lemma_section_advance(ts, i + 1, name, line_number, phrases, pending, gati, tala);
        } else if is_comment(t) {
            lemma_section_advance(
                ts, i + 1, name, line_number, phrases, pending.push(comment_at(t, i)), gati, tala,
            );
        } else if is_header(t) {
        } else if is_gati_line(t) {
            match gati_value(t) {
                Some(g) => lemma_section_advance(
                    ts, i + 1, name, line_number, phrases, pending, Some(g), tala,
                ),
                None => {},
            }
        } else if is_tala_line(t) {
            lemma_section_advance(
                ts, i + 1, name, line_number, phrases, pending, gati, Some(tala_value(t)),
            );
        } else if t.contains('|') {
            match phrase_at(ts, i) {
                Ok((p, next)) => {
                    lemma_section_advance(
                        ts, next, name, line_number, phrases.push(with_comments(p, pending)),
                        Seq::empty(), gati, tala,
                    );
                },
                Err(_) => {},
            }
        }
    }
}

/// How a scan of the body ended: the kind of its failure, if it failed.
pub open spec fn body_outcome(
    r: Result<(Seq<SectionView>, Seq<CommentView>), ParseErrorView>,
) -> Option<ParseErrorKind> {
    match r {
        Ok(_) => None,
        Err(e) => Some(e.kind),
    }
}

/// Blank lines between phrases do not count. Where the scan of a section
/// stands at line `k`, a blank line put in there changes neither whether the
/// scan comes through nor the kind of its failure; where it comes through,
/// it ends one line further down.
pub proof fn lemma_blank_line_in_section(
    ts: Seq<Seq<char>>,
    k: int,
    name: Seq<char>,
    line_number: usize,
    phrases: Seq<PhraseView>,
    pending: Seq<CommentView>,
    gati: Option<u8>,
    tala: Option<Seq<char>>,
)
    requires
        0 <= k <= ts.len(),
    ensures
        alike_one_down(
            section_scan(ts, k, name, line_number, phrases, pending, gati, tala),
            section_scan(with_blank_at(ts, k), k, name, line_number, phrases, pending, gati, tala),
        ),
{
    let b = with_blank_at(ts, k);
    lemma_section_shift(
        ts, b, k, k, name, line_number, phrases, pending, gati, tala, name, line_number, phrases,
        pending, gati, tala,
    );
}

/// Blank lines between sections do not count. Where the scan of the body
/// stands at line `k`, a blank line put in there changes neither whether the
/// scan comes through nor the kind of its failure.
pub proof fn lemma_blank_line_in_body(
    ts: Seq<Seq<char>>,
    k: int,
    sections: Seq<SectionView>,
    comments: Seq<CommentView>,
)
    requires
        0 <= k <= ts.len(),
    ensures
        body_outcome(body_scan(ts, k, sections, comments)) == body_outcome(
            body_scan(with_blank_at(ts, k), k, sections, comments),
        ),
{
    let b = with_blank_at(ts, k);
    lemma_body_shift(ts, b, k, k, sections, comments, sections, comments);
}

/// Whether two scans ended alike, where the second read a text with one
/// line more behind line `k`: both failed, for the same kind of reason, or
/// both came through, at the same line.
pub open spec fn alike_around<T>(
    x: Result<(T, int), ParseErrorView>,
    y: Result<(T, int), ParseErrorView>,
    k: int,
) -> bool {
    match (x, y) {
        (Ok(p), Ok(q)) => if p.1 <= k {
            q.1 == p.1
        } else {
            q.1 == p.1 + 1
        },
        (Err(e), Err(f)) => e.kind == f.kind,
        _ => false,
    }
}

proof fn lemma_phrase_dup(a: Seq<Seq<char>>, b: Seq<Seq<char>>, k: int, i: int)
    requires
        0 <= i < k < a.len(),
        b == with_blank_at(a, k),
        a[k].len() == 0,
        !is_gati_line(a[i]),
        !is_tala_line(a[i]),
    ensures
        phrase_at(b, i) == phrase_at(a, i),
        phrase_at(a, i) matches Ok(found) ==> found.1 <= k,
{
    reveal_strlit("phrases = ");
}

proof fn lemma_section_dup(
    a: Seq<Seq<char>>,
    b: Seq<Seq<char>>,
    k: int,
    i: int,
    name: Seq<char>,
    line_number: usize,
    phrases: Seq<PhraseView>,
    pending: Seq<CommentView>,
    gati: Option<u8>,
    tala: Option<Seq<char>>,
    name2: Seq<char>,
    line_number2: usize,
    phrases2: Seq<PhraseView>,
    pending2: Seq<CommentView>,
    gati2: Option<u8>,
    tala2: Option<Seq<char>>,
)
    requires
        0 <= i <= k < a.len(),
        b == with_blank_at(a, k),
        a[k].len() == 0,
    ensures
        alike_around(
            section_scan(a, i, name, line_number, phrases, pending, gati, tala),
            section_scan(b, i, name2, line_number2, phrases2, pending2, gati2, tala2),
            k,
        ),
    decreases k - i,
{
    let t = a[i];
    if i == k {
        assert(section_scan(b, k, name2, line_number2, phrases2, pending2, gati2, tala2)
            == section_scan(b, k + 1, name2, line_number2, phrases2, pending2, gati2, tala2));
        lemma_section_shift(
            a, b, k, k + 1, name, line_number, phrases, pending, gati, tala, name2, line_number2,
            phrases2, pending2, gati2, tala2,
        );
        lemma_section_advance(a, k + 1, name, line_number, phrases, pending, gati, tala);
    } else if t.len() == 0 {
        lemma_section_dup(
            a, b, k, i + 1, name, line_number, phrases, pending, gati, tala, name2, line_number2,
            phrases2, pending2, gati2, tala2,
        );
    } else if is_comment(t) {
        lemma_section_dup(
            a, b, k, i + 1, name, line_number, phrases, pending.push(comment_at(t, i)), gati,
            tala, name2, line_number2, phrases2, pending2.push(comment_at(t, i)), gati2, tala2,
        );
    } else if is_header(t) {
    } else if is_gati_line(t) {
        match gati_value(t) {
            Some(g) => lemma_section_dup(
                a, b, k, i + 1, name, line_number, phrases, pending, Some(g), tala, name2,
                line_number2, phrases2, pending2, Some(g), tala2,
            ),
            None => {},
        }
    } else if is_tala_line(t) {
        lemma_section_dup(
            a, b, k, i + 1, name, line_number, phrases, pending, gati, Some(tala_value(t)), name2,
            line_number2, phrases2, pending2, gati2, Some(tala_value(t)),
        );
    } else if t.contains('|') {
        lemma_phrase_dup(a, b, k, i);
        match phrase_at(a, i) {
            Ok((p, next)) => {
                if i < next {
                    lemma_section_dup(
                        a, b, k, next, name, line_number,
                        phrases.push(with_comments(p, pending)), Seq::empty(), gati, tala, name2,
                        line_number2, phrases2.push(with_comments(p, pending2)), Seq::empty(),
                        gati2, tala2,
                    );
                } else {
                    lemma_section_dup(
                        a, b, k, i + 1, name, line_number,
                        phrases.push(with_comments(p, pending)), Seq::empty(), gati, tala, name2,
                        line_number2, phrases2.push(with_comments(p, pending2)), Seq::empty(),
                        gati2, tala2,
                    );
                }
            },
            Err(_) => {},
        }
    }
}

proof fn lemma_body_dup(
    a: Seq<Seq<char>>,
    b: Seq<Seq<char>>,
    k: int,
    i: int,
    sections: Seq<SectionView>,
    comments: Seq<CommentView>,
    sections2: Seq<SectionView>,
    comments2: Seq<CommentView>,
)
    requires
        0 <= i <= k < a.len(),
        b == with_blank_at(a, k),
        a[k].len() == 0,
    ensures
        body_outcome(body_scan(a, i, sections, comments)) == body_outcome(
            body_scan(b, i, sections2, comments2),
        ),
    decreases k - i,
{
    let t = a[i];
    if i == k {
        assert(body_scan(b, k, sections2, comments2) == body_scan(
            b,
            k + 1,
            sections2,
            comments2,
        ));
        lemma_body_shift(a, b, k, k + 1, sections, comments, sections2, comments2);
    } else if t.len() == 0 {
        lemma_body_dup(a, b, k, i + 1, sections, comments, sections2, comments2);
    } else if is_comment(t) {
        lemma_body_dup(
            a, b, k, i + 1, sections, comments.push(comment_at(t, i)), sections2,
            comments2.push(comment_at(t, i)),
        );
    } else if is_header(t) {
        lemma_section_dup(
            a, b, k, i + 1, header_name(t), (i + 1) as usize, Seq::empty(), Seq::empty(), None,
            None, header_name(t), (i + 1) as usize, Seq::empty(), Seq::empty(), None, None,
        );
        lemma_section_advance(
            a, i + 1, header_name(t), (i + 1) as usize, Seq::empty(), Seq::empty(), None, None,
        );
        match (section_at(a, i), section_at(b, i)) {
            (Ok((s, next)), Ok((s2, next2))) => {
                if next <= k {
                    lemma_body_dup(
                        a, b, k, next, sections.push(s), comments, sections2.push(s2), comments2,
                    );
                } else {
                    lemma_body_shift(
                        a, b, k, next, sections.push(s), comments, sections2.push(s2), comments2,
                    );
                }
            },
            _ => {},
        }
    }
}

proof fn lemma_first_content_same(a: Seq<Seq<char>>, b: Seq<Seq<char>>, k: int, i: int)
    requires
        0 <= i <= a.len(),
        k <= a.len(),
        k <= b.len(),
        forall|j: int| 0 <= j < k ==> a[j] == b[j],
        first_content(a, i) < k,
    ensures
        first_content(b, i) == first_content(a, i),
        i <= first_content(a, i),
    decreases a.len() - i,
{
    if i < a.len() && a[i].len() == 0 {
        lemma_first_content_same(a, b, k, i + 1);
    }
}

proof fn lemma_next_delimiter_same(a: Seq<Seq<char>>, b: Seq<Seq<char>>, k: int, i: int)
    requires
        0 <= i <= a.len(),
        k <= a.len(),
        k <= b.len(),
        forall|j: int| 0 <= j < k ==> a[j] == b[j],
        next_delimiter(a, i) < k,
    ensures
        next_delimiter(b, i) == next_delimiter(a, i),
        i <= next_delimiter(a, i),
    decreases a.len() - i,
{
    if i < a.len() && !is_delimiter(a[i]) {
        lemma_next_delimiter_same(a, b, k, i + 1);
    }
}

proof fn lemma_next_delimiter_grows(ts: Seq<Seq<char>>, i: int)
    requires
        0 <= i <= ts.len(),
    ensures
        i <= next_delimiter(ts, i) <= ts.len(),
    decreases ts.len() - i,
{
    if i < ts.len() && !is_delimiter(ts[i]) {
        lemma_next_delimiter_grows(ts, i + 1);
    }
}

/// The index of the first line of the body, where the block is closed.
pub open spec fn body_start(ls: Seq<Seq<char>>) -> int {
    let ts = trimmed_lines(ls);
    next_delimiter(ts, first_content(ts, 0) + 1) + 1
}

proof fn lemma_frontmatter_same(ls: Seq<Seq<char>>, k: int)
    requires
        frontmatter_of(ls).is_ok(),
        body_start(ls) <= k < ls.len(),
    ensures
        frontmatter_of(with_blank_at(ls, k)) == frontmatter_of(ls),
        trimmed_lines(with_blank_at(ls, k)) == with_blank_at(trimmed_lines(ls), k),
        0 <= first_content(trimmed_lines(ls), 0) < body_start(ls),
{
    let more = with_blank_at(ls, k);
    let ts = trimmed_lines(ls);
    let ts2 = trimmed_lines(more);
    lemma_next_delimiter_grows(ts, first_content(ts, 0) + 1);
    assert forall|j: int| 0 <= j < ts2.len() implies ts2[j] == with_blank_at(ts, k)[j] by {
        if j < k {
            assert(more[j] == ls[j]);
        } else if j == k {
            assert(more[j] == Seq::<char>::empty());
        } else {
            assert(more[j] == ls[j - 1]);
        }
    }
    let open = first_content(ts, 0);
    let close = next_delimiter(ts, open + 1);
    lemma_first_content_same(ts, ts2, k, 0);
    lemma_next_delimiter_same(ts, ts2, k, open + 1);
    assert(more.subrange(open + 1, close) =~= ls.subrange(open + 1, close));
}

/// How a parse ended: the kind of its failure, if it failed.
pub open spec fn outcome(r: Result<DocumentView, ParseErrorView>) -> Option<ParseErrorKind> {
    match r {
        Ok(_) => None,
        Err(e) => Some(e.kind),
    }
}

/// The number of blank lines in a row does not count. Behind the metadata
/// block, one more blank line before a blank line changes neither whether
/// the text is a document nor the kind of its failure.
pub proof fn lemma_blank_lines_do_not_count(
    ls: Seq<Seq<char>>,
    k: int,
    decoded: Result<Seq<FieldView>, Seq<char>>,
)
    requires
        frontmatter_of(ls).is_ok(),
        0 <= k < ls.len() < usize::MAX,
        body_start(ls) <= k,
        trimmed(ls[k]).len() == 0,
    ensures
        outcome(document_of_lines(with_blank_at(ls, k), decoded)) == outcome(
            document_of_lines(ls, decoded),
        ),
{
    let more = with_blank_at(ls, k);
    let ts = trimmed_lines(ls);
    lemma_frontmatter_same(ls, k);
    lemma_body_dup(
        ts,
        with_blank_at(ts, k),
        k,
        body_start(ls),
        Seq::empty(),
        Seq::empty(),
        Seq::empty(),
        Seq::empty(),
    );
}

} // verus!
