//! The renderer: a document written back as text, with the tokens of each
//! phrase aligned in columns.

use crate::text::{
    append_chars, chars_of, decimal, join_rows, joined, push_decimal, push_text, rows_of,
    string_of, texts_of,
};
use crate::types::{
    opt_text, views, Comment, CommentView, DocumentView, Metadata, MetadataView, Phrase,
    PhraseView, Section, SectionView, VnaDocument,
};
use vstd::prelude::*;

verus! {

/// A line that gives a text under a key, in double quotes.
pub open spec fn quoted_line(key: Seq<char>, value: Seq<char>) -> Seq<char> {
    key + ": \""@ + value + "\"\n"@
}

/// The quoted line of an optional text: nothing where there is none.
pub open spec fn optional_line(key: Seq<char>, value: Option<Seq<char>>) -> Seq<char> {
    match value {
        Some(v) => quoted_line(key, v),
        None => Seq::empty(),
    }
}

/// A line that `lead` opens and a decimal number ends.
pub open spec fn number_line(lead: Seq<char>, n: nat) -> Seq<char> {
    lead + decimal(n) + "\n"@
}

pub open spec fn tempo_line(tempo: Option<u32>) -> Seq<char> {
    match tempo {
        Some(t) => number_line("tempo: "@, t as nat),
        None => Seq::empty(),
    }
}

pub open spec fn gati_line(lead: Seq<char>, gati: Option<u8>) -> Seq<char> {
    match gati {
        Some(g) => number_line(lead, g as nat),
        None => Seq::empty(),
    }
}

/// The head of the metadata block: the opening delimiter, the three
/// required fields, and the composer, language and tempo where they are set.
pub open spec fn metadata_head(m: MetadataView) -> Seq<char> {
    "---\n"@ + quoted_line("title"@, m.title) + quoted_line("raga"@, m.raga) + quoted_line(
        "tala"@,
        m.tala,
    ) + optional_line("composer"@, m.composer) + optional_line("language"@, m.language)
        + tempo_line(m.tempo)
}

/// The rest of the metadata block: the remaining optional fields that are
/// set, and the closing delimiter.
pub open spec fn metadata_tail(m: MetadataView) -> Seq<char> {
    gati_line("gati: "@, m.gati) + optional_line("type"@, m.composition_type) + optional_line(
        "key"@,
        m.key,
    ) + optional_line("default_octave"@, m.default_octave) + optional_line(
        "arohanam"@,
        m.arohanam,
    ) + optional_line("avarohanam"@, m.avarohanam) + "---\n"@
}

/// The metadata block: the delimiters, the three required fields, and each
/// optional field that is set.
pub open spec fn metadata_text(m: MetadataView) -> Seq<char> {
    metadata_head(m) + metadata_tail(m)
}

/// The first `k` comments, each on a line of its own behind `# `.
pub open spec fn comment_lines(comments: Seq<CommentView>, k: int) -> Seq<char>
    decreases k,
{
    if k <= 0 {
        Seq::empty()
    } else {
        comment_lines(comments, k - 1) + "# "@ + comments[k - 1].text + "\n"@
    }
}

/// `n` spaces.
pub open spec fn spaces(n: nat) -> Seq<char> {
    Seq::new(n, |i: int| ' ')
}

/// The width of the column `i` of a phrase: that of its wider token.
pub open spec fn column_width(swaras: Seq<Seq<char>>, sahitya: Seq<Seq<char>>, i: int) -> nat {
    let below = if i < sahitya.len() {
        sahitya[i].len()
    } else {
        0
    };
    if swaras[i].len() >= below {
        swaras[i].len()
    } else {
        below
    }
}

/// The widths of the columns of a phrase, one for each melodic token.
pub open spec fn column_widths(swaras: Seq<Seq<char>>, sahitya: Seq<Seq<char>>) -> Seq<nat> {
    Seq::new(swaras.len(), |i: int| column_width(swaras, sahitya, i))
}

/// A token filled up with spaces to the width of its column. A token
/// without a column, or wider than its column, stays as it is.
pub open spec fn padded(element: Seq<char>, widths: Seq<nat>, i: int) -> Seq<char> {
    if 0 <= i < widths.len() && widths[i] >= element.len() {
        element + spaces((widths[i] - element.len()) as nat)
    } else {
        element
    }
}

/// The cells of a notation line from the token `i` on: each token, padded,
/// and a beat marker behind the token that the next beat position names.
pub open spec fn cells_from(
    elements: Seq<Seq<char>>,
    widths: Seq<nat>,
    beats: Seq<usize>,
    i: int,
    beat: int,
) -> Seq<Seq<char>>
    decreases elements.len() - i,
{
    if i < 0 || i >= elements.len() {
        Seq::empty()
    } else if 0 <= beat < beats.len() && beats[beat] == i + 1 {
        seq![padded(elements[i], widths, i), seq!['|']] + cells_from(
            elements,
            widths,
            beats,
            i + 1,
            beat + 1,
        )
    } else {
        seq![padded(elements[i], widths, i)] + cells_from(elements, widths, beats, i + 1, beat)
    }
}

/// A notation line: its cells with a space between them, and the
/// phrase-end marker.
pub open spec fn notation_text(elements: Seq<Seq<char>>, widths: Seq<nat>, beats: Seq<usize>)
    -> Seq<char> {
    joined(cells_from(elements, widths, beats, 0, 0), ' ') + " ||\n"@
}

pub open spec fn analysis_line(analysis: Option<Seq<char>>) -> Seq<char> {
    match analysis {
        Some(a) => "phrases = "@ + a + "\n"@,
        None => Seq::empty(),
    }
}

/// A phrase: its override of the subdivision, its two lines in columns,
/// and its analysis.
pub open spec fn phrase_text(p: PhraseView) -> Seq<char> {
    let widths = column_widths(p.swaras, p.sahitya);
    gati_line("@gati: "@, p.gati) + notation_text(p.swaras, widths, p.beat_positions)
        + notation_text(p.sahitya, widths, p.beat_positions) + analysis_line(p.phrase_analysis)
}

/// The first `k` phrases of a section. Each comes behind its comments; a
/// blank line parts a phrase without comments from the one before it.
pub open spec fn phrases_text(phrases: Seq<PhraseView>, k: int) -> Seq<char>
    decreases k,
{
    if k <= 0 {
        Seq::empty()
    } else {
        let p = phrases[k - 1];
        phrases_text(phrases, k - 1) + comment_lines(
            p.preceding_comments,
            p.preceding_comments.len() as int,
        ) + (if k - 1 > 0 && p.preceding_comments.len() == 0 {
            "\n"@
        } else {
            Seq::empty()
        }) + phrase_text(p)
    }
}

/// A section: its header, its override of the subdivision, its comments
/// and its phrases.
pub open spec fn section_text(s: SectionView) -> Seq<char> {
    "["@ + s.name + "]\n"@ + gati_line("@gati: "@, s.gati) + comment_lines(
        s.comments,
        s.comments.len() as int,
    ) + phrases_text(s.phrases, s.phrases.len() as int)
}

/// The first `k` sections, with a blank line between one and the next.
pub open spec fn sections_text(sections: Seq<SectionView>, k: int) -> Seq<char>
    decreases k,
{
    if k <= 0 {
        Seq::empty()
    } else {
        sections_text(sections, k - 1) + (if k - 1 > 0 {
            "\n"@
        } else {
            Seq::empty()
        }) + section_text(sections[k - 1])
    }
}

/// A document as text: the metadata block, a blank line, the comments of
/// the document with a blank line behind them, and the sections.
pub open spec fn document_text(d: DocumentView) -> Seq<char> {
    metadata_text(d.metadata) + "\n"@ + comment_lines(d.comments, d.comments.len() as int) + (if d.comments.len()
        > 0 {
        "\n"@
    } else {
        Seq::empty()
    }) + sections_text(d.sections, d.sections.len() as int)
}

fn push_quoted(out: &mut Vec<char>, key: &str, value: &String)
    ensures
        final(out)@ == old(out)@ + quoted_line(key@, value@),
{
    push_text(out, key);
    push_text(out, ": \"");
    push_text(out, value.as_str());
    push_text(out, "\"\n");
}

fn push_optional(out: &mut Vec<char>, key: &str, value: &Option<String>)
    ensures
        final(out)@ == old(out)@ + optional_line(key@, opt_text(*value)),
{
    match value {
        Some(v) => {
            push_quoted(out, key, v);
        },
        None => {},
    }
}

fn push_number(out: &mut Vec<char>, lead: &str, n: u64)
    ensures
        final(out)@ == old(out)@ + number_line(lead@, n as nat),
{
    push_text(out, lead);
    push_decimal(out, n);
    push_text(out, "\n");
}

fn push_gati(out: &mut Vec<char>, lead: &str, gati: Option<u8>)
    ensures
        final(out)@ == old(out)@ + gati_line(lead@, gati),
{
    match gati {
        Some(g) => {
            push_number(out, lead, g as u64);
        },
        None => {},
    }
}

fn push_tempo(out: &mut Vec<char>, tempo: Option<u32>)
    ensures
        final(out)@ == old(out)@ + tempo_line(tempo),
{
    match tempo {
        Some(t) => {
            push_number(out, "tempo: ", t as u64);
        },
        None => {},
    }
}

fn push_metadata_head(out: &mut Vec<char>, m: &Metadata)
    ensures
        final(out)@ == old(out)@ + metadata_head(m@),
{
    push_text(out, "---\n");
    push_quoted(out, "title", &m.title);
    push_quoted(out, "raga", &m.raga);
    push_quoted(out, "tala", &m.tala);
    push_optional(out, "composer", &m.composer);
    push_optional(out, "language", &m.language);
    push_tempo(out, m.tempo);
}

fn push_metadata_tail(out: &mut Vec<char>, m: &Metadata)
    ensures
        final(out)@ == old(out)@ + metadata_tail(m@),
{
    push_gati(out, "gati: ", m.gati);
    push_optional(out, "type", &m.composition_type);
    push_optional(out, "key", &m.key);
    push_optional(out, "default_octave", &m.default_octave);
    push_optional(out, "arohanam", &m.arohanam);
    push_optional(out, "avarohanam", &m.avarohanam);
    push_text(out, "---\n");
}

fn push_metadata(out: &mut Vec<char>, m: &Metadata)
    ensures
        final(out)@ == old(out)@ + metadata_text(m@),
{
    push_metadata_head(out, m);
    push_metadata_tail(out, m);
}

fn push_comments(out: &mut Vec<char>, comments: &Vec<Comment>)
    ensures
        final(out)@ == old(out)@ + comment_lines(views(comments@), comments@.len() as int),
{
    let mut i: usize = 0;
    while i < comments.len()
        invariant
            i <= comments.len(),
            out@ == old(out)@ + comment_lines(views(comments@), i as int),
        decreases comments.len() - i,
    {
        push_text(out, "# ");
        push_text(out, comments[i].text.as_str());
        push_text(out, "\n");
        i += 1;
    }
}

fn push_spaces(out: &mut Vec<char>, n: usize)
    ensures
        final(out)@ == old(out)@ + spaces(n as nat),
{
    let mut i: usize = 0;
    while i < n
        invariant
            i <= n,
            out@ == old(out)@ + spaces(i as nat),
        decreases n - i,
    {
        out.push(' ');
        i += 1;
    }
}

/// The widths of a vector, as numbers.
pub open spec fn widths_of(w: Seq<usize>) -> Seq<nat> {
    Seq::new(w.len(), |i: int| w[i] as nat)
}

fn widths_for(swaras: &Vec<Vec<char>>, sahitya: &Vec<Vec<char>>) -> (w: Vec<usize>)
    ensures
        widths_of(w@) == column_widths(rows_of(swaras@), rows_of(sahitya@)),
{
    let mut w: Vec<usize> = Vec::new();
    let mut i: usize = 0;
    while i < swaras.len()
        invariant
            i <= swaras.len(),
            widths_of(w@) =~= column_widths(rows_of(swaras@), rows_of(sahitya@)).take(i as int),
        decreases swaras.len() - i,
    {
        let above = swaras[i].len();
        let below = if i < sahitya.len() {
            sahitya[i].len()
        } else {
            0
        };
        let ghost before = widths_of(w@);
        w.push(if above >= below { above } else { below });
        assert(widths_of(w@) =~= before.push(
            column_width(rows_of(swaras@), rows_of(sahitya@), i as int),
        ));
        i += 1;
    }
    w
}

fn rows_from(tokens: &Vec<String>) -> (r: Vec<Vec<char>>)
    ensures
        rows_of(r@) == texts_of(tokens@),
{
    let mut r: Vec<Vec<char>> = Vec::new();
    let mut i: usize = 0;
    while i < tokens.len()
        invariant
            i <= tokens.len(),
            rows_of(r@) =~= texts_of(tokens@).take(i as int),
        decreases tokens.len() - i,
    {
        let row = chars_of(tokens[i].as_str());
        let ghost before = rows_of(r@);
        r.push(row);
        assert(rows_of(r@) =~= before.push(tokens@[i as int]@));
        i += 1;
    }
    r
}

fn push_notation_line(
    out: &mut Vec<char>,
    elements: &Vec<Vec<char>>,
    col_widths: &Vec<usize>,
    beat_positions: &Vec<usize>,
)
    ensures
        final(out)@ == old(out)@ + notation_text(
            rows_of(elements@),
            widths_of(col_widths@),
            beat_positions@,
        ),
{
    let ghost els = rows_of(elements@);
    let ghost ws = widths_of(col_widths@);
    let mut cells: Vec<Vec<char>> = Vec::new();
    let mut beat: usize = 0;
    let mut i: usize = 0;
    while i < elements.len()
        invariant
            i <= elements.len(),
            beat <= beat_positions.len(),
            els == rows_of(elements@),
            ws == widths_of(col_widths@),
            cells_from(els, ws, beat_positions@, 0, 0) == rows_of(cells@) + cells_from(
                els,
                ws,
                beat_positions@,
                i as int,
                beat as int,
            ),
        decreases elements.len() - i,
    {
        let mut cell: Vec<char> = Vec::new();
        append_chars(&mut cell, &elements[i]);
        if i < col_widths.len() && col_widths[i] >= elements[i].len() {
            push_spaces(&mut cell, col_widths[i] - elements[i].len());
        }
        cells.push(cell);
        if beat < beat_positions.len() && beat_positions[beat] == i + 1 {
            let mut bar: Vec<char> = Vec::new();
            bar.push('|');
            cells.push(bar);
            beat += 1;
        }
        i += 1;
    }
    let line = join_rows(&cells, ' ');
    append_chars(out, &line);
    push_text(out, " ||\n");
}

/// Writes a notation line: each token padded to the width of its column,
/// a beat marker behind each beat position, and the phrase-end marker.
pub fn format_notation_line(
    elements: &Vec<String>,
    col_widths: &Vec<usize>,
    beat_positions: &Vec<usize>,
) -> (line: String)
    ensures
        line@ == notation_text(texts_of(elements@), widths_of(col_widths@), beat_positions@),
{
    let mut out: Vec<char> = Vec::new();
    push_notation_line(&mut out, &rows_from(elements), col_widths, beat_positions);
    string_of(&out)
}

fn push_phrase(out: &mut Vec<char>, phrase: &Phrase)
    ensures
        final(out)@ == old(out)@ + phrase_text(phrase@),
{
    push_gati(out, "@gati: ", phrase.gati);
    let swaras = rows_from(&phrase.swaras);
    let sahitya = rows_from(&phrase.sahitya);
    let widths = widths_for(&swaras, &sahitya);
    push_notation_line(out, &swaras, &widths, &phrase.beat_positions);
    push_notation_line(out, &sahitya, &widths, &phrase.beat_positions);
    match &phrase.phrase_analysis {
        Some(a) => {
            push_text(out, "phrases = ");
            push_text(out, a.as_str());
            push_text(out, "\n");
        },
        None => {},
    }
}

fn push_section(out: &mut Vec<char>, section: &Section)
    ensures
        final(out)@ == old(out)@ + section_text(section@),
{
    push_text(out, "[");
    push_text(out, section.name.as_str());
    push_text(out, "]\n");
    push_gati(out, "@gati: ", section.gati);
    push_comments(out, &section.comments);
    let ghost head = out@;
    let ghost phrases = views(section.phrases@);
    let mut i: usize = 0;
    while i < section.phrases.len()
        invariant
            i <= section.phrases.len(),
            phrases == views(section.phrases@),
            out@ == head + phrases_text(phrases, i as int),
        decreases section.phrases.len() - i,
    {
        let phrase = &section.phrases[i];
        push_comments(out, &phrase.preceding_comments);
        if i > 0 && phrase.preceding_comments.len() == 0 {
            push_text(out, "\n");
        }
        push_phrase(out, phrase);
        proof {
            let p = phrases[i as int];
        }
        i += 1;
    }
}

/// Writes a document as text, with the tokens of each phrase in columns.
pub fn format(document: &VnaDocument) -> (text: String)
    ensures
        text@ == document_text(document@),
{
    let mut out: Vec<char> = Vec::new();
    push_metadata(&mut out, &document.metadata);
    push_text(&mut out, "\n");
    push_comments(&mut out, &document.comments);
    if document.comments.len() > 0 {
        push_text(&mut out, "\n");
    }
    let ghost head = out@;
    let ghost sections = views(document.sections@);
    let mut i: usize = 0;
    while i < document.sections.len()
        invariant
            i <= document.sections.len(),
            sections == views(document.sections@),
            out@ == head + sections_text(sections, i as int),
        decreases document.sections.len() - i,
    {
        if i > 0 {
            push_text(&mut out, "\n");
        }
        push_section(&mut out, &document.sections[i]);
        i += 1;
    }
    string_of(&out)
}

/// The tokens of a line with a space between them, and the phrase-end
/// marker.
pub open spec fn plain_line(tokens: Seq<Seq<char>>) -> Seq<char> {
    joined(tokens, ' ') + " ||\n"@
}

/// The first `k` phrases of a section, each as two plain lines and a blank
/// line.
pub open spec fn plain_phrases(phrases: Seq<PhraseView>, k: int) -> Seq<char>
    decreases k,
{
    if k <= 0 {
        Seq::empty()
    } else {
        plain_phrases(phrases, k - 1) + plain_line(phrases[k - 1].swaras) + plain_line(
            phrases[k - 1].sahitya,
        ) + "\n"@
    }
}

/// The first `k` sections in the plain form, with a blank line before each
/// but the first.
pub open spec fn plain_sections(sections: Seq<SectionView>, k: int) -> Seq<char>
    decreases k,
{
    if k <= 0 {
        Seq::empty()
    } else {
        plain_sections(sections, k - 1) + (if k - 1 > 0 {
            "\n"@
        } else {
            Seq::empty()
        }) + "["@ + sections[k - 1].name + "]\n"@ + plain_phrases(
            sections[k - 1].phrases,
            sections[k - 1].phrases.len() as int,
        )
    }
}

/// A document in the plain form: a short metadata block, and each phrase
/// as its tokens with single spaces, without beat markers.
pub open spec fn plain_text(d: DocumentView) -> Seq<char> {
    "---\n"@ + quoted_line("title"@, d.metadata.title) + quoted_line("raga"@, d.metadata.raga)
        + quoted_line("tala"@, d.metadata.tala) + tempo_line(d.metadata.tempo) + optional_line(
        "composer"@,
        d.metadata.composer,
    ) + optional_line("language"@, d.metadata.language) + optional_line("key"@, d.metadata.key)
        + "---\n\n"@ + plain_sections(d.sections, d.sections.len() as int)
}

fn push_plain_line(out: &mut Vec<char>, tokens: &Vec<String>)
    ensures
        final(out)@ == old(out)@ + plain_line(views(tokens@)),
{
    let rows = rows_from(tokens);
    let line = join_rows(&rows, ' ');
    append_chars(out, &line);
    push_text(out, " ||\n");
}

fn push_plain_section(out: &mut Vec<char>, section: &Section)
    ensures
        final(out)@ == old(out)@ + "["@ + section@.name + "]\n"@ + plain_phrases(
            section@.phrases,
            section@.phrases.len() as int,
        ),
{
    push_text(out, "[");
    push_text(out, section.name.as_str());
    push_text(out, "]\n");
    let ghost head = out@;
    let ghost phrases = views(section.phrases@);
    let mut i: usize = 0;
    while i < section.phrases.len()
        invariant
            i <= section.phrases.len(),
            phrases == views(section.phrases@),
            out@ == head + plain_phrases(phrases, i as int),
        decreases section.phrases.len() - i,
    {
        push_plain_line(out, &section.phrases[i].swaras);
        push_plain_line(out, &section.phrases[i].sahitya);
        push_text(out, "\n");
        i += 1;
    }
}

/// Writes a document in the plain form, which keeps the tokens as they are
/// and joins them with single spaces.
pub fn format_preserve_beats(document: &VnaDocument) -> (text: String)
    ensures
        text@ == plain_text(document@),
{
    let mut out: Vec<char> = Vec::new();
    let m = &document.metadata;
    push_text(&mut out, "---\n");
    push_quoted(&mut out, "title", &m.title);
    push_quoted(&mut out, "raga", &m.raga);
    push_quoted(&mut out, "tala", &m.tala);
    match m.tempo {
        Some(t) => {
            push_number(&mut out, "tempo: ", t as u64);
        },
        None => {},
    }
    push_optional(&mut out, "composer", &m.composer);
    push_optional(&mut out, "language", &m.language);
    push_optional(&mut out, "key", &m.key);
    push_text(&mut out, "---\n\n");
    let ghost head = out@;
    let ghost sections = views(document.sections@);
    let mut i: usize = 0;
    while i < document.sections.len()
        invariant
            i <= document.sections.len(),
            sections == views(document.sections@),
            out@ == head + plain_sections(sections, i as int),
        decreases document.sections.len() - i,
    {
        if i > 0 {
            push_text(&mut out, "\n");
        }
        push_plain_section(&mut out, &document.sections[i]);
        i += 1;
    }
    string_of(&out)
}

} // verus!
