//! What an editor asks of a document: the word under the cursor, what to
//! show when the cursor rests on a line, where an issue lies, and the
//! outline of the document.

use crate::text::{chars_of, decimal, push_decimal, push_text, slice_of, string_of};
use crate::types::{
    below, line_below, opt_text, views, DocumentView, IssueView, Phrase, PhraseView, Position,
    Range, Section, SectionView, ValidationIssue, VnaDocument,
};
use vstd::prelude::*;

verus! {

/// Whether a character is a letter or a digit, by its Unicode properties.
pub uninterp spec fn is_alphanumeric_char(c: char) -> bool;

/// `char::is_alphanumeric` tells whether the character is a letter or a
/// digit, by its Unicode properties.
pub assume_specification[ char::is_alphanumeric ](c: char) -> (b: bool)
    ensures
        b == is_alphanumeric_char(c),
;

/// The start of the run of letters and digits that ends before `i`.
pub open spec fn word_start(s: Seq<char>, i: int) -> int
    decreases i,
{
    if 0 < i <= s.len() && is_alphanumeric_char(s[i - 1]) {
        word_start(s, i - 1)
    } else {
        i
    }
}

/// The end of the run of letters and digits that starts at `i`.
pub open spec fn word_end(s: Seq<char>, i: int) -> int
    decreases s.len() - i,
{
    if 0 <= i < s.len() && is_alphanumeric_char(s[i]) {
        word_end(s, i + 1)
    } else {
        i
    }
}

/// The word at a position of a line: the run of letters and digits around
/// it, if the position lies in the line and touches such a run.
pub open spec fn word_at(s: Seq<char>, pos: int) -> Option<Seq<char>> {
    if pos < 0 || pos >= s.len() || word_start(s, pos) >= word_end(s, pos) {
        None
    } else {
        Some(s.subrange(word_start(s, pos), word_end(s, pos)))
    }
}

/// The word under the cursor.
pub fn get_word_at_position(line: &str, character: u32) -> (r: Option<String>)
    ensures
        opt_text(r) == word_at(line@, character as int),
{
    let chars = chars_of(line);
    let pos = character as usize;
    if pos >= chars.len() {
        return None;
    }
    let mut start: usize = pos;
    while start > 0 && chars[start - 1].is_alphanumeric()
        invariant
            start <= pos < chars.len(),
            word_start(chars@, pos as int) == word_start(chars@, start as int),
        decreases start,
    {
        start -= 1;
    }
    let mut end: usize = pos;
    while end < chars.len() && chars[end].is_alphanumeric()
        invariant
            pos <= end <= chars.len(),
            word_end(chars@, pos as int) == word_end(chars@, end as int),
        decreases chars.len() - end,
    {
        end += 1;
    }
    if start < end {
        Some(string_of(&slice_of(&chars, start, end)))
    } else {
        None
    }
}

/// What the cursor rests on.
#[derive(Debug, Clone, PartialEq)]
pub enum HoverTarget {
    /// The header of the section of this name.
    Section(String),
    /// A line of a phrase: its melodic line (0), its lyric line (1) or its
    /// analysis (2); and whether the phrase has an analysis.
    Phrase { line_type: usize, has_analysis: bool },
}

pub enum HoverTargetView {
    Section(Seq<char>),
    Phrase { line_type: usize, has_analysis: bool },
}

impl View for HoverTarget {
    type V = HoverTargetView;

    open spec fn view(&self) -> HoverTargetView {
        match self {
            HoverTarget::Section(name) => HoverTargetView::Section(name@),
            HoverTarget::Phrase { line_type, has_analysis } => HoverTargetView::Phrase {
                line_type: *line_type,
                has_analysis: *has_analysis,
            },
        }
    }
}

pub open spec fn target_view(t: Option<HoverTarget>) -> Option<HoverTargetView> {
    match t {
        Some(t) => Some(t@),
        None => None,
    }
}

/// The zero-based index of a line that is numbered from one.
pub open spec fn zero_based(line: usize) -> usize {
    if line > 0 {
        (line - 1) as usize
    } else {
        0
    }
}

/// The number of lines of a phrase: two, and one more for an analysis.
pub open spec fn phrase_lines(p: PhraseView) -> int {
    if p.phrase_analysis.is_some() {
        3
    } else {
        2
    }
}

/// The first of the phrases from `k` on that holds the zero-based line.
pub open spec fn phrase_target(phrases: Seq<PhraseView>, line: usize, k: int) -> Option<
    HoverTargetView,
>
    decreases phrases.len() - k,
{
    if k < 0 || k >= phrases.len() {
        None
    } else {
        let first = zero_based(phrases[k].line_number);
        if first <= line < first + phrase_lines(phrases[k]) {
            Some(
                HoverTargetView::Phrase {
                    line_type: (line - first) as usize,
                    has_analysis: phrases[k].phrase_analysis.is_some(),
                },
            )
        } else {
            phrase_target(phrases, line, k + 1)
        }
    }
}

/// What the zero-based line shows, going through the sections from `k` on:
/// the first section whose header or whose phrase lies there.
pub open spec fn section_target(sections: Seq<SectionView>, line: usize, k: int) -> Option<
    HoverTargetView,
>
    decreases sections.len() - k,
{
    if k < 0 || k >= sections.len() {
        None
    } else if line == zero_based(sections[k].line_number) {
        Some(HoverTargetView::Section(sections[k].name))
    } else {
        match phrase_target(sections[k].phrases, line, 0) {
            Some(t) => Some(t),
            None => section_target(sections, line, k + 1),
        }
    }
}

fn to_zero_based(line: usize) -> (r: usize)
    ensures
        r == zero_based(line),
{
    if line > 0 {
        line - 1
    } else {
        0
    }
}

/// What the cursor rests on when it is on the zero-based line.
pub fn hover_target(document: &VnaDocument, line: usize) -> (r: Option<HoverTarget>)
    ensures
        target_view(r) == section_target(document@.sections, line, 0),
{
    let ghost sections = views(document.sections@);
    let mut k: usize = 0;
    while k < document.sections.len()
        invariant
            k <= document.sections.len(),
            sections == views(document.sections@),
            section_target(sections, line, 0) == section_target(sections, line, k as int),
        decreases document.sections.len() - k,
    {
        let section = &document.sections[k];
        if line == to_zero_based(section.line_number) {
            return Some(HoverTarget::Section(section.name.clone()));
        }
        let ghost phrases = views(section.phrases@);
        let mut j: usize = 0;
        while j < section.phrases.len()
            invariant
                j <= section.phrases.len(),
                k < document.sections.len(),
                phrases == views(section.phrases@),
                sections == views(document.sections@),
                sections[k as int] == section@,
                line != zero_based(section.line_number),
                section_target(sections, line, 0) == section_target(sections, line, k as int),
                phrase_target(phrases, line, 0) == phrase_target(phrases, line, j as int),
            decreases section.phrases.len() - j,
        {
            let phrase = &section.phrases[j];
            let first = to_zero_based(phrase.line_number);
            let has_analysis = phrase.phrase_analysis.is_some();
            let count: usize = if has_analysis {
                3
            } else {
                2
            };
            if line >= first && line - first < count {
                return Some(HoverTarget::Phrase { line_type: line - first, has_analysis });
            }
            j += 1;
        }
        k += 1;
    }
    None
}

/// The place of an issue in zero-based lines and columns: the range that
/// the issue carries, or else ten columns from its column on its line.
pub open spec fn issue_range(i: IssueView) -> Range {
    match i.range {
        Some(r) => r,
        None => {
            let line = zero_based(i.line);
            let column = match i.column {
                Some(c) => c,
                None => 0,
            };
            Range {
                start: Position { line, character: column },
                end: Position {
                    line,
                    character: if column + 10 <= usize::MAX {
                        (column + 10) as usize
                    } else {
                        usize::MAX
                    },
                },
            }
        },
    }
}

/// Where an editor marks an issue.
pub fn diagnostic_range(issue: &ValidationIssue) -> (r: Range)
    ensures
        r == issue_range(issue@),
{
    match issue.range {
        Some(r) => r,
        None => {
            let line = to_zero_based(issue.line);
            let column = match issue.column {
                Some(c) => c,
                None => 0,
            };
            let end = if column <= usize::MAX - 10 {
                column + 10
            } else {
                usize::MAX
            };
            Range {
                start: Position { line, character: column },
                end: Position { line, character: end },
            }
        },
    }
}

/// The entry of a phrase in the outline of a document.
#[derive(Debug, Clone, PartialEq)]
pub struct PhraseSymbol {
    pub name: String,
    pub detail: String,
    pub range: Range,
    pub selection_range: Range,
}

pub struct PhraseSymbolView {
    pub name: Seq<char>,
    pub detail: Seq<char>,
    pub range: Range,
    pub selection_range: Range,
}

impl View for PhraseSymbol {
    type V = PhraseSymbolView;

    open spec fn view(&self) -> PhraseSymbolView {
        PhraseSymbolView {
            name: self.name@,
            detail: self.detail@,
            range: self.range,
            selection_range: self.selection_range,
        }
    }
}

/// The entry of a section in the outline of a document, with the entries of
/// its phrases.
#[derive(Debug, Clone, PartialEq)]
pub struct SectionSymbol {
    pub name: String,
    pub detail: String,
    pub range: Range,
    pub selection_range: Range,
    pub children: Vec<PhraseSymbol>,
}

pub struct SectionSymbolView {
    pub name: Seq<char>,
    pub detail: Seq<char>,
    pub range: Range,
    pub selection_range: Range,
    pub children: Seq<PhraseSymbolView>,
}

impl View for SectionSymbol {
    type V = SectionSymbolView;

    open spec fn view(&self) -> SectionSymbolView {
        SectionSymbolView {
            name: self.name@,
            detail: self.detail@,
            range: self.range,
            selection_range: self.selection_range,
            children: views(self.children@),
        }
    }
}

pub open spec fn span(from_line: usize, from: usize, to_line: usize, to: usize) -> Range {
    Range {
        start: Position { line: from_line, character: from },
        end: Position { line: to_line, character: to },
    }
}

/// The outline entry of the phrase at `index` of its section: it spans the
/// three lines from its melodic line on.
pub open spec fn phrase_symbol(p: PhraseView, index: int) -> PhraseSymbolView {
    let first = zero_based(p.line_number);
    PhraseSymbolView {
        name: "Phrase "@ + decimal((index + 1) as nat),
        detail: decimal(p.swaras.len()) + " elements"@,
        range: span(first, 0, line_below(p.line_number, 2), 0),
        selection_range: span(first, 0, first, 10),
    }
}

/// The line behind a section: three lines behind the start of its last
/// phrase, or the line behind its header.
pub open spec fn section_end(s: SectionView) -> usize {
    if s.phrases.len() > 0 {
        line_below(s.phrases.last().line_number, 3)
    } else {
        line_below(s.line_number, 1)
    }
}

/// The outline entry of a section: its header is what an editor selects,
/// brackets included.
pub open spec fn section_symbol(s: SectionView) -> SectionSymbolView {
    let first = zero_based(s.line_number);
    SectionSymbolView {
        name: s.name,
        detail: decimal(s.phrases.len()) + " phrases"@,
        range: span(first, 0, section_end(s), 0),
        selection_range: span(
            first,
            0,
            first,
            line_below(vstd::utf8::encode_utf8(s.name).len() as usize, 2),
        ),
        children: Seq::new(s.phrases.len(), |i: int| phrase_symbol(s.phrases[i], i)),
    }
}

/// The outline of the sections of a document.
pub open spec fn outline_of(d: DocumentView) -> Seq<SectionSymbolView> {
    Seq::new(d.sections.len(), |i: int| section_symbol(d.sections[i]))
}

/// What the outline says of the metadata: title, raga and tala.
pub open spec fn metadata_detail(d: DocumentView) -> Seq<char> {
    d.metadata.title + " - "@ + d.metadata.raga + " - "@ + d.metadata.tala
}

/// What the outline says of the metadata of a document.
pub fn metadata_summary(document: &VnaDocument) -> (r: String)
    ensures
        r@ == metadata_detail(document@),
{
    let mut m: Vec<char> = Vec::new();
    push_text(&mut m, document.metadata.title.as_str());
    push_text(&mut m, " - ");
    push_text(&mut m, document.metadata.raga.as_str());
    push_text(&mut m, " - ");
    push_text(&mut m, document.metadata.tala.as_str());
    string_of(&m)
}

fn make_span(from_line: usize, from: usize, to_line: usize, to: usize) -> (r: Range)
    ensures
        r == span(from_line, from, to_line, to),
{
    Range {
        start: Position { line: from_line, character: from },
        end: Position { line: to_line, character: to },
    }
}

fn phrase_entry(phrase: &Phrase, index: usize) -> (r: PhraseSymbol)
    requires
        index < usize::MAX,
    ensures
        r@ == phrase_symbol(phrase@, index as int),
{
    let first = to_zero_based(phrase.line_number);
    let mut name: Vec<char> = Vec::new();
    push_text(&mut name, "Phrase ");
    push_decimal(&mut name, (index + 1) as u64);
    let mut detail: Vec<char> = Vec::new();
    push_decimal(&mut detail, phrase.swaras.len() as u64);
    push_text(&mut detail, " elements");
    PhraseSymbol {
        name: string_of(&name),
        detail: string_of(&detail),
        range: make_span(first, 0, below(phrase.line_number, 2), 0),
        selection_range: make_span(first, 0, first, 10),
    }
}

fn section_entry(section: &Section) -> (r: SectionSymbol)
    ensures
        r@ == section_symbol(section@),
{
    let ghost phrases = views(section.phrases@);
    let n = section.phrases.len();
    let mut children: Vec<PhraseSymbol> = Vec::new();
    let mut i: usize = 0;
    while i < n
        invariant
            i <= n == section.phrases@.len(),
            phrases == views(section.phrases@),
            views(children@) =~= Seq::new(i as nat, |k: int| phrase_symbol(phrases[k], k)),
        decreases n - i,
    {
        let child = phrase_entry(&section.phrases[i], i);
        let ghost before = views(children@);
        children.push(child);
        assert(views(children@) =~= before.push(phrase_symbol(phrases[i as int], i as int)));
        i += 1;
    }
    let first = to_zero_based(section.line_number);
    let end = if n > 0 {
        below(section.phrases[n - 1].line_number, 3)
    } else {
        below(section.line_number, 1)
    };
    let mut detail: Vec<char> = Vec::new();
    push_decimal(&mut detail, n as u64);
    push_text(&mut detail, " phrases");
    let width = below(section.name.as_str().len(), 2);
    SectionSymbol {
        name: section.name.clone(),
        detail: string_of(&detail),
        range: make_span(first, 0, end, 0),
        selection_range: make_span(first, 0, first, width),
        children,
    }
}

/// The outline of a document: an entry for each section, with an entry for
/// each of its phrases.
pub fn document_outline(document: &VnaDocument) -> (r: Vec<SectionSymbol>)
    ensures
        views(r@) == outline_of(document@),
{
    let ghost sections = views(document.sections@);
    let mut out: Vec<SectionSymbol> = Vec::new();
    let mut i: usize = 0;
    while i < document.sections.len()
        invariant
            i <= document.sections.len(),
            sections == views(document.sections@),
            views(out@) =~= Seq::new(i as nat, |k: int| section_symbol(sections[k])),
        decreases document.sections.len() - i,
    {
        let entry = section_entry(&document.sections[i]);
        let ghost before = views(out@);
        out.push(entry);
        assert(views(out@) =~= before.push(section_symbol(sections[i as int])));
        i += 1;
    }
    out
}

} // verus!
