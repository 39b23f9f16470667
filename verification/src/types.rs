//! The document tree, the issues a validation reports, and their
//! mathematical views.

use vstd::prelude::*;

verus! {

/// The views of the elements of a sequence.
pub open spec fn views<T: View>(v: Seq<T>) -> Seq<T::V> {
    Seq::new(v.len(), |i: int| v[i]@)
}

/// The characters of an optional string.
pub open spec fn opt_text(o: Option<String>) -> Option<Seq<char>> {
    match o {
        Some(s) => Some(s@),
        None => None,
    }
}

/// The line `k` lines below `line`, or the last line that can be numbered.
pub open spec fn line_below(line: usize, k: usize) -> usize {
    if line + k <= usize::MAX {
        (line + k) as usize
    } else {
        usize::MAX
    }
}

pub fn below(line: usize, k: usize) -> (r: usize)
    ensures
        r == line_below(line, k),
{
    if line <= usize::MAX - k {
        line + k
    } else {
        usize::MAX
    }
}

/// A whole notation document.
#[derive(Debug, Clone, PartialEq)]
pub struct VnaDocument {
    pub metadata: Metadata,
    pub sections: Vec<Section>,
    pub comments: Vec<Comment>,
}

pub struct DocumentView {
    pub metadata: MetadataView,
    pub sections: Seq<SectionView>,
    pub comments: Seq<CommentView>,
}

impl View for VnaDocument {
    type V = DocumentView;

    open spec fn view(&self) -> DocumentView {
        DocumentView {
            metadata: self.metadata@,
            sections: views(self.sections@),
            comments: views(self.comments@),
        }
    }
}

/// The metadata block at the head of a document.
#[derive(Debug, Clone, PartialEq)]
pub struct Metadata {
    pub title: String,
    pub raga: String,
    pub tala: String,
    pub composition_type: Option<String>,
    pub tempo: Option<u32>,
    pub composer: Option<String>,
    pub language: Option<String>,
    pub key: Option<String>,
    pub gati: Option<u8>,
    pub default_octave: Option<String>,
    pub arohanam: Option<String>,
    pub avarohanam: Option<String>,
}

pub struct MetadataView {
    pub title: Seq<char>,
    pub raga: Seq<char>,
    pub tala: Seq<char>,
    pub composition_type: Option<Seq<char>>,
    pub tempo: Option<u32>,
    pub composer: Option<Seq<char>>,
    pub language: Option<Seq<char>>,
    pub key: Option<Seq<char>>,
    pub gati: Option<u8>,
    pub default_octave: Option<Seq<char>>,
    pub arohanam: Option<Seq<char>>,
    pub avarohanam: Option<Seq<char>>,
}

impl MetadataView {
    /// Whether the three required fields hold something.
    pub open spec fn complete(self) -> bool {
        self.title.len() > 0 && self.raga.len() > 0 && self.tala.len() > 0
    }
}

impl View for Metadata {
    type V = MetadataView;

    open spec fn view(&self) -> MetadataView {
        MetadataView {
            title: self.title@,
            raga: self.raga@,
            tala: self.tala@,
            composition_type: opt_text(self.composition_type),
            tempo: self.tempo,
            composer: opt_text(self.composer),
            language: opt_text(self.language),
            key: opt_text(self.key),
            gati: self.gati,
            default_octave: opt_text(self.default_octave),
            arohanam: opt_text(self.arohanam),
            avarohanam: opt_text(self.avarohanam),
        }
    }
}

/// A named division of a document, such as `[pallavi]`.
#[derive(Debug, Clone, PartialEq)]
pub struct Section {
    pub name: String,
    pub phrases: Vec<Phrase>,
    pub line_number: usize,
    pub comments: Vec<Comment>,
    pub gati: Option<u8>,
    pub tala: Option<String>,
}

pub struct SectionView {
    pub name: Seq<char>,
    pub phrases: Seq<PhraseView>,
    pub line_number: usize,
    pub comments: Seq<CommentView>,
    pub gati: Option<u8>,
    pub tala: Option<Seq<char>>,
}

impl View for Section {
    type V = SectionView;

    open spec fn view(&self) -> SectionView {
        SectionView {
            name: self.name@,
            phrases: views(self.phrases@),
            line_number: self.line_number,
            comments: views(self.comments@),
            gati: self.gati,
            tala: opt_text(self.tala),
        }
    }
}

/// A melodic line paired with its lyric line.
#[derive(Debug, Clone, PartialEq)]
pub struct Phrase {
    pub swaras: Vec<String>,
    pub sahitya: Vec<String>,
    pub phrase_analysis: Option<String>,
    pub line_number: usize,
    pub preceding_comments: Vec<Comment>,
    pub gati: Option<u8>,
    pub tala: Option<String>,
    pub beat_positions: Vec<usize>,
}

pub struct PhraseView {
    pub swaras: Seq<Seq<char>>,
    pub sahitya: Seq<Seq<char>>,
    pub phrase_analysis: Option<Seq<char>>,
    pub line_number: usize,
    pub preceding_comments: Seq<CommentView>,
    pub gati: Option<u8>,
    pub tala: Option<Seq<char>>,
    pub beat_positions: Seq<usize>,
}

impl View for Phrase {
    type V = PhraseView;

    open spec fn view(&self) -> PhraseView {
        PhraseView {
            swaras: views(self.swaras@),
            sahitya: views(self.sahitya@),
            phrase_analysis: opt_text(self.phrase_analysis),
            line_number: self.line_number,
            preceding_comments: views(self.preceding_comments@),
            gati: self.gati,
            tala: opt_text(self.tala),
            beat_positions: self.beat_positions@,
        }
    }
}

/// A `#` comment of the source text.
#[derive(Debug, Clone, PartialEq)]
pub struct Comment {
    pub text: String,
    pub line_number: usize,
    pub comment_type: CommentType,
}

pub struct CommentView {
    pub text: Seq<char>,
    pub line_number: usize,
    pub comment_type: CommentType,
}

impl View for Comment {
    type V = CommentView;

    open spec fn view(&self) -> CommentView {
        CommentView {
            text: self.text@,
            line_number: self.line_number,
            comment_type: self.comment_type,
        }
    }
}

#[derive(Debug, Clone, Copy, PartialEq, Eq, Structural)]
pub enum CommentType {
    Line,
    Section,
    Performance,
}

/// A melodic token with its optional rhythmic subdivision.
#[derive(Debug, Clone, PartialEq)]
pub struct Token {
    pub text: String,
    pub gati: Option<u8>,
}

pub struct TokenView {
    pub text: Seq<char>,
    pub gati: Option<u8>,
}

impl View for Token {
    type V = TokenView;

    open spec fn view(&self) -> TokenView {
        TokenView { text: self.text@, gati: self.gati }
    }
}

/// One finding of a validation.
#[derive(Debug, Clone, PartialEq)]
pub struct ValidationIssue {
    pub severity: Severity,
    pub message: String,
    pub line: usize,
    pub column: Option<usize>,
    pub code: Option<String>,
    pub range: Option<Range>,
}

pub struct IssueView {
    pub severity: Severity,
    pub message: Seq<char>,
    pub line: usize,
    pub column: Option<usize>,
    pub code: Option<Seq<char>>,
    pub range: Option<Range>,
}

impl View for ValidationIssue {
    type V = IssueView;

    open spec fn view(&self) -> IssueView {
        IssueView {
            severity: self.severity,
            message: self.message@,
            line: self.line,
            column: self.column,
            code: opt_text(self.code),
            range: self.range,
        }
    }
}

#[derive(Debug, Clone, Copy, PartialEq, Eq, Structural)]
pub enum Severity {
    Error,
    Warning,
    Info,
}

#[derive(Debug, Clone, Copy, PartialEq, Eq, Structural)]
pub struct Range {
    pub start: Position,
    pub end: Position,
}

#[derive(Debug, Clone, Copy, PartialEq, Eq, Structural)]
pub struct Position {
    pub line: usize,
    pub character: usize,
}

/// A value together with the place in the source where it was read.
#[derive(Debug, Clone)]
pub struct ParseResult<T> {
    pub value: T,
    pub location: Location,
}

#[derive(Debug, Clone, Copy, PartialEq, Eq, Structural)]
pub struct Location {
    pub line: usize,
    pub column: usize,
    pub offset: usize,
}

impl<T> ParseResult<T> {
    pub fn new(value: T, line: usize, column: usize, offset: usize) -> (r: Self)
        ensures
            r.value == value,
            r.location == (Location { line, column, offset }),
    {
        Self { value, location: Location { line, column, offset } }
    }
}

/// Why a text is no document.
#[derive(Debug, Clone, Copy, PartialEq, Eq, Structural)]
pub enum ParseErrorKind {
    MissingFrontmatter,
    EmptyFrontmatter,
    MalformedMetadata,
    MissingRequiredField,
    UnexpectedContent,
    MissingBeatMarkers,
    IncompletePhrase,
    InvalidGati,
    BeatMisalignment,
}

/// The failure of a parse: its kind, the 1-based source line it was found
/// at, and a description.
#[derive(Debug, Clone, PartialEq)]
pub struct ParseError {
    pub kind: ParseErrorKind,
    pub line: usize,
    pub message: String,
}

pub struct ParseErrorView {
    pub kind: ParseErrorKind,
    pub line: usize,
    pub message: Seq<char>,
}

impl View for ParseError {
    type V = ParseErrorView;

    open spec fn view(&self) -> ParseErrorView {
        ParseErrorView { kind: self.kind, line: self.line, message: self.message@ }
    }
}

impl ParseError {
    /// The description that a caller prints.
    pub fn to_string(&self) -> (s: String)
        ensures
            s@ == self.message@,
    {
        self.message.clone()
    }
}

} // verus!
