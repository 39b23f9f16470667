//! Flat copies of the document tree and of an issue, as they are handed to a
//! script host: without comments, overrides, line numbers and beats.

use crate::text::{chars_of, copy_opt_text, copy_texts, string_of};
use crate::types::{
    opt_text, views, IssueView, MetadataView, Phrase, PhraseView, Section, SectionView, Severity,
    DocumentView, ValidationIssue, VnaDocument,
};
use vstd::prelude::*;

verus! {

#[derive(Debug, Clone)]
pub struct WasmVnaDocument {
    pub metadata: WasmMetadata,
    pub sections: Vec<WasmSection>,
}

pub struct WasmDocumentView {
    pub metadata: WasmMetadataView,
    pub sections: Seq<WasmSectionView>,
}

impl View for WasmVnaDocument {
    type V = WasmDocumentView;

    open spec fn view(&self) -> WasmDocumentView {
        WasmDocumentView { metadata: self.metadata@, sections: views(self.sections@) }
    }
}

#[derive(Debug, Clone)]
pub struct WasmMetadata {
    pub title: String,
    pub raga: String,
    pub tala: String,
    pub composer: Option<String>,
    pub language: Option<String>,
    pub tempo: Option<u32>,
    pub gati: Option<u8>,
}

pub struct WasmMetadataView {
    pub title: Seq<char>,
    pub raga: Seq<char>,
    pub tala: Seq<char>,
    pub composer: Option<Seq<char>>,
    pub language: Option<Seq<char>>,
    pub tempo: Option<u32>,
    pub gati: Option<u8>,
}

impl View for WasmMetadata {
    type V = WasmMetadataView;

    open spec fn view(&self) -> WasmMetadataView {
        WasmMetadataView {
            title: self.title@,
            raga: self.raga@,
            tala: self.tala@,
            composer: opt_text(self.composer),
            language: opt_text(self.language),
            tempo: self.tempo,
            gati: self.gati,
        }
    }
}

#[derive(Debug, Clone)]
pub struct WasmSection {
    pub name: String,
    pub phrases: Vec<WasmPhrase>,
}

pub struct WasmSectionView {
    pub name: Seq<char>,
    pub phrases: Seq<WasmPhraseView>,
}

impl View for WasmSection {
    type V = WasmSectionView;

    open spec fn view(&self) -> WasmSectionView {
        WasmSectionView { name: self.name@, phrases: views(self.phrases@) }
    }
}

#[derive(Debug, Clone)]
pub struct WasmPhrase {
    pub swaras: Vec<String>,
    pub sahitya: Vec<String>,
    pub phrase_analysis: Option<String>,
}

pub struct WasmPhraseView {
    pub swaras: Seq<Seq<char>>,
    pub sahitya: Seq<Seq<char>>,
    pub phrase_analysis: Option<Seq<char>>,
}

impl View for WasmPhrase {
    type V = WasmPhraseView;

    open spec fn view(&self) -> WasmPhraseView {
        WasmPhraseView {
            swaras: views(self.swaras@),
            sahitya: views(self.sahitya@),
            phrase_analysis: opt_text(self.phrase_analysis),
        }
    }
}

#[derive(Debug, Clone)]
pub struct WasmValidationIssue {
    pub severity: String,
    pub message: String,
    pub line: usize,
}

pub struct WasmIssueView {
    pub severity: Seq<char>,
    pub message: Seq<char>,
    pub line: usize,
}

impl View for WasmValidationIssue {
    type V = WasmIssueView;

    open spec fn view(&self) -> WasmIssueView {
        WasmIssueView { severity: self.severity@, message: self.message@, line: self.line }
    }
}

/// The flat copy of a phrase: its two lines and its analysis.
pub open spec fn flat_phrase(p: PhraseView) -> WasmPhraseView {
    WasmPhraseView { swaras: p.swaras, sahitya: p.sahitya, phrase_analysis: p.phrase_analysis }
}

/// The flat copy of a section: its name and its phrases.
pub open spec fn flat_section(s: SectionView) -> WasmSectionView {
    WasmSectionView { name: s.name, phrases: s.phrases.map_values(|p: PhraseView| flat_phrase(p)) }
}

/// The flat copy of the metadata: the fields that a script host shows.
pub open spec fn flat_metadata(m: MetadataView) -> WasmMetadataView {
    WasmMetadataView {
        title: m.title,
        raga: m.raga,
        tala: m.tala,
        composer: m.composer,
        language: m.language,
        tempo: m.tempo,
        gati: m.gati,
    }
}

/// The flat copy of a document.
pub open spec fn flat_document(d: DocumentView) -> WasmDocumentView {
    WasmDocumentView {
        metadata: flat_metadata(d.metadata),
        sections: d.sections.map_values(|s: SectionView| flat_section(s)),
    }
}

/// The lower-case name of a severity.
pub open spec fn severity_name(s: Severity) -> Seq<char> {
    match s {
        Severity::Error => "error"@,
        Severity::Warning => "warning"@,
        Severity::Info => "info"@,
    }
}

/// The flat copy of an issue: the name of its severity, its message and its
/// line.
pub open spec fn flat_issue(i: IssueView) -> WasmIssueView {
    WasmIssueView { severity: severity_name(i.severity), message: i.message, line: i.line }
}

impl From<&Phrase> for WasmPhrase {
    fn from(phrase: &Phrase) -> (r: Self)
        ensures
            r@ == flat_phrase(phrase@),
    {
        let r = WasmPhrase {
            swaras: copy_texts(&phrase.swaras),
            sahitya: copy_texts(&phrase.sahitya),
            phrase_analysis: copy_opt_text(&phrase.phrase_analysis),
        };
        r
    }
}

impl vstd::std_specs::convert::FromSpecImpl<&Phrase> for WasmPhrase {
    open spec fn obeys_from_spec() -> bool {
        false
    }

    open spec fn from_spec(phrase: &Phrase) -> Self {
        arbitrary()
    }
}

impl From<&Section> for WasmSection {
    fn from(section: &Section) -> (r: Self)
        ensures
            r@ == flat_section(section@),
    {
        let mut phrases: Vec<WasmPhrase> = Vec::new();
        let mut i: usize = 0;
        while i < section.phrases.len()
            invariant
                i <= section.phrases.len(),
                views(phrases@) =~= Seq::new(
                    i as nat,
                    |k: int| flat_phrase(section.phrases@[k]@),
                ),
            decreases section.phrases.len() - i,
        {
            let p = WasmPhrase::from(&section.phrases[i]);
            let ghost before = views(phrases@);
            phrases.push(p);
            assert(views(phrases@) =~= before.push(flat_phrase(section.phrases@[i as int]@)));
            i += 1;
        }
        assert(views(phrases@) =~= views(section.phrases@).map_values(
            |p: PhraseView| flat_phrase(p),
        ));
        WasmSection { name: section.name.clone(), phrases }
    }
}

impl vstd::std_specs::convert::FromSpecImpl<&Section> for WasmSection {
    open spec fn obeys_from_spec() -> bool {
        false
    }

    open spec fn from_spec(section: &Section) -> Self {
        arbitrary()
    }
}

impl From<&VnaDocument> for WasmVnaDocument {
    fn from(doc: &VnaDocument) -> (r: Self)
        ensures
            r@ == flat_document(doc@),
    {
        let mut sections: Vec<WasmSection> = Vec::new();
        let mut i: usize = 0;
        while i < doc.sections.len()
            invariant
                i <= doc.sections.len(),
                views(sections@) =~= Seq::new(
                    i as nat,
                    |k: int| flat_section(doc.sections@[k]@),
                ),
            decreases doc.sections.len() - i,
        {
            let s = WasmSection::from(&doc.sections[i]);
            let ghost before = views(sections@);
            sections.push(s);
            assert(views(sections@) =~= before.push(flat_section(doc.sections@[i as int]@)));
            i += 1;
        }
        assert(views(sections@) =~= views(doc.sections@).map_values(
            |s: SectionView| flat_section(s),
        ));
        WasmVnaDocument {
            metadata: WasmMetadata {
                title: doc.metadata.title.clone(),
                raga: doc.metadata.raga.clone(),
                tala: doc.metadata.tala.clone(),
                composer: copy_opt_text(&doc.metadata.composer),
                language: copy_opt_text(&doc.metadata.language),
                tempo: doc.metadata.tempo,
                gati: doc.metadata.gati,
            },
            sections,
        }
    }
}

impl vstd::std_specs::convert::FromSpecImpl<&VnaDocument> for WasmVnaDocument {
    open spec fn obeys_from_spec() -> bool {
        false
    }

    open spec fn from_spec(doc: &VnaDocument) -> Self {
        arbitrary()
    }
}

impl From<&ValidationIssue> for WasmValidationIssue {
    fn from(issue: &ValidationIssue) -> (r: Self)
        ensures
            r@ == flat_issue(issue@),
    {
        let name = match issue.severity {
            Severity::Error => "error",
            Severity::Warning => "warning",
            Severity::Info => "info",
        };
        WasmValidationIssue {
            severity: string_of(&chars_of(name)),
            message: issue.message.clone(),
            line: issue.line,
        }
    }
}

impl vstd::std_specs::convert::FromSpecImpl<&ValidationIssue> for WasmValidationIssue {
    open spec fn obeys_from_spec() -> bool {
        false
    }

    open spec fn from_spec(issue: &ValidationIssue) -> Self {
        arbitrary()
    }
}

} // verus!
