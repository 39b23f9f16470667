//! The validator: the rules that a parsed document is held to, and the flat
//! list of issues that they yield.
//!
//! No rule is fatal: every document has its list of issues.

use crate::sahitya_parser::{
    cut_by_marks, lemma_marked_units_fixed, parse_sahitya_token_with_lang, possible_units,
};
use crate::text::{
    append_chars, chars_of, decimal, find_char, first_index, parse_unsigned, push_decimal,
    push_text, slice_of, spells, string_of, texts_of, trim, trimmed, unsigned_of,
};
use crate::types::{
    below, line_below, views, DocumentView, IssueView, Metadata, MetadataView, Phrase,
    PhraseView, Section, SectionView, Severity, ValidationIssue, VnaDocument,
};
use crate::units::{melodic_units, parse_swara_units};
use vstd::prelude::*;

verus! {

/// Whether a character has the Unicode property `Lowercase`.
pub uninterp spec fn is_lowercase_char(c: char) -> bool;

/// Whether a character has the Unicode property `Uppercase`.
pub uninterp spec fn is_uppercase_char(c: char) -> bool;

/// `char::is_lowercase` tells whether the character has the Unicode property
/// `Lowercase`.
pub assume_specification[ char::is_lowercase ](c: char) -> (b: bool)
    ensures
        b == is_lowercase_char(c),
;

/// `char::is_uppercase` tells whether the character has the Unicode property
/// `Uppercase`.
pub assume_specification[ char::is_uppercase ](c: char) -> (b: bool)
    ensures
        b == is_uppercase_char(c),
;

// ---------------------------------------------------------------------
// Issues
// ---------------------------------------------------------------------
/// An issue at a line, with its machine-readable code.
pub open spec fn issue(severity: Severity, line: usize, message: Seq<char>, code: Seq<char>)
    -> IssueView {
    IssueView { severity, message, line, column: None, code: Some(code), range: None }
}

fn make_issue(severity: Severity, line: usize, message: &Vec<char>, code: &str) -> (r:
    ValidationIssue)
    ensures
        r@ == issue(severity, line, message@, code@),
{
    ValidationIssue {
        severity,
        message: string_of(message),
        line,
        column: None,
        code: Some(string_of(&chars_of(code))),
        range: None,
    }
}

fn push_issue(issues: &mut Vec<ValidationIssue>, found: ValidationIssue)
    ensures
        views(final(issues)@) == views(old(issues)@).push(found@),
{
    issues.push(found);
}

fn extend_issues(issues: &mut Vec<ValidationIssue>, tail: Vec<ValidationIssue>)
    ensures
        views(final(issues)@) == views(old(issues)@) + views(tail@),
{
    let mut rest = tail;
    issues.append(&mut rest);
}

// ---------------------------------------------------------------------
// Gati and tala
// ---------------------------------------------------------------------
/// The usual rhythmic subdivisions.
pub open spec fn spec_is_standard_gati(g: u8) -> bool {
    g == 3 || g == 4 || g == 5 || g == 7 || g == 9
}

pub fn is_standard_gati(g: u8) -> (r: bool)
    ensures
        r == spec_is_standard_gati(g),
{
    g == 3 || g == 4 || g == 5 || g == 7 || g == 9
}

pub open spec fn unusual_gati_message(g: u8) -> Seq<char> {
    "Unusual gati value: "@ + decimal(g as nat) + " (typical values: 3, 4, 5, 7, 9)"@
}

/// The warning about an override of the rhythmic subdivision, if it is none
/// of the usual ones.
pub open spec fn gati_issues(gati: Option<u8>, line: usize) -> Seq<IssueView> {
    match gati {
        Some(g) => if spec_is_standard_gati(g) {
            Seq::empty()
        } else {
            seq![issue(Severity::Warning, line, unusual_gati_message(g), "unusual_gati"@)]
        },
        None => Seq::empty(),
    }
}

fn check_gati(issues: &mut Vec<ValidationIssue>, gati: Option<u8>, line: usize)
    ensures
        views(final(issues)@) == views(old(issues)@) + gati_issues(gati, line),
{
    match gati {
        Some(g) => {
            if !is_standard_gati(g) {
                let mut m: Vec<char> = Vec::new();
                push_text(&mut m, "Unusual gati value: ");
                push_decimal(&mut m, g as u64);
                push_text(&mut m, " (typical values: 3, 4, 5, 7, 9)");
                push_issue(issues, make_issue(Severity::Warning, line, &m, "unusual_gati"));
            }
        },
        None => {},
    }
}

/// The characters of a tala pattern: a clap, a wave, or a count of fingers.
pub open spec fn spec_is_tala_char(c: char) -> bool {
    c == '+' || c == '0' || ('2' <= c && c <= '9')
}

pub fn is_tala_char(c: char) -> (r: bool)
    ensures
        r == spec_is_tala_char(c),
{
    c == '+' || c == '0' || ('2' <= c && c <= '9')
}

/// The patterns of the common talas.
pub open spec fn spec_is_known_tala(p: Seq<char>) -> bool {
    ||| p == "+234+0+0"@
    ||| p == "0++234"@
    ||| p == "+230+00"@
    ||| p == "+23+0+0"@
    ||| p == "+0+0"@
    ||| p == "++++++++"@
}

pub fn is_known_tala(p: &Vec<char>) -> (r: bool)
    ensures
        r == spec_is_known_tala(p@),
{
    spells(p, "+234+0+0") || spells(p, "0++234") || spells(p, "+230+00") || spells(p, "+23+0+0")
        || spells(p, "+0+0") || spells(p, "++++++++")
}

pub open spec fn invalid_tala_message(c: char, position: nat) -> Seq<char> {
    "Invalid character '"@.push(c) + "' in tala pattern at position "@ + decimal(position)
        + ": valid characters are +, 0, and 2-9"@
}

pub open spec fn uncommon_tala_message(p: Seq<char>) -> Seq<char> {
    "Uncommon tala pattern '"@ + p
        + "'. Common patterns include: +234+0+0 (Adi), 0++234 (Rupaka), +230+00 (Misra Chapu), +23+0+0 (Triputa), +0+0 (Khanda Chapu), ++++++++ (All claps)"@
}

/// The errors about the first `k` characters of a tala pattern: one for
/// each character that is none of a pattern.
pub open spec fn tala_char_issues(p: Seq<char>, line: usize, k: int) -> Seq<IssueView>
    decreases k,
{
    if k <= 0 {
        Seq::empty()
    } else if spec_is_tala_char(p[k - 1]) {
        tala_char_issues(p, line, k - 1)
    } else {
        tala_char_issues(p, line, k - 1).push(
            issue(
                Severity::Error,
                line,
                invalid_tala_message(p[k - 1], k as nat),
                "invalid_tala_pattern"@,
            ),
        )
    }
}

/// The note about a pattern that is not empty and none of the common ones.
pub open spec fn uncommon_tala_issues(p: Seq<char>, line: usize) -> Seq<IssueView> {
    if !spec_is_known_tala(p) && p.len() > 0 {
        seq![issue(Severity::Info, line, uncommon_tala_message(p), "uncommon_tala_pattern"@)]
    } else {
        Seq::empty()
    }
}

/// The issues of a tala pattern.
pub open spec fn tala_issues(p: Seq<char>, line: usize) -> Seq<IssueView> {
    tala_char_issues(p, line, p.len() as int) + uncommon_tala_issues(p, line)
}

/// Checks a tala pattern.
pub fn validate_tala_pattern(pattern: &str, line: usize) -> (issues: Vec<ValidationIssue>)
    ensures
        views(issues@) == tala_issues(pattern@, line),
{
    let p = chars_of(pattern);
    let mut issues: Vec<ValidationIssue> = Vec::new();
    let mut i: usize = 0;
    while i < p.len()
        invariant
            i <= p.len(),
            p@ == pattern@,
            views(issues@) == tala_char_issues(p@, line, i as int),
        decreases p.len() - i,
    {
        let c = p[i];
        if !is_tala_char(c) {
            let mut m: Vec<char> = Vec::new();
            push_text(&mut m, "Invalid character '");
            m.push(c);
            push_text(&mut m, "' in tala pattern at position ");
            push_decimal(&mut m, (i + 1) as u64);
            push_text(&mut m, ": valid characters are +, 0, and 2-9");
            push_issue(&mut issues, make_issue(Severity::Error, line, &m, "invalid_tala_pattern"));
        }
        i += 1;
    }
    if !is_known_tala(&p) && p.len() > 0 {
        let mut m: Vec<char> = Vec::new();
        push_text(&mut m, "Uncommon tala pattern '");
        append_chars(&mut m, &p);
        push_text(
            &mut m,
            "'. Common patterns include: +234+0+0 (Adi), 0++234 (Rupaka), +230+00 (Misra Chapu), +23+0+0 (Triputa), +0+0 (Khanda Chapu), ++++++++ (All claps)",
        );
        push_issue(&mut issues, make_issue(Severity::Info, line, &m, "uncommon_tala_pattern"));
    }
    issues
}

fn check_tala(issues: &mut Vec<ValidationIssue>, tala: &Option<String>, line: usize)
    ensures
        views(final(issues)@) == views(old(issues)@) + optional_tala_issues(
            crate::types::opt_text(*tala),
            line,
        ),
{
    match tala {
        Some(p) => {
            let found = validate_tala_pattern(p.as_str(), line);
            extend_issues(issues, found);
        },
        None => {},
    }
}

/// The issues of an override of the tala pattern, if there is one.
pub open spec fn optional_tala_issues(tala: Option<Seq<char>>, line: usize) -> Seq<IssueView> {
    match tala {
        Some(p) => tala_issues(p, line),
        None => Seq::empty(),
    }
}

// ---------------------------------------------------------------------
// Metadata
// ---------------------------------------------------------------------
pub open spec fn unusual_tempo_message(tempo: u32) -> Seq<char> {
    "Unusual tempo: "@ + decimal(tempo as nat) + " BPM (typical range: 20-300)"@
}

/// The warning about a tempo below 20 or above 300.
pub open spec fn tempo_issues(tempo: Option<u32>) -> Seq<IssueView> {
    match tempo {
        Some(t) => if t < 20 || t > 300 {
            seq![issue(Severity::Warning, 1, unusual_tempo_message(t), "unusual_tempo"@)]
        } else {
            Seq::empty()
        },
        None => Seq::empty(),
    }
}

/// The error about a required text that is blank.
pub open spec fn blank_issues(text: Seq<char>, line: usize, message: Seq<char>, code: Seq<char>)
    -> Seq<IssueView> {
    if trimmed(text).len() == 0 {
        seq![issue(Severity::Error, line, message, code)]
    } else {
        Seq::empty()
    }
}

/// The issues of the metadata, all at line 1.
pub open spec fn metadata_issues(m: MetadataView) -> Seq<IssueView> {
    tempo_issues(m.tempo) + gati_issues(m.gati, 1) + blank_issues(
        m.title,
        1,
        "Title cannot be empty"@,
        "empty_title"@,
    ) + blank_issues(m.raga, 1, "Raga cannot be empty"@, "empty_raga"@) + blank_issues(
        m.tala,
        1,
        "Tala cannot be empty"@,
        "empty_tala"@,
    ) + tala_issues(m.tala, 1)
}

fn check_blank(
    issues: &mut Vec<ValidationIssue>,
    text: &String,
    line: usize,
    message: &str,
    code: &str,
)
    ensures
        views(final(issues)@) == views(old(issues)@) + blank_issues(
            text@,
            line,
            message@,
            code@,
        ),
{
    if trim(&chars_of(text.as_str())).len() == 0 {
        push_issue(issues, make_issue(Severity::Error, line, &chars_of(message), code));
    }
}

fn check_tempo(issues: &mut Vec<ValidationIssue>, tempo: Option<u32>)
    ensures
        views(final(issues)@) == views(old(issues)@) + tempo_issues(tempo),
{
    match tempo {
        Some(t) => {
            if t < 20 || t > 300 {
                let mut m: Vec<char> = Vec::new();
                push_text(&mut m, "Unusual tempo: ");
                push_decimal(&mut m, t as u64);
                push_text(&mut m, " BPM (typical range: 20-300)");
                push_issue(issues, make_issue(Severity::Warning, 1, &m, "unusual_tempo"));
            }
        },
        None => {},
    }
}

/// Checks the metadata of a document.
pub fn validate_metadata(metadata: &Metadata) -> (issues: Vec<ValidationIssue>)
    ensures
        views(issues@) == metadata_issues(metadata@),
{
    let mut issues: Vec<ValidationIssue> = Vec::new();
    check_tempo(&mut issues, metadata.tempo);
    check_gati(&mut issues, metadata.gati, 1);
    check_blank(&mut issues, &metadata.title, 1, "Title cannot be empty", "empty_title");
    check_blank(&mut issues, &metadata.raga, 1, "Raga cannot be empty", "empty_raga");
    check_blank(&mut issues, &metadata.tala, 1, "Tala cannot be empty", "empty_tala");
    let found = validate_tala_pattern(metadata.tala.as_str(), 1);
    extend_issues(&mut issues, found);
    issues
}

// ---------------------------------------------------------------------
// Token pairs
// ---------------------------------------------------------------------
/// The melodic token without the rhythmic subdivision that a colon sets off
/// at its end.
pub open spec fn token_text(swara: Seq<char>) -> Seq<char> {
    swara.take(first_index(swara, ':'))
}

/// Whether the melodic token sets a rhythmic subdivision of its own.
pub open spec fn has_token_gati(swara: Seq<char>) -> bool {
    first_index(swara, ':') < swara.len()
}

/// The text behind the colon of a melodic token.
pub open spec fn token_gati_text(swara: Seq<char>) -> Seq<char> {
    swara.skip(first_index(swara, ':') + 1)
}

pub open spec fn unusual_token_gati_message(swara: Seq<char>, g: nat) -> Seq<char> {
    "Unusual gati value in token '"@ + swara + "': "@ + decimal(g)
        + " (typical values: 3, 4, 5, 7, 9)"@
}

pub open spec fn invalid_token_gati_message(swara: Seq<char>) -> Seq<char> {
    "Invalid gati notation in token '"@ + swara + "': expected number after colon"@
}

/// The issue of the rhythmic subdivision that a melodic token sets: an error
/// where it is no number up to 255, a warning where it is none of the usual
/// ones.
pub open spec fn token_gati_issues(swara: Seq<char>, line: usize) -> Seq<IssueView> {
    if !has_token_gati(swara) {
        Seq::empty()
    } else {
        match unsigned_of(token_gati_text(swara), 255) {
            Some(g) => if spec_is_standard_gati(g as u8) {
                Seq::empty()
            } else {
                seq![
                    issue(
                        Severity::Warning,
                        line,
                        unusual_token_gati_message(swara, g),
                        "unusual_token_gati"@,
                    ),
                ]
            },
            None => seq![
                issue(
                    Severity::Error,
                    line,
                    invalid_token_gati_message(swara),
                    "invalid_token_gati"@,
                ),
            ],
        }
    }
}

pub open spec fn unit_mismatch_message(
    position: nat,
    text: Seq<char>,
    melodic: nat,
    sahitya: Seq<char>,
    lyric: nat,
) -> Seq<char> {
    "Token unit mismatch at position "@ + decimal(position) + ": swara '"@ + text + "' ("@
        + decimal(melodic) + " units) vs sahitya '"@ + sahitya + "' ("@ + decimal(lyric)
        + " units)"@
}

/// The error about a pair of tokens whose numbers of units differ: the
/// melodic token at `index` has as many units as the tokenizer finds, the
/// lyric token has `lyric`.
pub open spec fn unit_issues(
    index: int,
    swara: Seq<char>,
    sahitya: Seq<char>,
    lyric: nat,
    line: usize,
) -> Seq<IssueView> {
    let melodic = melodic_units(token_text(swara)).len();
    if melodic != lyric {
        seq![
            issue(
                Severity::Error,
                line_below(line, 1),
                unit_mismatch_message(
                    (index + 1) as nat,
                    token_text(swara),
                    melodic,
                    sahitya,
                    lyric,
                ),
                "token_unit_mismatch"@,
            ),
        ]
    } else {
        Seq::empty()
    }
}

/// The issues of the pair of tokens at `index` of a phrase at `line`, where
/// the lyric token has `lyric` units.
pub open spec fn token_issues(
    index: int,
    swara: Seq<char>,
    sahitya: Seq<char>,
    lyric: nat,
    line: usize,
) -> Seq<IssueView> {
    token_gati_issues(swara, line) + unit_issues(index, swara, sahitya, lyric, line)
}

/// Checks the pair of tokens at `position` of a phrase at `line`, counting
/// from one: the melodic token, and the lyric token with the units that it
/// was cut into.
pub fn check_token_pair(
    position: usize,
    swara: &str,
    sahitya: &str,
    lyric_units: &Vec<String>,
    line: usize,
) -> (issues: Vec<ValidationIssue>)
    ensures
        views(issues@) == token_issues(
            position - 1,
            swara@,
            sahitya@,
            lyric_units@.len() as nat,
            line,
        ),
{
    let mut issues: Vec<ValidationIssue> = Vec::new();
    let s = chars_of(swara);
    let colon = find_char(&s, ':');
    let text = slice_of(&s, 0, colon);
    if colon < s.len() {
        let gati_text = slice_of(&s, colon + 1, s.len());
        match parse_unsigned(&gati_text, 255) {
            Some(g) => {
                if !is_standard_gati(g as u8) {
                    let mut m: Vec<char> = Vec::new();
                    push_text(&mut m, "Unusual gati value in token '");
                    append_chars(&mut m, &s);
                    push_text(&mut m, "': ");
                    push_decimal(&mut m, g as u64);
                    push_text(&mut m, " (typical values: 3, 4, 5, 7, 9)");
                    push_issue(
                        &mut issues,
                        make_issue(Severity::Warning, line, &m, "unusual_token_gati"),
                    );
                }
            },
            None => {
                let mut m: Vec<char> = Vec::new();
                push_text(&mut m, "Invalid gati notation in token '");
                append_chars(&mut m, &s);
                push_text(&mut m, "': expected number after colon");
                push_issue(
                    &mut issues,
                    make_issue(Severity::Error, line, &m, "invalid_token_gati"),
                );
            },
        }
    }
    let text_string = string_of(&text);
    let melodic = parse_swara_units(text_string.as_str());
    if melodic.len() != lyric_units.len() {
        let mut m: Vec<char> = Vec::new();
        push_text(&mut m, "Token unit mismatch at position ");
        push_decimal(&mut m, position as u64);
        push_text(&mut m, ": swara '");
        append_chars(&mut m, &text);
        push_text(&mut m, "' (");
        push_decimal(&mut m, melodic.len() as u64);
        push_text(&mut m, " units) vs sahitya '");
        push_text(&mut m, sahitya);
        push_text(&mut m, "' (");
        push_decimal(&mut m, lyric_units.len() as u64);
        push_text(&mut m, " units)");
        push_issue(
            &mut issues,
            make_issue(Severity::Error, below(line, 1), &m, "token_unit_mismatch"),
        );
    }
    issues
}

// ---------------------------------------------------------------------
// Phrases
// ---------------------------------------------------------------------
/// The units of each lyric token of a phrase.
pub type PhraseUnits = Seq<Seq<Seq<char>>>;

/// The issues of the first `k` pairs of tokens of a phrase.
pub open spec fn pair_issues(p: PhraseView, lyric: PhraseUnits, k: int) -> Seq<IssueView>
    decreases k,
{
    if k <= 0 {
        Seq::empty()
    } else {
        pair_issues(p, lyric, k - 1) + token_issues(
            k - 1,
            p.swaras[k - 1],
            p.sahitya[k - 1],
            lyric[k - 1].len(),
            p.line_number,
        )
    }
}

/// The characters of a phrase analysis.
pub open spec fn spec_is_analysis_char(c: char) -> bool {
    c == '_' || c == '*' || c == '(' || c == ')' || c == ' '
}

pub fn is_analysis_char(c: char) -> (r: bool)
    ensures
        r == spec_is_analysis_char(c),
{
    c == '_' || c == '*' || c == '(' || c == ')' || c == ' '
}

pub open spec fn invalid_analysis_message(c: char, position: nat) -> Seq<char> {
    "Invalid character '"@.push(c) + "' in phrase analysis at position "@ + decimal(position)
}

/// The warnings about the first `k` characters of a phrase analysis.
pub open spec fn analysis_char_issues(a: Seq<char>, line: usize, k: int) -> Seq<IssueView>
    decreases k,
{
    if k <= 0 {
        Seq::empty()
    } else if spec_is_analysis_char(a[k - 1]) {
        analysis_char_issues(a, line, k - 1)
    } else {
        analysis_char_issues(a, line, k - 1).push(
            issue(
                Severity::Warning,
                line_below(line, 2),
                invalid_analysis_message(a[k - 1], k as nat),
                "invalid_phrase_analysis"@,
            ),
        )
    }
}

/// The warnings about a phrase analysis, if there is one.
pub open spec fn analysis_issues(analysis: Option<Seq<char>>, line: usize) -> Seq<IssueView> {
    match analysis {
        Some(a) => analysis_char_issues(a, line, a.len() as int),
        None => Seq::empty(),
    }
}

/// Whether a token holds a lower-case and an upper-case character.
pub open spec fn is_mixed_case(s: Seq<char>) -> bool {
    (exists|i: int| 0 <= i < s.len() && is_lowercase_char(#[trigger] s[i])) && (exists|i: int|
        0 <= i < s.len() && is_uppercase_char(#[trigger] s[i]))
}

pub open spec fn mixed_case_message(swara: Seq<char>, position: nat) -> Seq<char> {
    "Mixed case in swara '"@ + swara + "' at position "@ + decimal(position)
}

/// The warnings about the first `k` melodic tokens: one for each that mixes
/// cases.
pub open spec fn case_issues(swaras: Seq<Seq<char>>, line: usize, k: int) -> Seq<IssueView>
    decreases k,
{
    if k <= 0 {
        Seq::empty()
    } else if is_mixed_case(swaras[k - 1]) {
        case_issues(swaras, line, k - 1).push(
            issue(
                Severity::Warning,
                line,
                mixed_case_message(swaras[k - 1], k as nat),
                "mixed_case_swara"@,
            ),
        )
    } else {
        case_issues(swaras, line, k - 1)
    }
}

pub open spec fn empty_line_issues(
    tokens: Seq<Seq<char>>,
    line: usize,
    message: Seq<char>,
    code: Seq<char>,
) -> Seq<IssueView> {
    if tokens.len() == 0 {
        seq![issue(Severity::Error, line, message, code)]
    } else {
        Seq::empty()
    }
}

pub open spec fn count_mismatch_message(swaras: nat, sahitya: nat) -> Seq<char> {
    "Token count mismatch: swara line has "@ + decimal(swaras) + " tokens, sahitya line has "@
        + decimal(sahitya)
}

/// The issues that a phrase has whatever its tokens hold: of its overrides,
/// and of a line without tokens.
pub open spec fn phrase_head_issues(p: PhraseView) -> Seq<IssueView> {
    gati_issues(p.gati, p.line_number) + optional_tala_issues(p.tala, p.line_number)
        + empty_line_issues(
        p.swaras,
        p.line_number,
        "Swara line cannot be empty"@,
        "empty_swara_line"@,
    ) + empty_line_issues(
        p.sahitya,
        line_below(p.line_number, 1),
        "Sahitya line cannot be empty"@,
        "empty_sahitya_line"@,
    )
}

/// The issues of a phrase whose lyric tokens have the units `lyric`. Where
/// the two lines differ in their number of tokens, that is the last issue of
/// the phrase: nothing is said of its tokens.
pub open spec fn phrase_issues(p: PhraseView, lyric: PhraseUnits) -> Seq<IssueView> {
    if p.swaras.len() != p.sahitya.len() {
        phrase_head_issues(p).push(
            issue(
                Severity::Error,
                line_below(p.line_number, 1),
                count_mismatch_message(p.swaras.len(), p.sahitya.len()),
                "token_count_mismatch"@,
            ),
        )
    } else {
        phrase_head_issues(p) + pair_issues(p, lyric, p.swaras.len() as int) + analysis_issues(
            p.phrase_analysis,
            p.line_number,
        ) + case_issues(p.swaras, p.line_number, p.swaras.len() as int)
    }
}

/// Whether `lyric` can be the units of the lyric tokens of a phrase. Of a
/// phrase whose lines differ in their number of tokens no units are taken.
pub open spec fn units_fit_phrase(p: PhraseView, lyric: PhraseUnits) -> bool {
    p.swaras.len() == p.sahitya.len() ==> {
        &&& lyric.len() == p.sahitya.len()
        &&& forall|i: int|
            0 <= i < lyric.len() ==> possible_units(p.sahitya[i], #[trigger] lyric[i])
    }
}

fn check_empty_line(
    issues: &mut Vec<ValidationIssue>,
    tokens: &Vec<String>,
    line: usize,
    message: &str,
    code: &str,
)
    ensures
        views(final(issues)@) == views(old(issues)@) + empty_line_issues(
            views(tokens@),
            line,
            message@,
            code@,
        ),
{
    if tokens.len() == 0 {
        push_issue(issues, make_issue(Severity::Error, line, &chars_of(message), code));
    }
}

fn mixes_cases(s: &Vec<char>) -> (r: bool)
    ensures
        r == is_mixed_case(s@),
{
    let mut lower = false;
    let mut upper = false;
    let mut i: usize = 0;
    while i < s.len()
        invariant
            i <= s.len(),
            lower == (exists|k: int| 0 <= k < i && is_lowercase_char(#[trigger] s@[k])),
            upper == (exists|k: int| 0 <= k < i && is_uppercase_char(#[trigger] s@[k])),
        decreases s.len() - i,
    {
        let c = s[i];
        if c.is_lowercase() {
            lower = true;
        }
        if c.is_uppercase() {
            upper = true;
        }
        i += 1;
    }
    lower && upper
}

fn check_analysis(issues: &mut Vec<ValidationIssue>, analysis: &Option<String>, line: usize)
    ensures
        views(final(issues)@) == views(old(issues)@) + analysis_issues(
            crate::types::opt_text(*analysis),
            line,
        ),
{
    match analysis {
        Some(text) => {
            let a = chars_of(text.as_str());
            let mut i: usize = 0;
            while i < a.len()
                invariant
                    i <= a.len(),
                    a@ == text@,
                    views(issues@) == views(old(issues)@) + analysis_char_issues(
                        a@,
                        line,
                        i as int,
                    ),
                decreases a.len() - i,
            {
                let c = a[i];
                if !is_analysis_char(c) {
                    let mut m: Vec<char> = Vec::new();
                    push_text(&mut m, "Invalid character '");
                    m.push(c);
                    push_text(&mut m, "' in phrase analysis at position ");
                    push_decimal(&mut m, (i + 1) as u64);
                    let found = make_issue(
                        Severity::Warning,
                        below(line, 2),
                        &m,
                        "invalid_phrase_analysis",
                    );
                    push_issue(issues, found);
                }
                i += 1;
            }
        },
        None => {},
    }
}

fn check_cases(issues: &mut Vec<ValidationIssue>, swaras: &Vec<String>, line: usize)
    ensures
        views(final(issues)@) == views(old(issues)@) + case_issues(
            views(swaras@),
            line,
            swaras@.len() as int,
        ),
{
    let mut i: usize = 0;
    while i < swaras.len()
        invariant
            i <= swaras.len(),
            views(issues@) == views(old(issues)@) + case_issues(views(swaras@), line, i as int),
        decreases swaras.len() - i,
    {
        let s = chars_of(swaras[i].as_str());
        if mixes_cases(&s) {
            let mut m: Vec<char> = Vec::new();
            push_text(&mut m, "Mixed case in swara '");
            append_chars(&mut m, &s);
            push_text(&mut m, "' at position ");
            push_decimal(&mut m, (i + 1) as u64);
            let found = make_issue(Severity::Warning, line, &m, "mixed_case_swara");
            push_issue(issues, found);
        }
        i += 1;
    }
}

/// Checks a phrase whose lyric tokens were cut into the units `lyric`, one
/// list for each token.
fn check_phrase(phrase: &Phrase, lyric: &Vec<Vec<String>>) -> (issues: Vec<ValidationIssue>)
    requires
        phrase.swaras@.len() == phrase.sahitya@.len() ==> lyric@.len() == phrase.sahitya@.len(),
    ensures
        views(issues@) == phrase_issues(phrase@, unit_lists(lyric@)),
{
    let mut issues: Vec<ValidationIssue> = Vec::new();
    let line = phrase.line_number;
    check_gati(&mut issues, phrase.gati, line);
    check_tala(&mut issues, &phrase.tala, line);
    check_empty_line(
        &mut issues,
        &phrase.swaras,
        line,
        "Swara line cannot be empty",
        "empty_swara_line",
    );
    check_empty_line(
        &mut issues,
        &phrase.sahitya,
        below(line, 1),
        "Sahitya line cannot be empty",
        "empty_sahitya_line",
    );
    let n = phrase.swaras.len();
    if n != phrase.sahitya.len() {
        let mut m: Vec<char> = Vec::new();
        push_text(&mut m, "Token count mismatch: swara line has ");
        push_decimal(&mut m, n as u64);
        push_text(&mut m, " tokens, sahitya line has ");
        push_decimal(&mut m, phrase.sahitya.len() as u64);
        push_issue(
            &mut issues,
            make_issue(Severity::Error, below(line, 1), &m, "token_count_mismatch"),
        );
        return issues;
    }
    let ghost head = views(issues@);
    let ghost units = unit_lists(lyric@);
    let mut i: usize = 0;
    while i < n
        invariant
            i <= n == phrase.swaras@.len() == phrase.sahitya@.len() == lyric@.len(),
            line == phrase.line_number,
            units == unit_lists(lyric@),
            views(issues@) == head + pair_issues(phrase@, units, i as int),
        decreases n - i,
    {
        let found = check_token_pair(
            i + 1,
            phrase.swaras[i].as_str(),
            phrase.sahitya[i].as_str(),
            &lyric[i],
            line,
        );
        extend_issues(&mut issues, found);
        i += 1;
    }
    check_analysis(&mut issues, &phrase.phrase_analysis, line);
    check_cases(&mut issues, &phrase.swaras, line);
    issues
}

/// The character sequences of each list of units.
pub open spec fn unit_lists(lyric: Seq<Vec<String>>) -> PhraseUnits {
    Seq::new(lyric.len(), |i: int| texts_of(lyric[i]@))
}

/// The characters of an optional string, as a string slice.
fn hint_of(language: &Option<String>) -> (r: Option<&str>)
    ensures
        crate::sahitya_parser::hint_text(r) == crate::types::opt_text(*language),
{
    match language {
        Some(l) => Some(l.as_str()),
        None => None,
    }
}

/// Checks a phrase: its lyric tokens are cut into units, with the language
/// of the document as a hint, and each is held against its melodic token.
pub fn validate_phrase(phrase: &Phrase, language: &Option<String>) -> (issues: Vec<
    ValidationIssue,
>)
    ensures
        exists|lyric: PhraseUnits|
            units_fit_phrase(phrase@, lyric) && views(issues@) == phrase_issues(phrase@, lyric),
{
    let mut lyric: Vec<Vec<String>> = Vec::new();
    if phrase.swaras.len() == phrase.sahitya.len() {
        let n = phrase.sahitya.len();
        let mut i: usize = 0;
        while i < n
            invariant
                i <= n == phrase.sahitya@.len(),
                lyric@.len() == i,
                forall|k: int|
                    0 <= k < i ==> possible_units(
                        phrase.sahitya@[k]@,
                        #[trigger] texts_of(lyric@[k]@),
                    ),
            decreases n - i,
        {
            let token = phrase.sahitya[i].as_str();
            let units = parse_sahitya_token_with_lang(token, hint_of(language));
            lyric.push(units);
            i += 1;
        }
    }
    let issues = check_phrase(phrase, &lyric);
    proof {
        let witness = unit_lists(lyric@);
    }
    issues
}

// ---------------------------------------------------------------------
// Sections and documents
// ---------------------------------------------------------------------
/// The units of each lyric token of each phrase of a section.
pub type SectionUnits = Seq<PhraseUnits>;

/// The units of each lyric token of each phrase of each section of a
/// document.
pub type DocumentUnits = Seq<SectionUnits>;

/// The issues of the first `k` phrases of a section.
pub open spec fn phrases_issues(phrases: Seq<PhraseView>, lyric: SectionUnits, k: int) -> Seq<
    IssueView,
>
    decreases k,
{
    if k <= 0 {
        Seq::empty()
    } else {
        phrases_issues(phrases, lyric, k - 1) + phrase_issues(phrases[k - 1], lyric[k - 1])
    }
}

/// The issues of a section whose lyric tokens have the units `lyric`.
pub open spec fn section_issues(s: SectionView, lyric: SectionUnits) -> Seq<IssueView> {
    blank_issues(s.name, s.line_number, "Section name cannot be empty"@, "empty_section_name"@)
        + gati_issues(s.gati, s.line_number) + optional_tala_issues(s.tala, s.line_number)
        + phrases_issues(s.phrases, lyric, s.phrases.len() as int)
}

pub open spec fn units_fit_section(s: SectionView, lyric: SectionUnits) -> bool {
    &&& lyric.len() == s.phrases.len()
    &&& forall|i: int| 0 <= i < lyric.len() ==> units_fit_phrase(s.phrases[i], #[trigger] lyric[i])
}

/// The issues of the first `k` sections of a document.
pub open spec fn sections_issues(sections: Seq<SectionView>, lyric: DocumentUnits, k: int) -> Seq<
    IssueView,
>
    decreases k,
{
    if k <= 0 {
        Seq::empty()
    } else {
        sections_issues(sections, lyric, k - 1) + section_issues(sections[k - 1], lyric[k - 1])
    }
}

/// The issues of a document whose lyric tokens have the units `lyric`:
/// those of the metadata, then those of each section in turn.
pub open spec fn document_issues(d: DocumentView, lyric: DocumentUnits) -> Seq<IssueView> {
    metadata_issues(d.metadata) + sections_issues(d.sections, lyric, d.sections.len() as int)
}

pub open spec fn units_fit(d: DocumentView, lyric: DocumentUnits) -> bool {
    &&& lyric.len() == d.sections.len()
    &&& forall|i: int|
        0 <= i < lyric.len() ==> units_fit_section(d.sections[i], #[trigger] lyric[i])
}

/// Checks a section, with the language of the document as a hint for its
/// lyric.
pub fn validate_section(section: &Section, language: &Option<String>) -> (issues: Vec<
    ValidationIssue,
>)
    ensures
        exists|lyric: SectionUnits|
            units_fit_section(section@, lyric) && views(issues@) == section_issues(
                section@,
                lyric,
            ),
{
    let mut issues: Vec<ValidationIssue> = Vec::new();
    let line = section.line_number;
    check_blank(
        &mut issues,
        &section.name,
        line,
        "Section name cannot be empty",
        "empty_section_name",
    );
    check_gati(&mut issues, section.gati, line);
    check_tala(&mut issues, &section.tala, line);
    let ghost head = views(issues@);
    let ghost mut lyric: SectionUnits = Seq::empty();
    let ghost phrases = views(section.phrases@);
    let n = section.phrases.len();
    let mut i: usize = 0;
    while i < n
        invariant
            i <= n == section.phrases@.len(),
            phrases == views(section.phrases@),
            lyric.len() == i,
            forall|k: int| 0 <= k < i ==> units_fit_phrase(phrases[k], #[trigger] lyric[k]),
            views(issues@) == head + phrases_issues(phrases, lyric, i as int),
        decreases n - i,
    {
        let found = validate_phrase(&section.phrases[i], language);
        proof {
            let units = choose|units: PhraseUnits|
                units_fit_phrase(section.phrases@[i as int]@, units) && views(found@)
                    == phrase_issues(section.phrases@[i as int]@, units);
            let next = lyric.push(units);
            lemma_phrases_issues_prefix(phrases, lyric, next, i as int);
            lyric = next;
        }
        extend_issues(&mut issues, found);
        i += 1;
    }
    proof {
        assert(units_fit_section(section@, lyric));
    }
    issues
}

proof fn lemma_phrases_issues_prefix(
    phrases: Seq<PhraseView>,
    a: SectionUnits,
    b: SectionUnits,
    k: int,
)
    requires
        0 <= k <= a.len() <= b.len(),
        forall|i: int| 0 <= i < k ==> a[i] == b[i],
    ensures
        phrases_issues(phrases, a, k) == phrases_issues(phrases, b, k),
    decreases k,
{
    if k > 0 {
        lemma_phrases_issues_prefix(phrases, a, b, k - 1);
    }
}

proof fn lemma_sections_issues_prefix(
    sections: Seq<SectionView>,
    a: DocumentUnits,
    b: DocumentUnits,
    k: int,
)
    requires
        0 <= k <= a.len() <= b.len(),
        forall|i: int| 0 <= i < k ==> a[i] == b[i],
    ensures
        sections_issues(sections, a, k) == sections_issues(sections, b, k),
    decreases k,
{
    if k > 0 {
        lemma_sections_issues_prefix(sections, a, b, k - 1);
    }
}

/// Checks a document. Never fails: what is wrong with the document is in
/// the list. The lyric tokens are cut into units on the way, automatically
/// where their author set no marks: `lyric` stands for those units.
pub fn validate(document: &VnaDocument) -> (issues: Vec<ValidationIssue>)
    ensures
        exists|lyric: DocumentUnits|
            units_fit(document@, lyric) && views(issues@) == document_issues(document@, lyric),
{
    let mut issues = validate_metadata(&document.metadata);
    let ghost head = views(issues@);
    let ghost mut lyric: DocumentUnits = Seq::empty();
    let ghost sections = views(document.sections@);
    let n = document.sections.len();
    let mut i: usize = 0;
    while i < n
        invariant
            i <= n == document.sections@.len(),
            sections == views(document.sections@),
            lyric.len() == i,
            forall|k: int| 0 <= k < i ==> units_fit_section(sections[k], #[trigger] lyric[k]),
            views(issues@) == head + sections_issues(sections, lyric, i as int),
        decreases n - i,
    {
        let found = validate_section(&document.sections[i], &document.metadata.language);
        proof {
            let units = choose|units: SectionUnits|
                units_fit_section(document.sections@[i as int]@, units) && views(found@)
                    == section_issues(document.sections@[i as int]@, units);
            let next = lyric.push(units);
            lemma_sections_issues_prefix(sections, lyric, next, i as int);
            lyric = next;
        }
        extend_issues(&mut issues, found);
        i += 1;
    }
    proof {
        assert(units_fit(document@, lyric));
    }
    issues
}

// ---------------------------------------------------------------------
// Laws
// ---------------------------------------------------------------------
/// The tempo boundary: a tempo from 20 to 300 raises nothing; any other
/// raises exactly one warning, with the code `unusual_tempo`.
pub proof fn lemma_tempo_boundary(tempo: u32)
    ensures
        20 <= tempo <= 300 ==> tempo_issues(Some(tempo)).len() == 0,
        tempo < 20 || tempo > 300 ==> {
            &&& tempo_issues(Some(tempo)).len() == 1
            &&& tempo_issues(Some(tempo))[0].severity == Severity::Warning
            &&& tempo_issues(Some(tempo))[0].code == Some("unusual_tempo"@)
        },
{
}

/// Whether no lyric token of the document is cut automatically: each
/// carries a backtick, or is made of dashes only.
pub open spec fn marked_by_hand(d: DocumentView) -> bool {
    forall|s: int, p: int, t: int|
        0 <= s < d.sections.len() && 0 <= p < d.sections[s].phrases.len() && 0 <= t
            < d.sections[s].phrases[p].sahitya.len() ==> cut_by_marks(
            #[trigger] d.sections[s].phrases[p].sahitya[t],
        )
}

/// The issues of a phrase none of whose lyric tokens is cut automatically
/// are the same whatever units fit it.
pub proof fn lemma_phrase_determined(p: PhraseView, a: PhraseUnits, b: PhraseUnits)
    requires
        units_fit_phrase(p, a),
        units_fit_phrase(p, b),
        forall|t: int| 0 <= t < p.sahitya.len() ==> cut_by_marks(#[trigger] p.sahitya[t]),
    ensures
        phrase_issues(p, a) == phrase_issues(p, b),
{
    if p.swaras.len() == p.sahitya.len() {
        assert forall|i: int| 0 <= i < a.len() implies a[i] == b[i] by {
            lemma_marked_units_fixed(p.sahitya[i], a[i], b[i]);
        }
        assert(a =~= b);
    }
}

proof fn lemma_phrases_determined(
    phrases: Seq<PhraseView>,
    a: SectionUnits,
    b: SectionUnits,
    k: int,
)
    requires
        0 <= k <= phrases.len(),
        a.len() == phrases.len(),
        b.len() == phrases.len(),
        forall|i: int| 0 <= i < k ==> units_fit_phrase(phrases[i], #[trigger] a[i]),
        forall|i: int| 0 <= i < k ==> units_fit_phrase(phrases[i], #[trigger] b[i]),
        forall|i: int, t: int|
            0 <= i < k && 0 <= t < phrases[i].sahitya.len() ==> cut_by_marks(
                #[trigger] phrases[i].sahitya[t],
            ),
    ensures
        phrases_issues(phrases, a, k) == phrases_issues(phrases, b, k),
    decreases k,
{
    if k > 0 {
        lemma_phrases_determined(phrases, a, b, k - 1);
        lemma_phrase_determined(phrases[k - 1], a[k - 1], b[k - 1]);
    }
}

proof fn lemma_sections_determined(d: DocumentView, a: DocumentUnits, b: DocumentUnits, k: int)
    requires
        0 <= k <= d.sections.len(),
        units_fit(d, a),
        units_fit(d, b),
        marked_by_hand(d),
    ensures
        sections_issues(d.sections, a, k) == sections_issues(d.sections, b, k),
    decreases k,
{
    if k > 0 {
        lemma_sections_determined(d, a, b, k - 1);
        let s = d.sections[k - 1];
        lemma_phrases_determined(s.phrases, a[k - 1], b[k - 1], s.phrases.len() as int);
    }
}

/// Determinism: the issues of a document none of whose lyric tokens is cut
/// automatically are fixed by the document. Whatever units two validations
/// took, their lists are the same.
pub proof fn lemma_issues_determined(d: DocumentView, a: DocumentUnits, b: DocumentUnits)
    requires
        units_fit(d, a),
        units_fit(d, b),
        marked_by_hand(d),
    ensures
        document_issues(d, a) == document_issues(d, b),
{
    lemma_sections_determined(d, a, b, d.sections.len() as int);
}

} // verus!
