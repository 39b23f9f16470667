//! The typesetter: the LaTeX source of a document, with each phrase laid
//! out as a table of four tokens to the beat above staff lines.

use crate::text::{chars_of, decimal, push_decimal, push_text, string_of};
use crate::types::{
    views, DocumentView, Phrase, PhraseView, Section, SectionView, VnaDocument,
};
use vstd::prelude::*;

verus! {

/// What stands for a character in LaTeX source: the special characters
/// behind a backslash, which is itself written out as a command.
pub open spec fn escaped_char(c: char) -> Seq<char> {
    if c == '&' {
        "\\textbackslash{}&"@
    } else if c == '%' {
        "\\textbackslash{}%"@
    } else if c == '$' {
        "\\textbackslash{}$"@
    } else if c == '#' {
        "\\textbackslash{}#"@
    } else if c == '^' {
        "\\textbackslash{}^\\textbackslash{}{\\textbackslash{}}"@
    } else if c == '_' {
        "\\textbackslash{}_"@
    } else if c == '{' {
        "\\textbackslash{}{"@
    } else if c == '}' {
        "\\textbackslash{}}"@
    } else if c == '\\' {
        "\\textbackslash{}"@
    } else {
        seq![c]
    }
}

/// The first `k` characters of a text, escaped.
pub open spec fn escaped_upto(s: Seq<char>, k: int) -> Seq<char>
    decreases k,
{
    if k <= 0 {
        Seq::empty()
    } else {
        escaped_upto(s, k - 1) + escaped_char(s[k - 1])
    }
}

/// A text with each of its characters escaped.
pub open spec fn escaped(s: Seq<char>) -> Seq<char> {
    escaped_upto(s, s.len() as int)
}

fn push_escaped_char(out: &mut Vec<char>, c: char)
    ensures
        final(out)@ == old(out)@ + escaped_char(c),
{
    if c == '&' {
        push_text(out, "\\textbackslash{}&");
    } else if c == '%' {
        push_text(out, "\\textbackslash{}%");
    } else if c == '$' {
        push_text(out, "\\textbackslash{}$");
    } else if c == '#' {
        push_text(out, "\\textbackslash{}#");
    } else if c == '^' {
        push_text(out, "\\textbackslash{}^\\textbackslash{}{\\textbackslash{}}");
    } else if c == '_' {
        push_text(out, "\\textbackslash{}_");
    } else if c == '{' {
        push_text(out, "\\textbackslash{}{");
    } else if c == '}' {
        push_text(out, "\\textbackslash{}}");
    } else if c == '\\' {
        push_text(out, "\\textbackslash{}");
    } else {
        out.push(c);
    }
}

fn push_escaped(out: &mut Vec<char>, text: &str)
    ensures
        final(out)@ == old(out)@ + escaped(text@),
{
    let s = chars_of(text);
    let mut i: usize = 0;
    while i < s.len()
        invariant
            i <= s.len(),
            s@ == text@,
            out@ == old(out)@ + escaped_upto(s@, i as int),
        decreases s.len() - i,
    {
        push_escaped_char(out, s[i]);
        i += 1;
    }
}

/// The number of beats that `n` tokens fill, four to the beat.
pub open spec fn beats_for(n: nat) -> nat {
    (n + 3) / 4
}

/// The columns of a table of `k` beats: one for each beat, with one for a
/// beat marker between them.
pub open spec fn column_spec(k: int) -> Seq<char>
    decreases k,
{
    if k <= 0 {
        Seq::empty()
    } else if k == 1 {
        "X"@
    } else {
        column_spec(k - 1) + "cX"@
    }
}

/// The tokens from `from` up to `to`, each escaped inside the command that
/// `open` starts, with `\hfill` between them.
pub open spec fn cell_tokens(tokens: Seq<Seq<char>>, open: Seq<char>, from: int, to: int) -> Seq<
    char,
>
    decreases to - from,
{
    if to <= from {
        Seq::empty()
    } else if to == from + 1 {
        open + escaped(tokens[from]) + "}"@
    } else {
        cell_tokens(tokens, open, from, to - 1) + "\\hfill"@ + open + escaped(tokens[to - 1])
            + "}"@
    }
}

/// The end of the beat `b`: four tokens on, or the end of the line.
pub open spec fn beat_end(n: nat, b: int) -> int {
    if 4 * b + 4 <= n {
        4 * b + 4
    } else if 4 * b <= n {
        n as int
    } else {
        4 * b
    }
}

/// The cell of the beat `b` of a row: its tokens spread over the width of
/// the cell, or a blank where the row has none left.
pub open spec fn row_cell(tokens: Seq<Seq<char>>, open: Seq<char>, b: int) -> Seq<char> {
    if 4 * b >= tokens.len() {
        "\\phantom{M}"@
    } else {
        "\\makebox[\\linewidth][s]{"@ + cell_tokens(
            tokens,
            open,
            4 * b,
            beat_end(tokens.len(), b),
        ) + "}"@
    }
}

/// The first `k` cells of a row, with a beat marker between them.
pub open spec fn row_cells(tokens: Seq<Seq<char>>, open: Seq<char>, k: int) -> Seq<char>
    decreases k,
{
    if k <= 0 {
        Seq::empty()
    } else {
        row_cells(tokens, open, k - 1) + (if k - 1 > 0 {
            " & \\texttt{|} & "@
        } else {
            Seq::empty()
        }) + row_cell(tokens, open, k - 1)
    }
}

/// A row of a table of `beats` beats, closed by the phrase-end marker.
pub open spec fn table_row(tokens: Seq<Seq<char>>, open: Seq<char>, beats: nat) -> Seq<char> {
    row_cells(tokens, open, beats as int) + " & \\texttt{||} \\\\\n"@
}

/// The table of a phrase: the melodic tokens in typewriter type above the
/// lyric tokens in italics, four to the beat.
pub open spec fn aligned_table(swaras: Seq<Seq<char>>, sahitya: Seq<Seq<char>>) -> Seq<char> {
    let longer = if swaras.len() >= sahitya.len() {
        swaras.len()
    } else {
        sahitya.len()
    };
    let beats = beats_for(longer);
    "\\noindent\\begin{tabularx}{\\textwidth}{@{}"@ + column_spec(beats as int) + "r@{}}\n"@
        + table_row(swaras, "\\texttt{"@, beats) + table_row(sahitya, "\\textit{"@, beats)
        + "\\end{tabularx}\n\n"@
}

/// The tokens of a line with a space between them, a beat marker before
/// every fifth, and the phrase-end marker.
pub open spec fn vna_line_upto(elements: Seq<Seq<char>>, k: int) -> Seq<char>
    decreases k,
{
    if k <= 0 {
        Seq::empty()
    } else {
        vna_line_upto(elements, k - 1) + (if k - 1 > 0 && (k - 1) % 4 == 0 {
            " | "@
        } else if k - 1 > 0 {
            " "@
        } else {
            Seq::empty()
        }) + elements[k - 1]
    }
}

pub open spec fn vna_line(elements: Seq<Seq<char>>) -> Seq<char> {
    vna_line_upto(elements, elements.len() as int) + " ||"@
}

/// What opens the LaTeX source, up to the size of the page.
pub open spec fn preamble_head() -> Seq<char> {
    "\\documentclass["@
}

/// What follows the size of the page: the packages, the commands for the
/// notation and for the staff lines, and the start of the document.
pub open spec fn preamble_tail() -> Seq<char> {
    "paper,11pt]{article}\n\\usepackage[utf8]{inputenc}\n\\usepackage[margin=0.5in]{geometry}\n\\usepackage{tikz}\n\\usepackage{tabularx}\n\\usetikzlibrary{positioning}\n\n% Remove page numbers and headers\n\\pagestyle{empty}\n\n% Custom commands for notation  \n\\newcommand{\\swara}[1]{\\texttt{#1}}\n\\newcommand{\\sahitya}[1]{\\textit{#1}}\n\\newcommand{\\merge}[1]{\\texttt{\\footnotesize #1}}\n\n% Staff lines command\n\\newcommand{\\stafflines}{%\n\\vspace{0.3em}\n\\noindent\\begin{tikzpicture}[baseline=0pt]\n% Note labels on the left - complete octave\n\\node[anchor=east] at (-0.3,0) {\\footnotesize S};\n\\node[anchor=east] at (-0.3,0.5) {\\footnotesize R};\n\\node[anchor=east] at (-0.3,1.0) {\\footnotesize G};\n\\node[anchor=east] at (-0.3,1.5) {\\footnotesize M};\n\\node[anchor=east] at (-0.3,2.0) {\\footnotesize P};\n\\node[anchor=east] at (-0.3,2.5) {\\footnotesize D};\n\\node[anchor=east] at (-0.3,3.0) {\\footnotesize N};\n% Staff lines - 7 lines for complete octave\n\\foreach \\y in {0,0.5,1.0,1.5,2.0,2.5,3.0} {\n  \\draw[darkgray, dotted, thick] (0,\\y) -- (\\textwidth,\\y);\n}\n\\end{tikzpicture}\n\\vspace{0.5em}\n}\n\n\\setlength{\\parindent}{0pt}\n\\setlength{\\parskip}{0pt}\n\n\\begin{document}\n\n"@
}

/// The composer that the header names: `Unknown` where none is set.
pub open spec fn composer_text(composer: Option<Seq<char>>) -> Seq<char> {
    match composer {
        Some(c) => c,
        None => "Unknown"@,
    }
}

/// The tempo that the header names: 60 where none is set.
pub open spec fn tempo_number(tempo: Option<u32>) -> nat {
    match tempo {
        Some(t) => t as nat,
        None => 60,
    }
}

/// The header of the document: its title, and a line with its raga, tala,
/// composer and tempo.
pub open spec fn header_text(d: DocumentView) -> Seq<char> {
    "\n{\\Large \\textbf{"@ + escaped(d.metadata.title) + "}}\n\n\\textit{Raga: "@ + escaped(
        d.metadata.raga,
    ) + " | Tala: "@ + escaped(d.metadata.tala) + " | Composer: "@ + escaped(
        composer_text(d.metadata.composer),
    ) + " | Tempo: "@ + decimal(tempo_number(d.metadata.tempo)) + " BPM}\n\n\\vspace{1em}\n\n"@
}

/// A phrase: its table, and staff lines to write on.
pub open spec fn phrase_latex(p: PhraseView) -> Seq<char> {
    aligned_table(p.swaras, p.sahitya) + "\\stafflines\n\n"@
}

pub open spec fn phrases_latex(phrases: Seq<PhraseView>, k: int) -> Seq<char>
    decreases k,
{
    if k <= 0 {
        Seq::empty()
    } else {
        phrases_latex(phrases, k - 1) + phrase_latex(phrases[k - 1])
    }
}

/// A section: its name in bold, its phrases, and some space.
pub open spec fn section_latex(s: SectionView) -> Seq<char> {
    "\n\\textbf{["@ + escaped(s.name) + "]}\n\n"@ + phrases_latex(
        s.phrases,
        s.phrases.len() as int,
    ) + "\\vspace{0.5em}\n\n"@
}

pub open spec fn sections_latex(sections: Seq<SectionView>, k: int) -> Seq<char>
    decreases k,
{
    if k <= 0 {
        Seq::empty()
    } else {
        sections_latex(sections, k - 1) + section_latex(sections[k - 1])
    }
}

/// The LaTeX source of a document for a page of the given size.
pub open spec fn latex_of(d: DocumentView, page_size: Seq<char>) -> Seq<char> {
    preamble_head() + page_size + preamble_tail() + header_text(d) + sections_latex(
        d.sections,
        d.sections.len() as int,
    ) + "\\end{document}"@
}

/// The settings of the typesetter.
pub struct LatexPdfGenerator {
    pub grid_height: u32,
    pub page_size: String,
}

fn push_cell(out: &mut Vec<char>, tokens: &Vec<String>, open: &str, b: usize)
    requires
        4 * b < tokens@.len(),
    ensures
        final(out)@ == old(out)@ + row_cell(views(tokens@), open@, b as int),
{
    let n = tokens.len();
    let from: usize = 4 * b;
    let to: usize = if n - from >= 4 {
        from + 4
    } else {
        n
    };
    push_text(out, "\\makebox[\\linewidth][s]{");
    let ghost head = out@;
    let mut i: usize = from;
    while i < to
        invariant
            from <= i <= to <= tokens@.len(),
            out@ == head + cell_tokens(views(tokens@), open@, from as int, i as int),
        decreases to - i,
    {
        if i > from {
            push_text(out, "\\hfill");
        }
        push_text(out, open);
        push_escaped(out, tokens[i].as_str());
        push_text(out, "}");
        i += 1;
    }
    push_text(out, "}");
}

fn push_row(out: &mut Vec<char>, tokens: &Vec<String>, open: &str, beats: usize)
    ensures
        final(out)@ == old(out)@ + table_row(views(tokens@), open@, beats as nat),
{
    let n = tokens.len();
    let mut b: usize = 0;
    while b < beats
        invariant
            b <= beats,
            n == tokens@.len(),
            out@ == old(out)@ + row_cells(views(tokens@), open@, b as int),
        decreases beats - b,
    {
        if b > 0 {
            push_text(out, " & \\texttt{|} & ");
        }
        if b < n / 4 || (b == n / 4 && n % 4 > 0) {
            push_cell(out, tokens, open, b);
        } else {
            push_text(out, "\\phantom{M}");
        }
        b += 1;
    }
    push_text(out, " & \\texttt{||} \\\\\n");
}

impl LatexPdfGenerator {
    /// A typesetter for a grid of the given height on a page of the given
    /// size.
    pub fn new(grid_height: u32, page_size: &str) -> (r: Self)
        ensures
            r.grid_height == grid_height,
            r.page_size@ == page_size@,
    {
        Self { grid_height, page_size: string_of(&chars_of(page_size)) }
    }

    /// Escapes the characters that LaTeX reads as commands.
    pub fn escape_latex(&self, text: &str) -> (r: String)
        ensures
            r@ == escaped(text@),
    {
        let mut out: Vec<char> = Vec::new();
        push_escaped(&mut out, text);
        string_of(&out)
    }

    /// A line of tokens as plain notation, four tokens to the beat.
    pub fn format_vna_line(&self, elements: &Vec<String>) -> (r: String)
        ensures
            r@ == vna_line(views(elements@)),
    {
        let mut out: Vec<char> = Vec::new();
        let mut i: usize = 0;
        while i < elements.len()
            invariant
                i <= elements.len(),
                out@ == vna_line_upto(views(elements@), i as int),
            decreases elements.len() - i,
        {
            if i > 0 && i % 4 == 0 {
                push_text(&mut out, " | ");
            } else if i > 0 {
                push_text(&mut out, " ");
            }
            push_text(&mut out, elements[i].as_str());
            i += 1;
        }
        push_text(&mut out, " ||");
        string_of(&out)
    }

    /// The table of a phrase.
    pub fn create_aligned_table(&self, swaras: &Vec<String>, sahitya: &Vec<String>) -> (r: String)
        ensures
            r@ == aligned_table(views(swaras@), views(sahitya@)),
    {
        let mut out: Vec<char> = Vec::new();
        push_aligned_table(&mut out, swaras, sahitya);
        string_of(&out)
    }

    /// Appends the table of a phrase, and staff lines below it.
    pub fn add_phrase_latex(&self, latex: &mut String, phrase: &Phrase)
        ensures
            final(latex)@ == old(latex)@ + phrase_latex(phrase@),
    {
        let mut out: Vec<char> = Vec::new();
        push_phrase(&mut out, phrase);
        latex.append(string_of(&out).as_str());
    }

    /// The LaTeX source of a document.
    pub fn create_latex(&self, document: &VnaDocument) -> (r: String)
        ensures
            r@ == latex_of(document@, self.page_size@),
    {
        let mut out: Vec<char> = Vec::new();
        push_text(&mut out, "\\documentclass[");
        push_text(&mut out, self.page_size.as_str());
        push_text(
            &mut out,
            "paper,11pt]{article}\n\\usepackage[utf8]{inputenc}\n\\usepackage[margin=0.5in]{geometry}\n\\usepackage{tikz}\n\\usepackage{tabularx}\n\\usetikzlibrary{positioning}\n\n% Remove page numbers and headers\n\\pagestyle{empty}\n\n% Custom commands for notation  \n\\newcommand{\\swara}[1]{\\texttt{#1}}\n\\newcommand{\\sahitya}[1]{\\textit{#1}}\n\\newcommand{\\merge}[1]{\\texttt{\\footnotesize #1}}\n\n% Staff lines command\n\\newcommand{\\stafflines}{%\n\\vspace{0.3em}\n\\noindent\\begin{tikzpicture}[baseline=0pt]\n% Note labels on the left - complete octave\n\\node[anchor=east] at (-0.3,0) {\\footnotesize S};\n\\node[anchor=east] at (-0.3,0.5) {\\footnotesize R};\n\\node[anchor=east] at (-0.3,1.0) {\\footnotesize G};\n\\node[anchor=east] at (-0.3,1.5) {\\footnotesize M};\n\\node[anchor=east] at (-0.3,2.0) {\\footnotesize P};\n\\node[anchor=east] at (-0.3,2.5) {\\footnotesize D};\n\\node[anchor=east] at (-0.3,3.0) {\\footnotesize N};\n% Staff lines - 7 lines for complete octave\n\\foreach \\y in {0,0.5,1.0,1.5,2.0,2.5,3.0} {\n  \\draw[darkgray, dotted, thick] (0,\\y) -- (\\textwidth,\\y);\n}\n\\end{tikzpicture}\n\\vspace{0.5em}\n}\n\n\\setlength{\\parindent}{0pt}\n\\setlength{\\parskip}{0pt}\n\n\\begin{document}\n\n",
        );
        push_header(&mut out, document);
        let ghost head = out@;
        let ghost sections = views(document.sections@);
        let mut i: usize = 0;
        while i < document.sections.len()
            invariant
                i <= document.sections.len(),
                sections == views(document.sections@),
                out@ == head + sections_latex(sections, i as int),
            decreases document.sections.len() - i,
        {
            self.push_section(&mut out, &document.sections[i]);
            i += 1;
        }
        push_text(&mut out, "\\end{document}");
        string_of(&out)
    }

    fn push_section(&self, out: &mut Vec<char>, section: &Section)
        ensures
            final(out)@ == old(out)@ + section_latex(section@),
    {
        push_text(out, "\n\\textbf{[");
        push_escaped(out, section.name.as_str());
        push_text(out, "]}\n\n");
        let ghost head = out@;
        let ghost phrases = views(section.phrases@);
        let mut i: usize = 0;
        while i < section.phrases.len()
            invariant
                i <= section.phrases.len(),
                phrases == views(section.phrases@),
                out@ == head + phrases_latex(phrases, i as int),
            decreases section.phrases.len() - i,
        {
            push_phrase(out, &section.phrases[i]);
            i += 1;
        }
        push_text(out, "\\vspace{0.5em}\n\n");
    }
}

fn push_phrase(out: &mut Vec<char>, phrase: &Phrase)
    ensures
        final(out)@ == old(out)@ + phrase_latex(phrase@),
{
    push_aligned_table(out, &phrase.swaras, &phrase.sahitya);
    push_text(out, "\\stafflines\n\n");
}

fn push_header(out: &mut Vec<char>, document: &VnaDocument)
    ensures
        final(out)@ == old(out)@ + header_text(document@),
{
    let m = &document.metadata;
    push_text(out, "\n{\\Large \\textbf{");
    push_escaped(out, m.title.as_str());
    push_text(out, "}}\n\n\\textit{Raga: ");
    push_escaped(out, m.raga.as_str());
    push_text(out, " | Tala: ");
    push_escaped(out, m.tala.as_str());
    push_text(out, " | Composer: ");
    match &m.composer {
        Some(c) => {
            push_escaped(out, c.as_str());
        },
        None => {
            push_escaped(out, "Unknown");
        },
    }
    push_text(out, " | Tempo: ");
    let tempo: u32 = match m.tempo {
        Some(t) => t,
        None => 60,
    };
    push_decimal(out, tempo as u64);
    push_text(out, " BPM}\n\n\\vspace{1em}\n\n");
}

fn push_columns(out: &mut Vec<char>, beats: usize)
    ensures
        final(out)@ == old(out)@ + column_spec(beats as int),
{
    let mut i: usize = 0;
    while i < beats
        invariant
            i <= beats,
            out@ == old(out)@ + column_spec(i as int),
        decreases beats - i,
    {
        if i > 0 {
            push_text(out, "c");
        }
        push_text(out, "X");
        proof {
            reveal_strlit("cX");
            reveal_strlit("c");
            reveal_strlit("X");
        }
        i += 1;
    }
}

fn push_aligned_table(out: &mut Vec<char>, swaras: &Vec<String>, sahitya: &Vec<String>)
    ensures
        final(out)@ == old(out)@ + aligned_table(views(swaras@), views(sahitya@)),
{
    let longer = if swaras.len() >= sahitya.len() {
        swaras.len()
    } else {
        sahitya.len()
    };
    let beats: usize = longer / 4 + (if longer % 4 > 0 {
        1
    } else {
        0
    });
    push_text(out, "\\noindent\\begin{tabularx}{\\textwidth}{@{}");
    push_columns(out, beats);
    push_text(out, "r@{}}\n");
    push_row(out, swaras, "\\texttt{", beats);
    push_row(out, sahitya, "\\textit{", beats);
    push_text(out, "\\end{tabularx}\n\n");
}

} // verus!
