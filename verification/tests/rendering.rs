use vna::formatter::format_preserve_beats;
use vna::parser::parse;
use vna::pdf::LatexPdfGenerator;

#[test]
fn test_format_roundtrip() {
    let original = "---\ntitle: \"Test Varnam\"\nraga: \"mohanam\"\ntala: \"+234+0+0\"\ntempo: 60\n---\n\n[pallavi]\nG, G, | R,,, ||\nni nn | uk\u{14d}- ||\n";

    let doc = parse(original).unwrap();
    let formatted = vna::formatter::format(&doc);

    let doc2 = parse(&formatted).unwrap();

    assert_eq!(doc.metadata.title, doc2.metadata.title);
    assert_eq!(doc.sections.len(), doc2.sections.len());
}

#[test]
fn test_format_preserve_beats() {
    let content = "---\ntitle: \"Test\"\nraga: \"mohanam\"\ntala: \"+234+0+0\"\n---\n\n[pallavi]\nG, G, | R,,, ||\nni nn | uk\u{14d}- ||\n";

    let doc = parse(content).unwrap();
    let formatted = format_preserve_beats(&doc);

    let result = parse(&formatted);
    assert!(result.is_ok());
}

#[test]
fn test_format_alignment() {
    let content = "---\ntitle: \"Test\"\nraga: \"mohanam\"\ntala: \"+234+0+0\"\n---\n\n[pallavi]\nG, G, | R,,, ||\nni nn | uk\u{14d}- ||\n";

    let doc = parse(content).unwrap();
    let formatted = vna::formatter::format(&doc);

    assert!(formatted.contains("||"));
    assert!(!formatted.contains("  ||"));
}

#[test]
fn format_writes_columns_and_beats() {
    let content = "# a note\n---\ntitle: T\nraga: r\ntala: \"+0+0\"\ntempo: 72\ngati: 4\ncomposer: C\nlanguage: telugu\ntype: varnam\nkey: D\ndefault_octave: middle\narohanam: S R\navarohanam: R S\n---\n# about\n[pallavi]\n@gati: 3\n# one\nG , G | R ||\nninnu - nu | ko ||\nphrases = _ *\nP ||\npa ||\n# two\nD D ||\nda da ||\n# end\n[charanam]\nS ||\nsa ||\n";
    let e = parse(content);
    assert!(e.is_err());

    let content = &content["# a note\n".len()..];
    let doc = parse(content).unwrap();
    let expected = "---\ntitle: \"T\"\nraga: \"r\"\ntala: \"+0+0\"\ncomposer: \"C\"\nlanguage: \"telugu\"\ntempo: 72\ngati: 4\ntype: \"varnam\"\nkey: \"D\"\ndefault_octave: \"middle\"\narohanam: \"S R\"\navarohanam: \"R S\"\n---\n\n# about\n\n[pallavi]\n@gati: 3\n# end\n# one\nG     , G  | R  ||\nninnu - nu | ko ||\nphrases = _ *\n\nP  ||\npa ||\n# two\nD  D  ||\nda da ||\n\n[charanam]\nS  ||\nsa ||\n";
    assert_eq!(vna::formatter::format(&doc), expected);

    let plain = "---\ntitle: \"T\"\nraga: \"r\"\ntala: \"+0+0\"\ntempo: 72\ncomposer: \"C\"\nlanguage: \"telugu\"\nkey: \"D\"\n---\n\n[pallavi]\nG , G R ||\nninnu - nu ko ||\n\nP ||\npa ||\n\nD D ||\nda da ||\n\n\n[charanam]\nS ||\nsa ||\n\n";
    assert_eq!(format_preserve_beats(&doc), plain);

    let again = parse(&vna::formatter::format(&doc)).unwrap();
    assert_eq!(vna::formatter::format(&again), expected);
}

#[test]
fn notation_lines_and_phrases() {
    let tokens: Vec<String> = ["G", "R1", "S"].iter().map(|s| s.to_string()).collect();
    assert_eq!(
        vna::formatter::format_notation_line(&tokens, &vec![3, 2], &vec![1, 3]),
        "G   | R1 S | ||\n"
    );
    assert_eq!(
        vna::formatter::format_notation_line(&tokens, &vec![0, 9, 1], &vec![2, 1]),
        "G R1        | S ||\n"
    );
    assert_eq!(vna::formatter::format_notation_line(&Vec::new(), &vec![], &vec![1]), " ||\n");

    let g = LatexPdfGenerator::new(60, "letter");
    let doc = parse("---\ntitle: T\nraga: r\ntala: t\n---\n[x]\nS_ ||\nsa ||\n").unwrap();
    let mut latex = String::from("%\n");
    g.add_phrase_latex(&mut latex, &doc.sections[0].phrases[0]);
    assert_eq!(
        latex,
        "%\n\\noindent\\begin{tabularx}{\\textwidth}{@{}Xr@{}}\n\\makebox[\\linewidth][s]{\\texttt{S\\textbackslash{}_}} & \\texttt{||} \\\\\n\\makebox[\\linewidth][s]{\\textit{sa}} & \\texttt{||} \\\\\n\\end{tabularx}\n\n\\stafflines\n\n"
    );
}

#[test]
fn format_of_an_empty_phrase_line() {
    let doc = parse("---\ntitle: T\nraga: r\ntala: t\n---\n[x]\n||\n||\n").unwrap();
    assert_eq!(
        vna::formatter::format(&doc),
        "---\ntitle: \"T\"\nraga: \"r\"\ntala: \"t\"\n---\n\n[x]\n ||\n ||\n"
    );
}

fn escape_by_replacing(text: &str) -> String {
    text.replace("&", "\\&")
        .replace("%", "\\%")
        .replace("$", "\\$")
        .replace("#", "\\#")
        .replace("^", "\\^{}")
        .replace("_", "\\_")
        .replace("{", "\\{")
        .replace("}", "\\}")
        .replace("\\", "\\textbackslash{}")
}

#[test]
fn latex_escapes() {
    let g = LatexPdfGenerator::new(40, "a4");
    assert_eq!(g.grid_height, 40);
    assert_eq!(g.page_size, "a4");
    for text in ["plain", "a&b%c$d#e^f_g{h}i\\j~k", "", "^^{}", "\\&"] {
        assert_eq!(g.escape_latex(text), escape_by_replacing(text));
    }
    assert_eq!(g.escape_latex("a_b"), "a\\textbackslash{}_b");
}

#[test]
fn latex_lines_and_tables() {
    let g = LatexPdfGenerator::new(40, "a4");
    let five: Vec<String> = ["S", "R", "G", "M", "P"].iter().map(|s| s.to_string()).collect();
    let two: Vec<String> = ["sa", "ri"].iter().map(|s| s.to_string()).collect();
    assert_eq!(g.format_vna_line(&five), "S R G M | P ||");
    assert_eq!(g.format_vna_line(&Vec::new()), " ||");
    assert_eq!(
        g.create_aligned_table(&five, &two),
        "\\noindent\\begin{tabularx}{\\textwidth}{@{}XcXr@{}}\n\\makebox[\\linewidth][s]{\\texttt{S}\\hfill\\texttt{R}\\hfill\\texttt{G}\\hfill\\texttt{M}} & \\texttt{|} & \\makebox[\\linewidth][s]{\\texttt{P}} & \\texttt{||} \\\\\n\\makebox[\\linewidth][s]{\\textit{sa}\\hfill\\textit{ri}} & \\texttt{|} & \\phantom{M} & \\texttt{||} \\\\\n\\end{tabularx}\n\n"
    );
    assert_eq!(
        g.create_aligned_table(&Vec::new(), &Vec::new()),
        "\\noindent\\begin{tabularx}{\\textwidth}{@{}r@{}}\n & \\texttt{||} \\\\\n & \\texttt{||} \\\\\n\\end{tabularx}\n\n"
    );
}

#[test]
fn latex_source_of_a_document() {
    let content = "---\ntitle: \"Test Composition\"\nraga: \"mohanam\"\ntala: \"adi\"\ntempo: 60\n---\n\n[pallavi]\nG , G , | R , , , ||\nnin - nu - | ko - - - ||\n";
    let doc = parse(content).unwrap();
    let generator = LatexPdfGenerator::new(40, "a4");
    let latex = generator.create_latex(&doc);

    assert!(latex.contains("\\documentclass"));
    assert!(latex.contains("Test Composition"));
    assert!(latex.contains("mohanam"));
    assert!(latex.starts_with("\\documentclass[a4paper,11pt]{article}\n\\usepackage[utf8]{inputenc}\n"));
    assert!(latex.contains("\\foreach \\y in {0,0.5,1.0,1.5,2.0,2.5,3.0} {\n  \\draw[darkgray, dotted, thick] (0,\\y) -- (\\textwidth,\\y);\n}\n"));
    assert!(latex.contains("\n{\\Large \\textbf{Test Composition}}\n\n\\textit{Raga: mohanam | Tala: adi | Composer: Unknown | Tempo: 60 BPM}\n\n\\vspace{1em}\n\n\n\\textbf{[pallavi]}\n\n\\noindent\\begin{tabularx}"));
    assert!(latex.ends_with("\\end{tabularx}\n\n\\stafflines\n\n\\vspace{0.5em}\n\n\\end{document}"));
}
