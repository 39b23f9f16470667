use vna::parser::{parse, parse_notation_line_with_beats};
use vna::types::{CommentType, ParseErrorKind};

const HEAD: &str = "---\ntitle: \"Test\"\nraga: \"mohanam\"\ntala: \"+234+0+0\"\n---\n\n";

fn with_body(body: &str) -> String {
    format!("{}{}", HEAD, body)
}

#[test]
fn test_parse_complete_file() {
    let content = r#"---
title: "Test Varnam"
raga: "mohanam"
tala: "+234+0+0"
tempo: 60
---

[pallavi]
G , G , | R , , , | S S R R ||
nin - nu - | ko - - - | ri - - - ||

[anupallavi]
P D S' D | P G R S ||
pa da sa da | pa ga ra sa ||
"#;

    let result = parse(content);
    assert!(result.is_ok());

    let doc = result.unwrap();
    assert_eq!(doc.metadata.title, "Test Varnam");
    assert_eq!(doc.metadata.raga, "mohanam");
    assert_eq!(doc.sections.len(), 2);
    assert_eq!(doc.sections[0].name, "pallavi");
    assert_eq!(doc.sections[0].phrases.len(), 1);
}

#[test]
fn test_parse_invalid_yaml() {
    let content = r#"---
title: "Test"
invalid_yaml: [unclosed
---

[pallavi]
G ||
nin ||
"#;

    let result = parse(content);
    assert!(result.is_err());
}

#[test]
fn parser_test_parse_invalid_yaml() {
    let content = "---\ntitle: \"Test\"\ninvalid_yaml: [unclosed\n---\n\n[pallavi]\nG ||\nnin ||\n~ ||\n";
    let result = parse(content);
    assert!(result.is_err());
}

#[test]
fn test_parse_missing_required_field() {
    let content = r#"---
title: "Test"
# Missing raga and tala
---

[pallavi]
G ||
nin ||
"#;

    let result = parse(content);
    assert!(result.is_err());
}

#[test]
fn parser_test_parse_missing_required_field() {
    let content = "---\ntitle: \"Test\"\n# Missing raga and tala\n---\n\n[pallavi]\nG ||\nnin ||\n~ ||\n";
    let result = parse(content);
    assert!(result.is_err());
}

#[test]
fn test_parse_incomplete_phrase() {
    let content = r#"---
title: "Test"
raga: "mohanam"
tala: "+234+0+0"
---

[pallavi]
G , G , | R , , , ||
# Missing sahitya line
"#;

    let result = parse(content);
    assert!(result.is_err());
}

#[test]
fn test_parse_with_phrase_analysis() {
    let content = r#"---
title: "Test"
raga: "mohanam"
tala: "+234+0+0"
---

[pallavi]
G , G , | R , , , ||
nin - nu - | ko - - - ||
phrases = (_ *)* *   * *
"#;

    let result = parse(content);
    assert!(result.is_ok());
    let doc = result.unwrap();
    assert_eq!(
        doc.sections[0].phrases[0].phrase_analysis,
        Some("(_ *)* *   * *".to_string())
    );
}

#[test]
fn metadata_fields_are_decoded() {
    let content = "---\ntitle: Varnam\nraga: mohanam\ntala: \"+234+0+0\"\ntype: varnam\ntempo: 72\ncomposer: \"P. S. Iyer\"\nlanguage: telugu\nkey: C\ngati: 4\ndefault_octave: middle\narohanam: S R G P D S'\navarohanam: \"S' D P G R S\"\nextra: ignored\n---\n";
    let doc = parse(content).unwrap();
    let m = doc.metadata;
    assert_eq!(m.title, "Varnam");
    assert_eq!(m.raga, "mohanam");
    assert_eq!(m.tala, "+234+0+0");
    assert_eq!(m.composition_type, Some("varnam".to_string()));
    assert_eq!(m.tempo, Some(72));
    assert_eq!(m.composer, Some("P. S. Iyer".to_string()));
    assert_eq!(m.language, Some("telugu".to_string()));
    assert_eq!(m.key, Some("C".to_string()));
    assert_eq!(m.gati, Some(4));
    assert_eq!(m.default_octave, Some("middle".to_string()));
    assert_eq!(m.arohanam, Some("S R G P D S'".to_string()));
    assert_eq!(m.avarohanam, Some("S' D P G R S".to_string()));
    assert!(doc.sections.is_empty());
    assert!(doc.comments.is_empty());
}

#[test]
fn missing_frontmatter_is_reported() {
    let e = parse("[pallavi]\nG ||\nnin ||\n").unwrap_err();
    assert_eq!(e.kind, ParseErrorKind::MissingFrontmatter);
    assert_eq!(e.line, 1);
    assert_eq!(e.message, "Missing YAML frontmatter at start of file");
    assert_eq!(e.to_string(), "Missing YAML frontmatter at start of file");

    let e = parse("").unwrap_err();
    assert_eq!(e.kind, ParseErrorKind::MissingFrontmatter);
    assert_eq!(e.line, 1);

    let e = parse("\n\n  title: x\n").unwrap_err();
    assert_eq!(e.kind, ParseErrorKind::MissingFrontmatter);
    assert_eq!(e.line, 3);
}

#[test]
fn frontmatter_may_follow_blank_lines() {
    let content = format!("\n   \n{}[pallavi]\nG ||\nnin ||\n", HEAD);
    let doc = parse(&content).unwrap();
    assert_eq!(doc.metadata.title, "Test");
    assert_eq!(doc.sections[0].line_number, 9);
    assert_eq!(doc.sections[0].phrases[0].line_number, 10);
}

#[test]
fn empty_frontmatter_is_reported() {
    let e = parse("---\n---\n[pallavi]\n").unwrap_err();
    assert_eq!(e.kind, ParseErrorKind::EmptyFrontmatter);
    assert_eq!(e.line, 1);
    assert_eq!(e.message, "Empty YAML frontmatter");
}

#[test]
fn malformed_metadata_is_reported() {
    let e = parse("---\ntitle: \"Test\"\n# Missing raga and tala\n---\n").unwrap_err();
    assert_eq!(e.kind, ParseErrorKind::MalformedMetadata);
    assert_eq!(e.line, 1);
    assert_eq!(e.message, "Invalid YAML metadata: missing field `raga`");

    let e = parse("---\ntitle: a\nraga: b\ntala: c\ntempo: fast\n---\n").unwrap_err();
    assert_eq!(e.kind, ParseErrorKind::MalformedMetadata);
    assert_eq!(
        e.message,
        "Invalid YAML metadata: invalid value for `tempo`: expected an unsigned integer"
    );

    let e = parse("---\ntitle: a\nraga: b\ntala: c\ngati: 256\n---\n").unwrap_err();
    assert_eq!(e.kind, ParseErrorKind::MalformedMetadata);
    assert_eq!(
        e.message,
        "Invalid YAML metadata: invalid value for `gati`: expected an unsigned integer"
    );

    let e = parse("---\ntitle: \"Test\"\ninvalid_yaml: [unclosed\n---\n").unwrap_err();
    assert_eq!(e.kind, ParseErrorKind::MalformedMetadata);
    assert!(e.message.starts_with("Invalid YAML metadata: "));
    assert!(e.message.len() > "Invalid YAML metadata: ".len());
}

#[test]
fn missing_required_field_is_reported() {
    let e = parse("---\ntitle: \"\"\nraga: b\ntala: c\n---\n").unwrap_err();
    assert_eq!(e.kind, ParseErrorKind::MissingRequiredField);
    assert_eq!(e.line, 1);
    assert_eq!(e.message, "Missing required field: title");

    let e = parse("---\ntitle: a\nraga:\ntala: c\n---\n").unwrap_err();
    assert_eq!(e.kind, ParseErrorKind::MissingRequiredField);
    assert_eq!(e.message, "Missing required field: raga");

    let e = parse("---\ntitle: a\nraga: b\ntala: \"\"\n---\n").unwrap_err();
    assert_eq!(e.kind, ParseErrorKind::MissingRequiredField);
    assert_eq!(e.message, "Missing required field: tala");
}

#[test]
fn unexpected_content_is_reported() {
    let e = parse(&with_body("stray words\n")).unwrap_err();
    assert_eq!(e.kind, ParseErrorKind::UnexpectedContent);
    assert_eq!(e.line, 7);
    assert_eq!(e.message, "Unexpected content at line 7: stray words");

    let e = parse(&with_body("[pallavi]\n  stray words  \n")).unwrap_err();
    assert_eq!(e.kind, ParseErrorKind::UnexpectedContent);
    assert_eq!(e.line, 8);
    assert_eq!(
        e.message,
        "Unexpected content in section 'pallavi' at line 8: stray words"
    );
}

#[test]
fn missing_beat_markers_are_reported() {
    let e = parse(&with_body("[pallavi]\nG , G , ||\nnin nu\n\n")).unwrap_err();
    assert_eq!(e.kind, ParseErrorKind::MissingBeatMarkers);
    assert_eq!(e.line, 9);
    assert_eq!(e.message, "Invalid sahitya line at 9: missing beat markers");

    let e = parse(&with_body("[pallavi]\nG , G , ||\n\nnin nu ||\n")).unwrap_err();
    assert_eq!(e.kind, ParseErrorKind::MissingBeatMarkers);
    assert_eq!(e.line, 9);
}

#[test]
fn incomplete_phrase_is_reported() {
    let e = parse(&with_body("[pallavi]\nG , G , ||")).unwrap_err();
    assert_eq!(e.kind, ParseErrorKind::IncompletePhrase);
    assert_eq!(e.line, 8);
    assert_eq!(
        e.message,
        "Incomplete phrase at line 8 - need at least 2 lines (swara, sahitya)"
    );
}

#[test]
fn invalid_gati_is_reported() {
    let e = parse(&with_body("[pallavi]\n@gati: three\nG ||\nnin ||\n")).unwrap_err();
    assert_eq!(e.kind, ParseErrorKind::InvalidGati);
    assert_eq!(e.line, 8);
    assert_eq!(e.message, "Invalid gati value at line 8: three");

    let e = parse(&with_body("[pallavi]\n@gati: 256\nG ||\nnin ||\n")).unwrap_err();
    assert_eq!(e.kind, ParseErrorKind::InvalidGati);
    let e = parse(&with_body("[pallavi]\n@gati: 0\nG ||\nnin ||\n")).unwrap_err();
    assert_eq!(e.kind, ParseErrorKind::InvalidGati);
    assert_eq!(e.message, "Invalid gati value at line 8: 0");
    let e = parse(&with_body("[pallavi]\n@gati:\nG ||\nnin ||\n")).unwrap_err();
    assert_eq!(e.kind, ParseErrorKind::InvalidGati);
    assert_eq!(e.message, "Invalid gati value at line 8: ");
}

#[test]
fn beat_misalignment_is_reported() {
    let e = parse(&with_body("[pallavi]\nG , | G , ||\nnin - nu | - ||\n")).unwrap_err();
    assert_eq!(e.kind, ParseErrorKind::BeatMisalignment);
    assert_eq!(e.line, 8);
    assert_eq!(
        e.message,
        "Beat markers misaligned between swara and sahitya lines at line 8"
    );

    let e = parse(&with_body("[pallavi]\nG , | G , ||\nnin - nu - ||\n")).unwrap_err();
    assert_eq!(e.kind, ParseErrorKind::BeatMisalignment);
}

#[test]
fn section_overrides_and_comments() {
    let body = "# about the piece\n[pallavi]\n# first\n@gati: 3\n@tala: \"+0+0\"\n# second\nG , | R ||\nni - | nu ||\n\n# trailing\n\n[charanam]\n@gati: +5\nP ||\npa ||\n# last\n";
    let doc = parse(&with_body(body)).unwrap();
    assert_eq!(doc.comments.len(), 1);
    assert_eq!(doc.comments[0].text, "about the piece");
    assert_eq!(doc.comments[0].line_number, 7);
    assert_eq!(doc.comments[0].comment_type, CommentType::Line);
    assert_eq!(doc.sections.len(), 2);
    let s = &doc.sections[0];
    assert_eq!(s.name, "pallavi");
    assert_eq!(s.line_number, 8);
    assert_eq!(s.gati, Some(3));
    assert_eq!(s.tala, Some("+0+0".to_string()));
    assert_eq!(s.phrases.len(), 1);
    let p = &s.phrases[0];
    assert_eq!(p.line_number, 13);
    assert_eq!(p.swaras, vec!["G", ",", "R"]);
    assert_eq!(p.sahitya, vec!["ni", "-", "nu"]);
    assert_eq!(p.beat_positions, vec![2]);
    assert_eq!(p.gati, None);
    assert_eq!(p.tala, None);
    assert_eq!(p.phrase_analysis, None);
    assert_eq!(p.preceding_comments.len(), 2);
    assert_eq!(p.preceding_comments[0].text, "first");
    assert_eq!(p.preceding_comments[0].line_number, 9);
    assert_eq!(p.preceding_comments[1].text, "second");
    assert_eq!(s.comments.len(), 1);
    assert_eq!(s.comments[0].text, "trailing");
    assert_eq!(s.comments[0].line_number, 16);
    let c = &doc.sections[1];
    assert_eq!(c.name, "charanam");
    assert_eq!(c.line_number, 18);
    assert_eq!(c.gati, Some(5));
    assert_eq!(c.tala, None);
    assert_eq!(c.comments.len(), 1);
    assert_eq!(c.comments[0].text, "last");
}

#[test]
fn notation_line_tokens_and_beats() {
    let (tokens, beats) = parse_notation_line_with_beats("G , G , | R , , , | S S R R ||");
    assert_eq!(tokens.len(), 12);
    assert_eq!(tokens[4], "R");
    assert_eq!(beats, vec![4, 8]);

    let (tokens, beats) = parse_notation_line_with_beats("| G  R|| S ||");
    assert_eq!(tokens, vec!["G", "R", "S"]);
    assert_eq!(beats, vec![2, 2]);

    let (tokens, beats) = parse_notation_line_with_beats("G ||");
    assert_eq!(tokens, vec!["G"]);
    assert_eq!(beats, Vec::<usize>::new());

    let (tokens, beats) = parse_notation_line_with_beats("  G ||  ");
    assert_eq!(tokens, vec!["G"]);
    assert_eq!(beats, vec![1, 1]);

    let (tokens, beats) = parse_notation_line_with_beats("||");
    assert_eq!(tokens, Vec::<String>::new());
    assert_eq!(beats, Vec::<usize>::new());
}

#[test]
fn trailing_whitespace_and_blank_lines_do_not_matter() {
    let plain = with_body("[pallavi]\nG , | R ||\nni - | nu ||\nP ||\npa ||\n");
    let spaced = with_body("[pallavi]  \n\n\nG , | R ||   \nni - | nu ||\t\n\n\n\nP || \npa ||  \n\n\n");
    let a = parse(&plain).unwrap();
    let b = parse(&spaced).unwrap();
    assert_eq!(a.sections.len(), b.sections.len());
    assert_eq!(a.sections[0].phrases.len(), 2);
    assert_eq!(b.sections[0].phrases.len(), 2);
    assert_eq!(a.sections[0].phrases[0].swaras, b.sections[0].phrases[0].swaras);
    assert_eq!(a.sections[0].phrases[1].sahitya, b.sections[0].phrases[1].sahitya);
    assert_eq!(a.sections[0].phrases[0].beat_positions, b.sections[0].phrases[0].beat_positions);

    let windows = plain.replace('\n', "\r\n");
    let c = parse(&windows).unwrap();
    assert_eq!(a, c);
}
