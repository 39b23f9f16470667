use vna::parser::parse;
use vna::types::{Metadata, Phrase, Section, Severity, ValidationIssue, VnaDocument};
use vna::validator::{
    check_token_pair, validate, validate_metadata, validate_phrase, validate_tala_pattern,
};
use vna::wasm_types::{WasmValidationIssue, WasmVnaDocument};

fn codes(issues: &[ValidationIssue]) -> Vec<String> {
    issues.iter().map(|i| i.code.clone().unwrap()).collect()
}

fn count(issues: &[ValidationIssue], code: &str) -> usize {
    issues.iter().filter(|i| i.code.as_deref() == Some(code)).count()
}

fn metadata(tempo: Option<u32>) -> Metadata {
    Metadata {
        title: "Test".to_string(),
        raga: "mohanam".to_string(),
        tala: "+234+0+0".to_string(),
        composition_type: None,
        tempo,
        composer: None,
        language: None,
        key: None,
        gati: None,
        default_octave: None,
        arohanam: None,
        avarohanam: None,
    }
}

fn phrase(swaras: &[&str], sahitya: &[&str]) -> Phrase {
    Phrase {
        swaras: swaras.iter().map(|s| s.to_string()).collect(),
        sahitya: sahitya.iter().map(|s| s.to_string()).collect(),
        phrase_analysis: None,
        line_number: 10,
        preceding_comments: Vec::new(),
        gati: None,
        tala: None,
        beat_positions: Vec::new(),
    }
}

#[test]
fn test_valid_document() {
    let content = r#"---
title: "Test Varnam"
raga: "mohanam"
tala: "+234+0+0"
tempo: 60
---

[pallavi]
G, G, | R,,, ||
ni- nn- | u-ko- ||
"#;

    let doc = parse(content).unwrap();
    let issues = validate(&doc);

    for issue in &issues {
        println!("{:?}: {}", issue.severity, issue.message);
    }

    let errors: Vec<_> = issues.iter().filter(|i| i.severity == Severity::Error).collect();
    assert_eq!(errors.len(), 0, "Got {} errors: {:?}", errors.len(), errors);
}

#[test]
fn test_line_length_mismatch() {
    let content = r#"---
title: "Test"
raga: "mohanam"
tala: "+234+0+0"
---

[pallavi]
G,G, R,,, | SSRR ||
nin uko- | ri-- ||
"#;

    let doc = parse(content).unwrap();
    let issues = validate(&doc);

    let errors: Vec<_> = issues.iter().filter(|i| i.severity == Severity::Error).collect();
    assert!(
        !errors.is_empty(),
        "Expected errors for unit mismatch, but got none. Issues: {:?}",
        issues
    );
}

#[test]
fn test_invalid_phrase_analysis() {
    let content = r#"---
title: "Test"
raga: "mohanam"
tala: "+234+0+0"
---

[pallavi]
G , G , ||
nin - nu - ||
phrases = x ~ y ~
"#;

    let doc = parse(content).unwrap();
    let issues = validate(&doc);

    let warnings: Vec<_> = issues.iter().filter(|i| i.severity == Severity::Warning).collect();
    assert!(!warnings.is_empty());
}

#[test]
fn test_extreme_tempo() {
    let content = r#"---
title: "Test"
raga: "mohanam"
tala: "+234+0+0"
tempo: 500
---

[pallavi]
G ||
nin ||
"#;

    let doc = parse(content).unwrap();
    let issues = validate(&doc);

    let warnings: Vec<_> = issues.iter().filter(|i| i.severity == Severity::Warning).collect();
    assert!(!warnings.is_empty());
}

#[test]
fn tempo_boundaries() {
    assert_eq!(count(&validate_metadata(&metadata(Some(20))), "unusual_tempo"), 0);
    assert_eq!(count(&validate_metadata(&metadata(Some(300))), "unusual_tempo"), 0);
    assert_eq!(count(&validate_metadata(&metadata(None)), "unusual_tempo"), 0);
    let low = validate_metadata(&metadata(Some(19)));
    assert_eq!(count(&low, "unusual_tempo"), 1);
    assert_eq!(low.len(), 1);
    assert_eq!(low[0].severity, Severity::Warning);
    assert_eq!(low[0].line, 1);
    assert_eq!(low[0].column, None);
    assert_eq!(low[0].range, None);
    assert_eq!(low[0].message, "Unusual tempo: 19 BPM (typical range: 20-300)");
    let high = validate_metadata(&metadata(Some(301)));
    assert_eq!(count(&high, "unusual_tempo"), 1);
    assert_eq!(high[0].message, "Unusual tempo: 301 BPM (typical range: 20-300)");
}

#[test]
fn metadata_rules() {
    let mut m = metadata(None);
    m.gati = Some(6);
    m.title = "  ".to_string();
    m.raga = String::new();
    m.tala = " ".to_string();
    let issues = validate_metadata(&m);
    assert_eq!(
        codes(&issues),
        vec![
            "unusual_gati",
            "empty_title",
            "empty_raga",
            "empty_tala",
            "invalid_tala_pattern",
            "uncommon_tala_pattern"
        ]
    );
    assert_eq!(issues[0].message, "Unusual gati value: 6 (typical values: 3, 4, 5, 7, 9)");
    assert_eq!(issues[0].severity, Severity::Warning);
    assert_eq!(issues[1].message, "Title cannot be empty");
    assert_eq!(issues[1].severity, Severity::Error);
    assert_eq!(issues[2].message, "Raga cannot be empty");
    assert_eq!(issues[3].message, "Tala cannot be empty");

    for g in [3u8, 4, 5, 7, 9] {
        let mut m = metadata(None);
        m.gati = Some(g);
        assert!(validate_metadata(&m).is_empty());
    }
}

#[test]
fn tala_patterns() {
    for known in ["+234+0+0", "0++234", "+230+00", "+23+0+0", "+0+0", "++++++++"] {
        assert!(validate_tala_pattern(known, 3).is_empty());
    }
    assert!(validate_tala_pattern("", 3).is_empty());

    let issues = validate_tala_pattern("+2+", 3);
    assert_eq!(codes(&issues), vec!["uncommon_tala_pattern"]);
    assert_eq!(issues[0].severity, Severity::Info);
    assert_eq!(issues[0].line, 3);
    assert_eq!(
        issues[0].message,
        "Uncommon tala pattern '+2+'. Common patterns include: +234+0+0 (Adi), 0++234 (Rupaka), +230+00 (Misra Chapu), +23+0+0 (Triputa), +0+0 (Khanda Chapu), ++++++++ (All claps)"
    );

    let issues = validate_tala_pattern("+1x9", 4);
    assert_eq!(
        codes(&issues),
        vec!["invalid_tala_pattern", "invalid_tala_pattern", "uncommon_tala_pattern"]
    );
    assert_eq!(issues[0].severity, Severity::Error);
    assert_eq!(
        issues[0].message,
        "Invalid character '1' in tala pattern at position 2: valid characters are +, 0, and 2-9"
    );
    assert_eq!(
        issues[1].message,
        "Invalid character 'x' in tala pattern at position 3: valid characters are +, 0, and 2-9"
    );
}

#[test]
fn token_pairs() {
    let four: Vec<String> = ["ni", "nu", "ko", "ri"].iter().map(|s| s.to_string()).collect();
    assert!(check_token_pair(1, "G,G,", "ni`nu`ko`ri", &four, 10).is_empty());

    let two: Vec<String> = ["ni", "nu"].iter().map(|s| s.to_string()).collect();
    let issues = check_token_pair(3, "SRG:3", "ni`nu", &two, 10);
    assert_eq!(codes(&issues), vec!["token_unit_mismatch"]);
    assert_eq!(issues[0].severity, Severity::Error);
    assert_eq!(issues[0].line, 11);
    assert_eq!(
        issues[0].message,
        "Token unit mismatch at position 3: swara 'SRG' (3 units) vs sahitya 'ni`nu' (2 units)"
    );

    let issues = check_token_pair(1, "SR:6", "ni`nu", &two, 10);
    assert_eq!(codes(&issues), vec!["unusual_token_gati"]);
    assert_eq!(issues[0].severity, Severity::Warning);
    assert_eq!(issues[0].line, 10);
    assert_eq!(
        issues[0].message,
        "Unusual gati value in token 'SR:6': 6 (typical values: 3, 4, 5, 7, 9)"
    );

    let issues = check_token_pair(1, "SR:x", "ni", &two, 10);
    assert_eq!(codes(&issues), vec!["invalid_token_gati"]);
    assert_eq!(issues[0].severity, Severity::Error);
    assert_eq!(
        issues[0].message,
        "Invalid gati notation in token 'SR:x': expected number after colon"
    );

    let issues = check_token_pair(usize::MAX, "S:", "ni", &two, usize::MAX);
    assert_eq!(codes(&issues), vec!["invalid_token_gati", "token_unit_mismatch"]);
    assert_eq!(issues[1].line, usize::MAX);
}

#[test]
fn manual_marks_align_with_notes() {
    let p = phrase(&["G,G,"], &["ni`nu`ko`ri"]);
    let issues = validate_phrase(&p, &None);
    assert_eq!(count(&issues, "token_unit_mismatch"), 0);
    assert_eq!(issues, validate_phrase(&p, &Some("tamil".to_string())));

    let content = "---\ntitle: t\nraga: r\ntala: \"+0+0\"\n---\n[pallavi]\nG,G, ||\nni`nu`ko`ri ||\n";
    let issues = validate(&parse(content).unwrap());
    assert_eq!(count(&issues, "token_unit_mismatch"), 0);
}

#[test]
fn phrase_rules() {
    let mut p = phrase(&["G", "R"], &["ni"]);
    p.gati = Some(8);
    p.tala = Some("+0+0".to_string());
    let issues = validate_phrase(&p, &None);
    assert_eq!(codes(&issues), vec!["unusual_gati", "token_count_mismatch"]);
    assert_eq!(issues[0].line, 10);
    assert_eq!(issues[1].line, 11);
    assert_eq!(
        issues[1].message,
        "Token count mismatch: swara line has 2 tokens, sahitya line has 1"
    );

    let p = phrase(&[], &[]);
    let issues = validate_phrase(&p, &None);
    assert_eq!(codes(&issues), vec!["empty_swara_line", "empty_sahitya_line"]);
    assert_eq!(issues[0].message, "Swara line cannot be empty");
    assert_eq!(issues[0].line, 10);
    assert_eq!(issues[1].message, "Sahitya line cannot be empty");
    assert_eq!(issues[1].line, 11);

    let mut p = phrase(&["Sa", "R"], &["ni`", "nu`"]);
    p.phrase_analysis = Some("_ x*".to_string());
    let issues = validate_phrase(&p, &None);
    assert_eq!(codes(&issues), vec!["invalid_phrase_analysis", "mixed_case_swara"]);
    assert_eq!(issues[0].severity, Severity::Warning);
    assert_eq!(issues[0].line, 12);
    assert_eq!(issues[0].message, "Invalid character 'x' in phrase analysis at position 3");
    assert_eq!(issues[1].severity, Severity::Warning);
    assert_eq!(issues[1].line, 10);
    assert_eq!(issues[1].message, "Mixed case in swara 'Sa' at position 1");
}

#[test]
fn section_rules_and_determinism() {
    let doc = VnaDocument {
        metadata: metadata(Some(10)),
        sections: vec![Section {
            name: " ".to_string(),
            phrases: vec![phrase(&["G,"], &["ni-"]), phrase(&["G"], &["ni", "nu"])],
            line_number: 7,
            comments: Vec::new(),
            gati: Some(2),
            tala: Some("+a".to_string()),
        }],
        comments: Vec::new(),
    };
    let issues = validate(&doc);
    assert_eq!(
        codes(&issues),
        vec![
            "unusual_tempo",
            "empty_section_name",
            "unusual_gati",
            "invalid_tala_pattern",
            "uncommon_tala_pattern",
            "token_count_mismatch"
        ]
    );
    assert_eq!(issues[1].line, 7);
    assert_eq!(issues[1].message, "Section name cannot be empty");
    assert_eq!(issues[2].line, 7);
    assert_eq!(issues, validate(&doc));
}

#[test]
fn end_to_end_minimal_document() {
    let content = "---\ntitle: Minimal\nraga: mohanam\ntala: \"+234+0+0\"\n---\n[pallavi]\nG R | S ||\nni nu | sa ||\n";
    let doc = parse(content).unwrap();
    let issues = validate(&doc);
    assert_eq!(issues.iter().filter(|i| i.severity == Severity::Error).count(), 0);
    assert_eq!(issues, validate(&parse(content).unwrap()));
}

#[test]
fn flat_copies() {
    let content = "---\ntitle: Minimal\nraga: mohanam\ntala: \"+234+0+0\"\ntempo: 10\nlanguage: telugu\n---\n[pallavi]\nG R | S ||\nni nu | sa ||\nphrases = _ *\n";
    let doc = parse(content).unwrap();
    let flat = WasmVnaDocument::from(&doc);
    assert_eq!(flat.metadata.title, "Minimal");
    assert_eq!(flat.metadata.raga, "mohanam");
    assert_eq!(flat.metadata.tala, "+234+0+0");
    assert_eq!(flat.metadata.tempo, Some(10));
    assert_eq!(flat.metadata.gati, None);
    assert_eq!(flat.metadata.composer, None);
    assert_eq!(flat.metadata.language, Some("telugu".to_string()));
    assert_eq!(flat.sections.len(), 1);
    assert_eq!(flat.sections[0].name, "pallavi");
    assert_eq!(flat.sections[0].phrases[0].swaras, vec!["G", "R", "S"]);
    assert_eq!(flat.sections[0].phrases[0].sahitya, vec!["ni", "nu", "sa"]);
    assert_eq!(flat.sections[0].phrases[0].phrase_analysis, Some("_ *".to_string()));

    let issues = validate(&doc);
    let flat: Vec<WasmValidationIssue> = issues.iter().map(WasmValidationIssue::from).collect();
    assert_eq!(flat[0].severity, "warning");
    assert_eq!(flat[0].message, "Unusual tempo: 10 BPM (typical range: 20-300)");
    assert_eq!(flat[0].line, 1);
    let info = WasmValidationIssue::from(&validate_tala_pattern("+2", 5)[0]);
    assert_eq!(info.severity, "info");
    assert_eq!(info.line, 5);
    let error = WasmValidationIssue::from(&validate_tala_pattern("x", 5)[0]);
    assert_eq!(error.severity, "error");
}
