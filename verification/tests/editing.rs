use vna::editor::{
    diagnostic_range, document_outline, get_word_at_position, hover_target, metadata_summary,
    HoverTarget,
};
use vna::parser::parse;
use vna::types::{Position, Range, Severity, ValidationIssue};

const TEXT: &str = "---\ntitle: T\nraga: r\ntala: \"+0+0\"\n---\n[pallavi]\nG , | R ||\nni - | nu ||\nphrases = _ *\nP ||\npa ||\n[empty]\n";

#[test]
fn word_under_the_cursor() {
    assert_eq!(get_word_at_position("G1 ninnu | R", 4), Some("ninnu".to_string()));
    assert_eq!(get_word_at_position("G1 ninnu | R", 0), Some("G1".to_string()));
    assert_eq!(get_word_at_position("G1 ninnu | R", 2), Some("G1".to_string()));
    assert_eq!(get_word_at_position("G1 ninnu | R", 9), None);
    assert_eq!(get_word_at_position("G1 ninnu | R", 11), Some("R".to_string()));
    assert_eq!(get_word_at_position("G1 ninnu | R", 12), None);
    assert_eq!(get_word_at_position("", 0), None);
}

#[test]
fn hover_targets() {
    let doc = parse(TEXT).unwrap();
    assert_eq!(hover_target(&doc, 0), None);
    assert_eq!(hover_target(&doc, 5), Some(HoverTarget::Section("pallavi".to_string())));
    assert_eq!(
        hover_target(&doc, 6),
        Some(HoverTarget::Phrase { line_type: 0, has_analysis: true })
    );
    assert_eq!(
        hover_target(&doc, 8),
        Some(HoverTarget::Phrase { line_type: 2, has_analysis: true })
    );
    assert_eq!(
        hover_target(&doc, 10),
        Some(HoverTarget::Phrase { line_type: 1, has_analysis: false })
    );
    assert_eq!(hover_target(&doc, 11), Some(HoverTarget::Section("empty".to_string())));
    assert_eq!(hover_target(&doc, 12), None);
}

#[test]
fn outline_and_ranges() {
    let doc = parse(TEXT).unwrap();
    assert_eq!(metadata_summary(&doc), "T - r - +0+0");
    let outline = document_outline(&doc);
    assert_eq!(outline.len(), 2);
    assert_eq!(outline[0].name, "pallavi");
    assert_eq!(outline[0].detail, "2 phrases");
    assert_eq!(
        outline[0].range,
        Range {
            start: Position { line: 5, character: 0 },
            end: Position { line: 13, character: 0 }
        }
    );
    assert_eq!(
        outline[0].selection_range,
        Range {
            start: Position { line: 5, character: 0 },
            end: Position { line: 5, character: 9 }
        }
    );
    assert_eq!(outline[0].children.len(), 2);
    assert_eq!(outline[0].children[1].name, "Phrase 2");
    assert_eq!(outline[0].children[0].detail, "3 elements");
    assert_eq!(
        outline[0].children[0].range,
        Range {
            start: Position { line: 6, character: 0 },
            end: Position { line: 9, character: 0 }
        }
    );
    assert_eq!(
        outline[0].children[0].selection_range,
        Range {
            start: Position { line: 6, character: 0 },
            end: Position { line: 6, character: 10 }
        }
    );
    assert_eq!(outline[1].children.len(), 0);
    assert_eq!(outline[1].detail, "0 phrases");
    assert_eq!(outline[1].range.end.line, 13);

    let mut issue = ValidationIssue {
        severity: Severity::Info,
        message: String::new(),
        line: 4,
        column: Some(2),
        code: None,
        range: None,
    };
    assert_eq!(
        diagnostic_range(&issue),
        Range {
            start: Position { line: 3, character: 2 },
            end: Position { line: 3, character: 12 }
        }
    );
    issue.line = 0;
    issue.column = None;
    assert_eq!(diagnostic_range(&issue).start, Position { line: 0, character: 0 });
    assert_eq!(diagnostic_range(&issue).end, Position { line: 0, character: 10 });
    let given = Range {
        start: Position { line: 1, character: 1 },
        end: Position { line: 2, character: 2 },
    };
    issue.range = Some(given);
    assert_eq!(diagnostic_range(&issue), given);
}
