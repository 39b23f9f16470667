use vna::parser::{frontmatter, parse_decoded, parse_notation_line};
use vna::sahitya_parser::{
    could_be_long_vowel, is_simple_vowel, parse_automatic_fallback, parse_automatic_with_shlesha,
    parse_vowel_based, parse_with_backticks, resolve_round_trip, target_script,
};
use vna::text::{
    chars_of, contains_char, ends_with, find_char, is_space, join_rows, parse_unsigned,
    split_chars, split_lines, split_words, starts_with, string_of, strip_char, trim,
};
use vna::types::{ParseErrorKind, ParseResult};
use vna::yaml::metadata_from_fields;

fn c(s: &str) -> Vec<char> {
    s.chars().collect()
}

fn s(v: &[char]) -> String {
    v.iter().collect()
}

fn strings(rows: &[Vec<char>]) -> Vec<String> {
    rows.iter().map(|r| s(r)).collect()
}

#[test]
fn trimming() {
    assert_eq!(s(&trim(&c("  a b \t\r\n"))), "a b");
    assert_eq!(s(&trim(&c(" \u{a0}\u{3000} "))), "");
    assert_eq!(s(&trim(&c(""))), "");
    assert_eq!(s(&trim(&c("x"))), "x");
    assert_eq!(s(&strip_char(&c("\"\"a\"b\""), '"')), "a\"b");
    assert_eq!(s(&strip_char(&c("\"\""), '"')), "");
    for ch in [' ', '\t', '\n', '\r', '\u{b}', '\u{c}', '\u{85}', '\u{a0}', '\u{2028}', '\u{3000}'] {
        assert!(is_space(ch));
    }
    for ch in ['a', '|', '\u{200b}', '\u{feff}', '0'] {
        assert!(!is_space(ch));
    }
    for n in 0u32..0x3100 {
        if let Some(ch) = char::from_u32(n) {
            assert_eq!(is_space(ch), ch.is_whitespace());
        }
    }
}

#[test]
fn splitting() {
    assert_eq!(strings(&split_chars(&c("a|b||c"), '|')), vec!["a", "b", "", "c"]);
    assert_eq!(strings(&split_chars(&c(""), '|')), vec![""]);
    assert_eq!(strings(&split_chars(&c("|"), '|')), vec!["", ""]);
    assert_eq!(strings(&split_words(&c("  a  bc\td "))), vec!["a", "bc", "d"]);
    assert_eq!(strings(&split_words(&c("   "))), Vec::<String>::new());
    assert_eq!(strings(&split_lines(&c("a\nb\r\n\nc"))), vec!["a", "b", "", "c"]);
    assert_eq!(strings(&split_lines(&c("a\n"))), vec!["a"]);
    assert_eq!(strings(&split_lines(&c("a\r"))), vec!["a\r"]);
    assert_eq!(strings(&split_lines(&c(""))), Vec::<String>::new());
    assert_eq!(strings(&split_lines(&c("\n"))), vec![""]);
    for text in ["", "a", "a\nb", "a\r\nb\n", "\n\n", "x\r", "\r\n"] {
        let expected: Vec<String> = text.lines().map(|l| l.to_string()).collect();
        assert_eq!(strings(&split_lines(&c(text))), expected);
    }
    assert_eq!(s(&join_rows(&vec![c("a"), c(""), c("b")], '\n')), "a\n\nb");
    assert_eq!(s(&join_rows(&Vec::new(), '\n')), "");
    assert_eq!(string_of(&chars_of("n\u{101}")), "n\u{101}");
}

#[test]
fn searching_and_numbers() {
    assert!(starts_with(&c("@gati: 3"), &c("@gati:")));
    assert!(!starts_with(&c("@gat"), &c("@gati:")));
    assert!(ends_with(&c("S ||"), &c("||")));
    assert!(!ends_with(&c("|"), &c("||")));
    assert!(contains_char(&c("a|b"), '|'));
    assert!(!contains_char(&c("ab"), '|'));
    assert_eq!(find_char(&c("SR:3:4"), ':'), 2);
    assert_eq!(find_char(&c("SR"), ':'), 2);
    assert_eq!(parse_unsigned(&c("0"), 255), Some(0));
    assert_eq!(parse_unsigned(&c("255"), 255), Some(255));
    assert_eq!(parse_unsigned(&c("256"), 255), None);
    assert_eq!(parse_unsigned(&c("+7"), 255), Some(7));
    assert_eq!(parse_unsigned(&c("007"), 255), Some(7));
    assert_eq!(parse_unsigned(&c(""), 255), None);
    assert_eq!(parse_unsigned(&c("+"), 255), None);
    assert_eq!(parse_unsigned(&c("-1"), 255), None);
    assert_eq!(parse_unsigned(&c("1 "), 255), None);
    assert_eq!(parse_unsigned(&c("4294967295"), u32::MAX), Some(u32::MAX));
    assert_eq!(parse_unsigned(&c("4294967296"), u32::MAX), None);
    assert_eq!(parse_unsigned(&c("99999999999999999999999"), u32::MAX), None);
    for text in ["12", "+12", "0012", "300", "", "x", "1x", "++1", "\u{663}"] {
        assert_eq!(
            parse_unsigned(&c(text), 255),
            text.parse::<u8>().ok().map(|n| n as u32)
        );
    }
}

#[test]
fn located_values() {
    let r = ParseResult::new("x", 3, 4, 5);
    assert_eq!(r.value, "x");
    assert_eq!(r.location.line, 3);
    assert_eq!(r.location.column, 4);
    assert_eq!(r.location.offset, 5);
}

#[test]
fn frontmatter_and_fields() {
    let f = frontmatter("\n---\ntitle: a\n\nraga:  b \n --- \n[x]\n").unwrap();
    assert_eq!(f.open, 1);
    assert_eq!(f.block, "title: a\n\nraga:  b ");
    assert_eq!(f.body, 6);
    let f = frontmatter("---\ntitle: a").unwrap();
    assert_eq!(f.block, "title: a");
    assert_eq!(f.body, 2);
    assert_eq!(frontmatter("--- x\n").unwrap_err().kind, ParseErrorKind::MissingFrontmatter);
    assert_eq!(frontmatter("---\n---").unwrap_err().kind, ParseErrorKind::EmptyFrontmatter);

    let fields = vec![
        ("raga".to_string(), Some("r".to_string())),
        ("tala".to_string(), None),
        ("tempo".to_string(), Some("+80".to_string())),
        ("title".to_string(), Some("t".to_string())),
        ("title".to_string(), Some("second".to_string())),
        ("type".to_string(), None),
    ];
    let m = metadata_from_fields(&fields).unwrap();
    assert_eq!(m.title, "t");
    assert_eq!(m.raga, "r");
    assert_eq!(m.tala, "");
    assert_eq!(m.tempo, Some(80));
    assert_eq!(m.composition_type, None);
    assert_eq!(m.gati, None);
    assert_eq!(
        metadata_from_fields(&fields[..2].to_vec()).unwrap_err(),
        "missing field `title`"
    );

    let text = "---\nanything\n---\n# c\n[x]\nS ||\nsa ||\n";
    let doc = parse_decoded(text, Ok(fields.clone())).unwrap_err();
    assert_eq!(doc.kind, ParseErrorKind::MissingRequiredField);
    assert_eq!(doc.message, "Missing required field: tala");
    let mut full = fields.clone();
    full[1].1 = Some("+0+0".to_string());
    let doc = parse_decoded(text, Ok(full)).unwrap();
    assert_eq!(doc.metadata.tala, "+0+0");
    assert_eq!(doc.comments.len(), 1);
    assert_eq!(doc.sections[0].phrases[0].swaras, vec!["S"]);
    let e = parse_decoded(text, Err("broken".to_string())).unwrap_err();
    assert_eq!(e.kind, ParseErrorKind::MalformedMetadata);
    assert_eq!(e.message, "Invalid YAML metadata: broken");
    assert_eq!(e.line, 1);
    let e = parse_decoded("x", Err("broken".to_string())).unwrap_err();
    assert_eq!(e.kind, ParseErrorKind::MissingFrontmatter);

    assert_eq!(parse_notation_line("G  , | R ||"), vec!["G", ",", "R"]);
}

#[test]
fn syllabifier_parts() {
    assert!(is_simple_vowel('a') && is_simple_vowel('\u{14d}') && is_simple_vowel('E'));
    assert!(!is_simple_vowel('k') && !is_simple_vowel('\u{100}') && !is_simple_vowel('\u{12a}'));
    assert!(could_be_long_vowel('a', 'a') && could_be_long_vowel('a', '\u{101}'));
    assert!(could_be_long_vowel('\u{101}', 'a') && could_be_long_vowel('\u{14d}', 'o'));
    assert!(!could_be_long_vowel('\u{101}', '\u{101}'));
    assert!(!could_be_long_vowel('a', 'i') && !could_be_long_vowel('A', 'A'));
    assert_eq!(target_script(Some("telugu")), "telugu");
    assert_eq!(target_script(Some("tamil")), "tamil");
    assert_eq!(target_script(Some("kannada")), "devanagari");
    assert_eq!(target_script(Some("sanskrit")), "devanagari");
    assert_eq!(target_script(None), "devanagari");
    assert_eq!(parse_automatic_fallback("ninnu"), vec!["ninnu"]);
    assert_eq!(parse_with_backticks("a`-b`-`c"), vec!["a", "-", "b", "-", "c"]);
    assert_eq!(parse_automatic_with_shlesha("--", None), vec!["-", "-"]);
    assert_eq!(parse_automatic_with_shlesha("-ni", Some("telugu")), vec!["-", "ni"]);

    let back = vec![Some("ni".to_string()), Some("nnu".to_string())];
    assert_eq!(resolve_round_trip("ninnu", true, &back), vec!["ni", "nnu"]);
    assert_eq!(resolve_round_trip("ninnu", false, &back), vec!["nin", "nu"]);
    let broken = vec![Some("ni".to_string()), None];
    assert_eq!(resolve_round_trip("ninnu", true, &broken), vec!["nin", "nu"]);
    assert_eq!(resolve_round_trip("x", true, &Vec::new()), Vec::<String>::new());

    for run in ["ninnukori", "saa", "aei", "kr", "a", "\u{101}a\u{101}", "entaro"] {
        let units = parse_vowel_based(run);
        assert!(!units.is_empty());
        assert_eq!(units.concat(), run);
        assert!(units.iter().all(|u| !u.is_empty()));
    }
    assert_eq!(parse_vowel_based("entaro"), vec!["en", "ta", "ro"]);
    assert_eq!(parse_vowel_based("\u{101}a\u{101}"), vec!["\u{101}a\u{101}"]);
    assert_eq!(parse_vowel_based("\u{101}\u{101}"), vec!["\u{101}", "\u{101}"]);
}
