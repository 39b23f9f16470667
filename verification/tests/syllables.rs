use vna::sahitya_parser::parse_sahitya_token;
use vna::sahitya_parser::{parse_sahitya_token_with_lang, parse_vowel_based, split_on_dashes};
use vna::units::parse_swara_units;

#[test]
fn test_parse_sahitya_token() {
    // Basic cases (automatic mode)
    assert_eq!(parse_sahitya_token("ri--"), vec!["ri", "-", "-"]);

    assert_eq!(parse_sahitya_token("ninn"), vec!["ni", "nn"]);

    assert_eq!(parse_sahitya_token("uko-"), vec!["u", "ko", "-"]);

    assert_eq!(parse_sahitya_token("uk\u{14d}-"), vec!["u", "k\u{14d}", "-"]);

    assert_eq!(parse_sahitya_token("----"), vec!["-", "-", "-", "-"]);
    assert_eq!(parse_sahitya_token("n\u{101}---"), vec!["n\u{101}", "-", "-", "-"]);

    // With explicit syllable boundaries (manual mode)
    assert_eq!(parse_sahitya_token("nin`nu"), vec!["nin", "nu"]);
    assert_eq!(parse_sahitya_token("ka`la"), vec!["ka", "la"]);
    assert_eq!(parse_sahitya_token("nin`nu-"), vec!["nin", "nu", "-"]);
    assert_eq!(parse_sahitya_token("yun`---"), vec!["yun", "-", "-", "-"]);
    assert_eq!(parse_sahitya_token("n\u{101}`---"), vec!["n\u{101}", "-", "-", "-"]);
    assert_eq!(parse_sahitya_token("nin`nu`ko`ri"), vec!["nin", "nu", "ko", "ri"]);

    // Mixed with dashes (automatic mode)
    assert_eq!(parse_sahitya_token("nin-nu-"), vec!["ni", "n", "-", "nu", "-"]);

    // Automatic syllabification
    assert_eq!(parse_sahitya_token("ni---"), vec!["ni", "-", "-", "-"]);
    assert_eq!(parse_sahitya_token("khi"), vec!["khi"]);

    assert_eq!(parse_sahitya_token("ninnukori"), vec!["ni", "nnu", "ko", "ri"]);
    assert_eq!(parse_sahitya_token("sa\u{1e45}g\u{12b}ta"), vec!["sa", "\u{1e45}g\u{12b}", "ta"]);
}

#[test]
fn vowel_heuristic_examples() {
    assert_eq!(parse_vowel_based("nin"), vec!["nin"]);
    assert_eq!(parse_vowel_based("ninnu"), vec!["nin", "nu"]);
    assert_eq!(parse_vowel_based("kala"), vec!["ka", "la"]);
    assert_eq!(parse_vowel_based("naa"), vec!["naa"]);
    assert_eq!(parse_vowel_based("nai"), vec!["na", "i"]);
    assert_eq!(parse_vowel_based("str"), vec!["str"]);
    assert_eq!(parse_vowel_based(""), vec![""]);
}

#[test]
fn dashes_and_hints() {
    assert_eq!(split_on_dashes("a-b--"), vec!["a", "-", "b", "-", "-"]);
    assert_eq!(split_on_dashes(""), Vec::<String>::new());
    assert_eq!(
        parse_sahitya_token_with_lang("nin`nu", Some("telugu")),
        parse_sahitya_token_with_lang("nin`nu", Some("tamil"))
    );
    assert_eq!(parse_sahitya_token(""), Vec::<String>::new());
    assert_eq!(parse_sahitya_token("``"), Vec::<String>::new());
}

#[test]
fn melodic_units_examples() {
    assert_eq!(parse_swara_units("G,G,"), vec!["G", ",", "G", ","]);
    assert_eq!(parse_swara_units("S'R1.-x"), vec!["S'", "R1.", "-"]);
    assert_eq!(parse_swara_units("N3''"), vec!["N3''"]);
    assert_eq!(parse_swara_units("R12"), vec!["R1"]);
    assert_eq!(parse_swara_units(""), Vec::<String>::new());
}
