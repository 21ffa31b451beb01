use ingest_core::checksum::checksum_of;
use ingest_core::lang::{detect_language, language_of_code, Language};

#[test]
fn empty_text_falls_back_to_simple() {
    assert_eq!(detect_language(""), Language::Simple);
}

#[test]
fn digits_only_fall_back_to_simple() {
    assert_eq!(detect_language("1234 5678 90"), Language::Simple);
}

#[test]
fn english_text_is_detected() {
    assert_eq!(
        detect_language("There is no reason not to learn Esperanto."),
        Language::English
    );
}

#[test]
fn known_codes_map_to_languages() {
    assert_eq!(language_of_code(&Some("eng".to_string())), Language::English);
    assert_eq!(language_of_code(&Some("rus".to_string())), Language::Russian);
    assert_eq!(language_of_code(&Some("deu".to_string())), Language::German);
    assert_eq!(language_of_code(&Some("fra".to_string())), Language::French);
}

#[test]
fn dutch_and_norwegian_codes_are_mapped() {
    assert_eq!(language_of_code(&Some("nld".to_string())), Language::Dutch);
    assert_eq!(language_of_code(&Some("nob".to_string())), Language::Norwegian);
}

#[test]
fn unknown_code_maps_to_simple() {
    assert_eq!(language_of_code(&Some("epo".to_string())), Language::Simple);
    assert_eq!(language_of_code(&None), Language::Simple);
}

#[test]
fn language_names_match_search_configurations() {
    assert_eq!(Language::English.pg_name(), "english");
    assert_eq!(Language::Simple.pg_name(), "Simple");
    assert_eq!(Language::German.pg_name(), "german");
}

#[test]
fn checksum_of_known_input() {
    assert_eq!(
        checksum_of("Hello, world!"),
        "315f5bdb76d078c43b8ac0064e4a0164612b1fce77c869345bfc94c75894edd3"
    );
}

#[test]
fn checksum_of_empty_input() {
    assert_eq!(
        checksum_of(""),
        "e3b0c44298fc1c149afbf4c8996fb92427ae41e4649b934ca495991b7852b855"
    );
}

#[test]
fn checksum_is_stable_across_runs() {
    let a = checksum_of("# Some document\nbody");
    let b = checksum_of("# Some document\nbody");
    assert_eq!(a, b);
    assert_eq!(a.len(), 64);
}

#[test]
fn checksum_distinguishes_texts() {
    assert_ne!(checksum_of("one"), checksum_of("two"));
}
