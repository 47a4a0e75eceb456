use sneeze_bot::{is_incoherent, judge_normalized, strip_formatting, IgnorePatterns, WordBank};

const WORD_LIST: &str = "a\naardvark\ndictionary\nword\nwords\nzebra\n";

fn is_incoherent_text(content: &str) -> bool {
    let bank = WordBank::from_text(WORD_LIST);
    let patterns = IgnorePatterns::standard().expect("the fixed patterns compile");
    is_incoherent(&bank, &patterns, content)
}

#[test]
fn test_is_incoherent_space() {
    assert!(!is_incoherent_text("a a"));
}

#[test]
fn test_is_incoherent_length() {
    assert!(!is_incoherent_text("a"));
}

#[test]
fn test_is_incoherent_real_word() {
    assert!(!is_incoherent_text("DicTiONAry"));
    assert!(!is_incoherent_text("dictionary"));
}

#[test]
fn test_is_incoherent_patterns() {
    assert!(!is_incoherent_text("bahahaha"));
    assert!(!is_incoherent_text("lolololloo"));
    assert!(!is_incoherent_text("hueuhueuhuhe"));
    assert!(!is_incoherent_text("http://example.com"));
    assert!(!is_incoherent_text("https://google.com"));
    assert!(!is_incoherent_text("reeeeeeeeee"));
    assert!(!is_incoherent_text("<:Screampackman2:754148436906999888>"));
}

#[test]
fn test_strip_formatting() {
    assert_eq!("word", strip_formatting("word"));
    assert_eq!("word", strip_formatting("*word*"));
    assert_eq!("word", strip_formatting("**word**"));
    assert_eq!("word", strip_formatting("_word_"));
    assert_eq!("word", strip_formatting("~~word~~"));
    assert_eq!("word", strip_formatting("`word`"));
    assert_eq!("word", strip_formatting("***word***"));
}

#[test]
fn gibberish_is_incoherent() {
    assert!(is_incoherent_text("zxqvbplk"));
    assert!(is_incoherent_text("asdfghjkl"));
}

#[test]
fn gibberish_in_capitals_is_incoherent() {
    assert!(is_incoherent_text("ZXQVBPLK"));
}

#[test]
fn other_whitespace_is_coherent() {
    assert!(!is_incoherent_text("zxqv\tbplk"));
    assert!(!is_incoherent_text("zxqvbplk\n"));
    assert!(!is_incoherent_text("zxqv\u{3000}bplk"));
}

#[test]
fn length_counts_characters_not_bytes() {
    // seven characters, more than eight bytes
    assert!(!is_incoherent_text("\u{e9}\u{e9}\u{e9}\u{e9}\u{e9}\u{e9}\u{e9}"));
    assert!(is_incoherent_text("\u{e9}\u{e9}\u{e9}\u{e9}\u{e9}\u{e9}\u{e9}\u{e9}"));
}

#[test]
fn length_is_measured_after_stripping() {
    // eleven characters, of which four are markers
    assert!(!is_incoherent_text("**zxqvbpl**"));
    assert!(is_incoherent_text("**zxqvbplk**"));
}

#[test]
fn exactly_minimum_length_is_judged() {
    assert!(is_incoherent_text("zxqvbplk"));
    assert!(!is_incoherent_text("zxqvbpl"));
}

#[test]
fn dictionary_word_with_markers_is_coherent() {
    assert!(!is_incoherent_text("**Dictionary**"));
    assert!(!is_incoherent_text("aard_vark"));
}

#[test]
fn each_ignore_pattern_clears_text() {
    assert!(!is_incoherent_text("hehehehe"));
    assert!(!is_incoherent_text("lololololol"));
    assert!(!is_incoherent_text("https://x"));
    assert!(!is_incoherent_text("reeeeeoops"));
    assert!(!is_incoherent_text("<:pepe:12345678>"));
}

#[test]
fn near_misses_of_patterns_are_incoherent() {
    assert!(is_incoherent_text("hehehehex"));
    assert!(is_incoherent_text("ftp://example"));
    assert!(is_incoherent_text("reeeexyzw"));
    assert!(is_incoherent_text("<:pepe:12ab>"));
}

#[test]
fn judge_takes_text_as_given() {
    let bank = WordBank::from_text(WORD_LIST);
    let patterns = IgnorePatterns::standard().expect("the fixed patterns compile");
    assert!(judge_normalized(&bank, &patterns, "zxqvbplk"));
    assert!(!judge_normalized(&bank, &patterns, "dictionary"));
    // not lower-cased here, so no dictionary match
    assert!(judge_normalized(&bank, &patterns, "DICTIONARY"));
    // the length check sees the markers when nobody strips them
    assert!(judge_normalized(&bank, &patterns, "*zxqvbp*"));
}

#[test]
fn empty_text_is_coherent() {
    assert!(!is_incoherent_text(""));
}

#[test]
fn no_patterns_no_words() {
    let bank = WordBank::from_text("");
    let patterns = IgnorePatterns::from_sources(&vec![]).expect("no patterns to compile");
    assert!(is_incoherent(&bank, &patterns, "hahahahaha"));
    assert!(is_incoherent(&bank, &patterns, "dictionary"));
}
