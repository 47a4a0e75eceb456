use sneeze_bot::{
    is_monitored, parse_id, parse_user_ids, should_react, IgnorePattern, IgnorePatterns,
    PatternError, WordBank, EMOJI_TAG, HUE_LAUGH,
};

#[test]
fn word_bank_splits_on_whitespace() {
    let bank = WordBank::from_text("  alpha\tbeta\r\n\ngamma  ");
    assert!(bank.contains("alpha"));
    assert!(bank.contains("beta"));
    assert!(bank.contains("gamma"));
    assert!(!bank.contains(""));
    assert!(!bank.contains("alpha beta"));
    assert!(!bank.contains("Alpha"));
    assert!(!bank.contains("alph"));
}

#[test]
fn empty_word_bank() {
    let bank = WordBank::from_text(" \n\t ");
    assert!(!bank.contains(""));
    assert!(!bank.contains("word"));
}

#[test]
fn parse_id_reads_unsigned_decimals() {
    assert_eq!(parse_id("0"), Some(0));
    assert_eq!(parse_id("754148436906999888"), Some(754148436906999888));
    assert_eq!(parse_id("+42"), Some(42));
    assert_eq!(parse_id("18446744073709551615"), Some(u64::MAX));
    assert_eq!(parse_id("18446744073709551616"), None);
    assert_eq!(parse_id(""), None);
    assert_eq!(parse_id("+"), None);
    assert_eq!(parse_id("-1"), None);
    assert_eq!(parse_id(" 1"), None);
    assert_eq!(parse_id("12a"), None);
    assert_eq!(parse_id("++1"), None);
}

#[test]
fn parse_id_agrees_with_std() {
    for s in ["7", "+7", "", "+", "x", "99999999999999999999", "0042", "1 ", "+-1"] {
        assert_eq!(parse_id(s), s.parse::<u64>().ok(), "{:?}", s);
    }
}

#[test]
fn parse_user_ids_skips_bad_fields() {
    assert_eq!(parse_user_ids("1,2,3"), vec![1, 2, 3]);
    assert_eq!(parse_user_ids("10,abc,,20, 30,+40"), vec![10, 20, 40]);
    assert_eq!(parse_user_ids(""), Vec::<u64>::new());
    assert_eq!(parse_user_ids(","), Vec::<u64>::new());
    assert_eq!(parse_user_ids("5,5"), vec![5, 5]);
}

#[test]
fn monitored_membership() {
    let ids = vec![3, 9];
    assert!(is_monitored(&ids, 9));
    assert!(!is_monitored(&ids, 4));
    assert!(!is_monitored(&vec![], 4));
}

#[test]
fn unmonitored_author_never_gets_reaction() {
    let bank = WordBank::from_text("dictionary");
    let patterns = IgnorePatterns::standard().expect("the fixed patterns compile");
    let ids = vec![1, 2];
    assert!(!should_react(&ids, &bank, &patterns, 3, "zxqvbplk"));
    assert!(!should_react(&ids, &bank, &patterns, 3, "dictionary"));
    assert!(should_react(&ids, &bank, &patterns, 2, "zxqvbplk"));
    assert!(!should_react(&ids, &bank, &patterns, 2, "dictionary"));
    assert!(!should_react(&vec![], &bank, &patterns, 2, "zxqvbplk"));
}

#[test]
fn single_patterns_match() {
    let hue = IgnorePattern::new(HUE_LAUGH).expect("compiles");
    assert!(hue.is_match("huehue"));
    assert!(!hue.is_match("hueh"));
    assert!(!hue.is_match("huehuex"));
    let emoji = IgnorePattern::new(EMOJI_TAG).expect("compiles");
    assert!(emoji.is_match("<:smile:123>"));
    assert!(!emoji.is_match("<:smile:>"));
}

#[test]
fn invalid_pattern_is_refused() {
    assert!(matches!(IgnorePattern::new("(unclosed"), Err(PatternError::Invalid)));
    let sources: Vec<&str> = vec![HUE_LAUGH, "[z-a]"];
    assert!(matches!(IgnorePatterns::from_sources(&sources), Err(PatternError::Invalid)));
}

#[test]
fn custom_pattern_list() {
    let sources: Vec<&str> = vec!["^x+$"];
    let patterns = IgnorePatterns::from_sources(&sources).expect("compiles");
    assert!(patterns.any_match("xxxxxxxxx"));
    assert!(!patterns.any_match("xxxxyxxxx"));
    let bank = WordBank::from_text("");
    assert!(!sneeze_bot::is_incoherent(&bank, &patterns, "XXXXXXXXX"));
    assert!(sneeze_bot::is_incoherent(&bank, &patterns, "hahahahaha"));
}

#[test]
fn standard_patterns_compile() {
    let patterns = IgnorePatterns::standard();
    assert!(patterns.is_ok());
    assert!(patterns.unwrap().any_match("hahahahah"));
}
