use query_gateway::limit::{has_limit, limited_copy, normalize, with_default_limit, MAX_ROWS};
use query_gateway::text::{chars_of, contains_word, is_white_space, trim};

#[test]
fn cap_is_two_thousand() {
    assert_eq!(MAX_ROWS, 2000);
}

#[test]
fn white_space_is_what_the_standard_library_calls_so() {
    for code in 0..=0x10ffffu32 {
        if let Some(c) = char::from_u32(code) {
            assert_eq!(is_white_space(c), c.is_whitespace(), "U+{:04X}", code);
        }
    }
}

#[test]
fn white_space_holds_the_usual_blanks() {
    for c in [' ', '\t', '\n', '\r', '\u{b}', '\u{c}', '\u{a0}', '\u{2003}', '\u{3000}'] {
        assert!(is_white_space(c));
    }
    for c in ['a', '0', '_', '\u{0}', '\u{8}', '\u{e}', '\u{200b}', '\u{180e}', '\u{feff}'] {
        assert!(!is_white_space(c));
    }
}

#[test]
fn trim_removes_white_space_around() {
    assert_eq!(trim("  select 1 \n"), "select 1");
    assert_eq!(trim("\t\r\n x\ty \u{a0}\u{3000}"), "x\ty");
    assert_eq!(trim("x"), "x");
}

#[test]
fn trim_keeps_white_space_inside() {
    assert_eq!(trim(" a  b\tc "), "a  b\tc");
}

#[test]
fn trim_of_white_space_alone_is_empty() {
    assert_eq!(trim(""), "");
    assert_eq!(trim(" \t\n"), "");
}

#[test]
fn trim_agrees_with_the_standard_trim() {
    for text in ["", " ", "a", " a", "a ", "  a b  ", "\u{2003}é\u{2028}", "\n\nselect\n\n"] {
        assert_eq!(trim(text), text.trim());
    }
}

#[test]
fn chars_of_gives_each_character() {
    assert_eq!(chars_of("aé🙂"), vec!['a', 'é', '🙂']);
    assert!(chars_of("").is_empty());
}

#[test]
fn contains_word_finds_runs_of_characters() {
    assert!(contains_word("select * from t limit 5", "limit"));
    assert!(contains_word("limit", "limit"));
    assert!(contains_word("xlimitx", "limit"));
    assert!(contains_word("lilimit", "limit"));
    assert!(contains_word("anything", ""));
    assert!(contains_word("", ""));
    assert!(!contains_word("limi", "limit"));
    assert!(!contains_word("l i m i t", "limit"));
    assert!(!contains_word("", "limit"));
    assert!(!contains_word("LIMIT", "limit"));
}

#[test]
fn contains_word_agrees_with_the_standard_search() {
    for text in ["", "a", "ab", "aab", "abab", "ñandú", "limilimit", "timil"] {
        for word in ["", "a", "ab", "b", "limit", "ú", "aba"] {
            assert_eq!(contains_word(text, word), text.contains(word));
        }
    }
}

#[test]
fn normalize_trims_and_lowers() {
    assert_eq!(normalize("  SELECT Name FROM Users  "), "select name from users");
    assert_eq!(normalize("\nSHOW TABLES\n"), "show tables");
    assert_eq!(normalize("ÀÉÎ"), "àéî");
    assert_eq!(normalize(""), "");
}

#[test]
fn has_limit_looks_for_the_lower_case_word() {
    assert!(has_limit("select 1 limit 1"));
    assert!(has_limit("select unlimited from t"));
    assert!(!has_limit("select 1 LIMIT 1"));
    assert!(!has_limit("select 1"));
}

#[test]
fn default_limit_is_appended_when_none_is_there() {
    assert_eq!(with_default_limit("select 1".to_string()), "select 1 LIMIT 2000");
    assert_eq!(with_default_limit(String::new()), " LIMIT 2000");
}

#[test]
fn statement_with_limit_is_left_alone() {
    assert_eq!(with_default_limit("select 1 limit 5".to_string()), "select 1 limit 5");
    assert_eq!(with_default_limit("select limits from t".to_string()), "select limits from t");
}

#[test]
fn limited_copy_is_normalized_then_limited() {
    assert_eq!(limited_copy("  SELECT * FROM T  "), "select * from t LIMIT 2000");
    assert_eq!(limited_copy("SELECT * FROM t LIMIT 10"), "select * from t limit 10");
    assert_eq!(limited_copy("Select * From t LiMiT 10 "), "select * from t limit 10");
    assert_eq!(limited_copy(""), " LIMIT 2000");
}

#[test]
fn appended_clause_is_not_itself_a_limit() {
    let once = limited_copy("select 1");
    assert_eq!(with_default_limit(once), "select 1 LIMIT 2000 LIMIT 2000");
}
