use query_gateway::fields::split_fields;

fn cut(line: &str) -> Vec<String> {
    split_fields(line, '\t')
}

#[test]
fn cuts_at_every_tab() {
    assert_eq!(cut("id\tname\tage"), vec!["id", "name", "age"]);
}

#[test]
fn text_without_separator_is_one_field() {
    assert_eq!(cut("hello world"), vec!["hello world"]);
}

#[test]
fn empty_text_is_one_empty_field() {
    assert_eq!(cut(""), vec![""]);
}

#[test]
fn lone_separator_gives_two_empty_fields() {
    assert_eq!(cut("\t"), vec!["", ""]);
}

#[test]
fn leading_and_trailing_separators_give_empty_fields() {
    assert_eq!(cut("\ta\t"), vec!["", "a", ""]);
}

#[test]
fn neighbouring_separators_give_an_empty_field_between() {
    assert_eq!(cut("a\t\tb"), vec!["a", "", "b"]);
}

#[test]
fn other_white_space_does_not_separate() {
    assert_eq!(cut("a b\tc\rd"), vec!["a b", "c\rd"]);
}

#[test]
fn cells_keep_text_outside_ascii() {
    assert_eq!(cut("naïve\t日本語\t🙂"), vec!["naïve", "日本語", "🙂"]);
}

#[test]
fn any_character_can_separate() {
    assert_eq!(split_fields("a,b,,c", ','), vec!["a", "b", "", "c"]);
    assert_eq!(split_fields("a→b", '→'), vec!["a", "b"]);
}

#[test]
fn fields_joined_again_give_the_text() {
    for text in ["", "\t", "a\tb", "\t\ta\t", "x", "1\t2\t3\t", "é\tü"] {
        assert_eq!(cut(text).join("\t"), text);
    }
}

#[test]
fn no_field_holds_the_separator() {
    for text in ["", "\t", "a\tb", "\t\ta\t", "x y\tz"] {
        let fields = cut(text);
        assert!(!fields.is_empty());
        assert!(fields.iter().all(|field| !field.contains('\t')));
        assert_eq!(fields.len(), text.matches('\t').count() + 1);
    }
}

#[test]
fn agrees_with_the_standard_split() {
    for text in ["", "\t", "a\tb", "\t\ta\t", "x", "1\t2\t3\t", "é\tü", "a\nb\tc"] {
        let expected: Vec<String> = text.split('\t').map(String::from).collect();
        assert_eq!(cut(text), expected);
    }
}
