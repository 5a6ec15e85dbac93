use duckdoor::order::{distinct, sort, text_precedes};
use duckdoor::quote::{quote_ident, quote_literal};
use duckdoor::text::{join, lines, same_text, split, text_is_blank, to_lower, trim};
use duckdoor::{numeral, sql};

fn strings(list: &[&str]) -> Vec<String> {
    list.iter().map(|s| s.to_string()).collect()
}

#[test]
fn trimming_drops_unicode_white_space() {
    assert_eq!(trim(" \t\u{a0}a b\u{3000}\r\n"), "a b");
    assert_eq!(trim(""), "");
    assert_eq!(trim("\u{200b}x"), "\u{200b}x");
    for text in ["", " x ", "\u{85}y\u{2029}", "a\u{1680}", "  "] {
        assert_eq!(trim(text), text.trim());
        assert_eq!(text_is_blank(text), text.trim().is_empty());
    }
}

#[test]
fn lines_end_with_line_feeds_and_returns() {
    for text in ["", "a", "a\n", "a\r\nb", "a\r", "\n\n", "x\r\n\r\ny\n"] {
        assert_eq!(lines(text), text.lines().map(str::to_owned).collect::<Vec<_>>());
    }
}

#[test]
fn splitting_and_joining_are_those_of_str() {
    for text in ["", ".", "a.b", "a..b.", "no"] {
        assert_eq!(split(text, '.'), text.split('.').map(str::to_owned).collect::<Vec<_>>());
        assert_eq!(join(&split(text, '.'), "."), text);
    }
}

#[test]
fn lower_case_is_that_of_ascii() {
    assert_eq!(to_lower("ÄSQLite_QUERY"), "Äsqlite_query");
    assert!(same_text("ü", "ü"));
    assert!(!same_text("a", "ab"));
}

#[test]
fn numerals_are_read_back() {
    assert_eq!(numeral::numeral_of(0), "0");
    assert_eq!(numeral::numeral_of(u128::MAX), u128::MAX.to_string());
    assert_eq!(numeral::signed_numeral_of(i128::MIN), i128::MIN.to_string());
    assert_eq!(numeral::parse_u32("4294967295"), Ok(u32::MAX));
    assert_eq!(numeral::parse_u32("4294967296"), Err(numeral::NumeralError::TooLarge));
    for text in [
        "", "+", "-", "+7", "-1", "07", " 7", "7x", "++1", "4294967296", "4294967296x",
        "429496729x6", "99999999999999999999", "00000000000000000007", "\u{661}",
    ] {
        assert_eq!(
            numeral::parse_u32(text).map_err(|error| error.message()),
            text.parse::<u32>().map_err(|error| error.to_string()),
            "{text}"
        );
    }
}

#[test]
fn quoting_doubles_the_quotes() {
    assert_eq!(quote_ident("a\"b"), "\"a\"\"b\"");
    assert_eq!(quote_literal("it's"), "'it''s'");
    assert_eq!(quote_ident(""), "\"\"");
}

#[test]
fn sorting_is_that_of_str() {
    let mut expected = strings(&["b", "a", "", "ab", "B", "ü", "z", "a"]);
    let sorted = sort(expected.clone());
    expected.sort();
    assert_eq!(sorted, expected);
    for (a, b) in [("", "a"), ("a", "a"), ("ab", "b"), ("é", "z"), ("z", "é")] {
        assert_eq!(text_precedes(a, b), a < b);
    }
}

#[test]
fn distinct_texts_do_not_depend_on_the_order_in_which_they_were_found() {
    let once = distinct(strings(&["/b", "/a", "/b", "/c", "/a"]));
    assert_eq!(once, strings(&["/a", "/b", "/c"]));
    assert_eq!(distinct(strings(&["/c", "/b", "/a", "/a"])), once);
    assert!(distinct(Vec::new()).is_empty());
}

#[test]
fn the_script_of_a_new_home_runs_nothing() {
    assert!(sql::only_comments(sql::init_template()));
    assert!(sql::only_comments("  -- a\n\n\t--b\r\n"));
    assert!(sql::only_comments(""));
    assert!(!sql::only_comments("-- a\nSELECT 1"));
}
