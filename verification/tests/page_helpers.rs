use issue_tracker::ui::pages::listing::{in_ascending_order, keys_in_ascending_order};
use issue_tracker::ui::pages::page_helpers::get_column_string;
use std::collections::HashMap;

#[test]
fn test_get_column_string() {
    let text1 = "";
    let text2 = "test";
    let text3 = "testme";
    let text4 = "testmetest";

    let width = 0;

    assert_eq!(get_column_string(text4, width), "".to_owned());

    let width = 1;
    assert_eq!(get_column_string(text4, width), ".".to_owned());

    let width = 2;
    assert_eq!(get_column_string(text4, width), "..".to_owned());

    let width = 3;
    assert_eq!(get_column_string(text4, width), "...".to_owned());

    let width = 4;
    assert_eq!(get_column_string(text4, width), "t...".to_owned());

    let width = 6;
    assert_eq!(get_column_string(text1, width), "      ".to_owned());
    assert_eq!(get_column_string(text2, width), "test  ".to_owned());
    assert_eq!(get_column_string(text3, width), "testme".to_owned());
    assert_eq!(get_column_string(text4, width), "tes...".to_owned());
}

#[test]
fn column_of_printable_text_has_the_width_asked_for() {
    let texts = ["", "a", "epic", "a longer name of an epic", "~ !\"#$%&'()*+,-./ ~"];
    for text in texts {
        for width in 0..40usize {
            let column = get_column_string(text, width);
            assert_eq!(column.chars().count(), width);
            assert_eq!(column.len(), width);
        }
    }
}

#[test]
fn narrow_column_is_dots_whatever_the_text() {
    for text in ["abcd", "testmetest", "日本語のテキスト", "    "] {
        assert_eq!(get_column_string(text, 0), "");
        assert_eq!(get_column_string(text, 1), ".");
        assert_eq!(get_column_string(text, 2), "..");
        assert_eq!(get_column_string(text, 3), "...");
    }
    assert_eq!(get_column_string("", 0), "");
}

#[test]
fn text_that_fits_is_padded_not_dotted() {
    assert_eq!(get_column_string("a", 1), "a");
    assert_eq!(get_column_string("ab", 3), "ab ");
    assert_eq!(get_column_string("", 3), "   ");
    assert_eq!(get_column_string("abc", 3), "abc");
    assert_eq!(get_column_string("OPEN", 17), "OPEN             ");
}

#[test]
fn text_that_fits_is_measured_in_characters() {
    // Two characters in four bytes: four spaces fill a cell of six.
    assert_eq!(get_column_string("éé", 6), "éé    ");
    assert_eq!(get_column_string("éé", 4), "éé  ");
    assert_eq!(get_column_string("éé", 2), "éé");
    assert_eq!(get_column_string("é", 2), "é ");
    assert_eq!(get_column_string("é", 3), "é  ");
    assert_eq!(get_column_string("日本語", 3), "日本語");
    assert_eq!(get_column_string("日本語", 5), "日本語  ");
}

#[test]
fn long_text_is_cut_with_three_dots() {
    assert_eq!(get_column_string("Hello, World!", 6), "Hel...");
    assert_eq!(get_column_string("abcdefghij", 9), "abcdef...");
    assert_eq!(get_column_string("abcde", 4), "a...");
    // Eleven characters in thirteen bytes.
    assert_eq!(get_column_string("héllo wörld", 8), "héllo...");
    assert_eq!(get_column_string("日本語のテキスト", 7), "日本語の...");
}

#[test]
fn line_with_its_line_feed_is_cut_like_any_text() {
    assert_eq!(get_column_string("An epic\n", 5), "An...");
    assert_eq!(get_column_string("An epic\n", 8), "An epic\n");
    assert_eq!(get_column_string("An epic\n", 9), "An epic\n ");
    assert_eq!(get_column_string("a\tb\tc\td", 6), "a\tb...");
}

#[test]
fn cut_that_clusters_make_too_wide_is_made_between_characters() {
    // A carriage return and a line feed are one cluster of two characters.
    assert_eq!(get_column_string("a\r\nbcdefg", 6), "a\r\n...");
    assert_eq!(get_column_string("\r\n\r\n\r\nxx", 7), "\r\n\r\n...");
    // Four flags of two characters each.
    assert_eq!(get_column_string("🇩🇪🇬🇧🇮🇹🇫🇷", 5), "🇩🇪...");
    assert_eq!(get_column_string("🇩🇪🇬🇧🇮🇹🇫🇷", 7), "🇩🇪🇬🇧...");
    // A letter with a combining accent is one cluster of two characters.
    assert_eq!(get_column_string("e\u{301}e\u{301}e\u{301}e\u{301}", 5), "e\u{301}...");
}

#[test]
fn column_of_any_text_has_the_width_asked_for() {
    let texts = [
        "",
        "é",
        "éé",
        "héllo wörld",
        "日本語のテキスト",
        "🇩🇪🇬🇧🇮🇹🇫🇷",
        "An epic\n",
        "a\r\nb\r\nc\r\nd\r\n",
        "\r\n\r\n\r\nxx",
        "e\u{301}e\u{301}e\u{301}e\u{301}",
        "tab\tand\u{7f}delete",
        "👨\u{200d}👩\u{200d}👧\u{200d}👦 family",
    ];
    for text in texts {
        for width in 0..30usize {
            let column = get_column_string(text, width);
            assert_eq!(column.chars().count(), width, "{text:?} at {width}");
        }
    }
}

#[test]
fn ascending_order_sorts_and_keeps_repetitions() {
    assert_eq!(in_ascending_order(&vec![3, 1, 2]), vec![1, 2, 3]);
    assert_eq!(in_ascending_order(&vec![5, 5, 1, 4294967295, 0]), vec![0, 1, 5, 5, 4294967295]);
    assert_eq!(in_ascending_order(&vec![]), Vec::<u32>::new());
    assert_eq!(in_ascending_order(&vec![7]), vec![7]);
}

#[test]
fn keys_come_out_in_ascending_order() {
    let mut map: HashMap<u32, bool> = HashMap::new();
    for key in [40u32, 7, 19, 3, 1000, 2, 88, 54, 21, 13, 1, 600] {
        map.insert(key, true);
    }
    assert_eq!(
        keys_in_ascending_order(&map),
        vec![1, 2, 3, 7, 13, 19, 21, 40, 54, 88, 600, 1000]
    );
    let empty: HashMap<u32, bool> = HashMap::new();
    assert_eq!(keys_in_ascending_order(&empty), Vec::<u32>::new());
}
