use idcheck::normalize::{matches_at, normalize, remove_all};
use idcheck::text::{
    decimal_string, from_chars, is_affirmative, join_lines, split_fields, to_chars,
};

fn chars(text: &str) -> Vec<char> {
    text.chars().collect()
}

fn removed(text: &str, pattern: &str) -> String {
    remove_all(&chars(text), &chars(pattern)).into_iter().collect()
}

#[test]
fn chars_and_back() {
    assert_eq!(to_chars("youtu.be"), vec!['y', 'o', 'u', 't', 'u', '.', 'b', 'e']);
    assert_eq!(to_chars(""), Vec::<char>::new());
    assert_eq!(from_chars(&['a', 'é', 'z']), "aéz");
    assert_eq!(from_chars(&[]), "");
    assert_eq!(from_chars(&to_chars("dQw4w9WgXcQ")), "dQw4w9WgXcQ");
}

#[test]
fn pattern_matching_at_a_position() {
    let text: Vec<char> = chars("abcabc");
    assert!(matches_at(&text, &chars("abc"), 0));
    assert!(matches_at(&text, &chars("abc"), 3));
    assert!(!matches_at(&text, &chars("abc"), 1));
    assert!(!matches_at(&text, &chars("abc"), 4));
    assert!(!matches_at(&text, &chars("abc"), 6));
    assert!(matches_at(&text, &chars(""), 6));
    assert!(matches_at(&text, &chars("c"), 5));
    assert!(!matches_at(&text, &chars("abcabca"), 0));
}

#[test]
fn remove_all_takes_every_occurrence() {
    assert_eq!(removed("a/b/c", "/"), "abc");
    assert_eq!(removed("///", "/"), "");
    assert_eq!(removed("abcabc", "abc"), "");
    assert_eq!(removed("xabcyabcz", "abc"), "xyz");
    assert_eq!(removed("abc", "abcd"), "abc");
    assert_eq!(removed("", "abc"), "");
}

#[test]
fn remove_all_goes_from_left_to_right() {
    assert_eq!(removed("aaa", "aa"), "a");
    assert_eq!(removed("aaaa", "aa"), "");
    assert_eq!(removed("ababa", "aba"), "ba");
    assert_eq!(removed("aabb", "ab"), "ab");
}

#[test]
fn remove_all_with_the_empty_pattern() {
    assert_eq!(removed("abc", ""), "abc");
    assert_eq!(removed("", ""), "");
}

#[test]
fn normalize_strips_the_prefixes() {
    assert_eq!(normalize("https://youtu.be/dQw4w9WgXcQ"), "dQw4w9WgXcQ");
    assert_eq!(normalize("youtu.be/dQw4w9WgXcQ"), "dQw4w9WgXcQ");
    assert_eq!(normalize("https://youtube.com/watchv?=dQw4w9WgXcQ"), "dQw4w9WgXcQ");
    assert_eq!(normalize("youtube.com/watchv?=dQw4w9WgXcQ"), "dQw4w9WgXcQ");
    assert_eq!(normalize("dQw4w9WgXcQ"), "dQw4w9WgXcQ");
}

#[test]
fn normalize_takes_out_the_slashes_that_are_left() {
    assert_eq!(normalize("/dQw4w9WgXcQ/"), "dQw4w9WgXcQ");
    assert_eq!(normalize("dQw4/w9Wg/XcQ"), "dQw4w9WgXcQ");
    assert_eq!(normalize("https:/youtu.be"), "https:youtu.be");
}

#[test]
fn normalize_works_in_the_order_of_the_prefixes() {
    assert_eq!(normalize("youtu.https://be/abc"), "abc");
    assert_eq!(normalize("youtu.be/youtu.be/abc"), "abc");
    assert_eq!(normalize("youtu./be/abc"), "youtu.beabc");
}

#[test]
fn normalize_keeps_other_text() {
    assert_eq!(normalize(""), "");
    assert_eq!(normalize(" dQw4w9WgXcQ\n"), " dQw4w9WgXcQ\n");
    assert_eq!(normalize("http://youtu.be/abc"), "http:abc");
    assert_eq!(normalize("www.youtube.com/watch?v=abc"), "www.youtube.comwatch?v=abc");
}

#[test]
fn decimal_strings() {
    assert_eq!(decimal_string(0), "0");
    assert_eq!(decimal_string(7), "7");
    assert_eq!(decimal_string(10), "10");
    assert_eq!(decimal_string(152), "152");
    assert_eq!(decimal_string(200), "200");
    assert_eq!(decimal_string(1234567890), "1234567890");
    assert_eq!(decimal_string(u64::MAX), "18446744073709551615");
}

#[test]
fn split_fields_at_commas() {
    assert_eq!(split_fields("a,b,c", ','), vec!["a", "b", "c"]);
    assert_eq!(split_fields("abc", ','), vec!["abc"]);
    assert_eq!(split_fields("", ','), vec![""]);
    assert_eq!(split_fields(",", ','), vec!["", ""]);
    assert_eq!(split_fields("a,,b,", ','), vec!["a", "", "b", ""]);
    assert_eq!(split_fields(",a", ','), vec!["", "a"]);
    assert_eq!(split_fields("a;b,c", ';'), vec!["a", "b,c"]);
}

#[test]
fn split_fields_agrees_with_std() {
    let texts: [&str; 5] = ["", "one", "one,two", ",,", "https://youtu.be/a, youtu.be/b,\n"];
    for text in texts {
        let expected: Vec<String> = text.split(',').map(|s| s.to_string()).collect();
        assert_eq!(split_fields(text, ','), expected);
    }
}

#[test]
fn join_lines_puts_a_line_feed_between() {
    assert_eq!(join_lines(&vec![]), "");
    assert_eq!(join_lines(&vec!["one".to_string()]), "one");
    assert_eq!(join_lines(&vec!["one".to_string(), "two".to_string()]), "one\ntwo");
    assert_eq!(
        join_lines(&vec!["a".to_string(), "".to_string(), "b".to_string()]),
        "a\n\nb"
    );
    assert_eq!(join_lines(&vec!["".to_string(), "".to_string()]), "\n");
}

#[test]
fn affirmative_answers() {
    assert!(is_affirmative("y"));
    assert!(is_affirmative("Y"));
    assert!(is_affirmative("yes\n"));
    assert!(is_affirmative("Yn"));
    assert!(!is_affirmative(""));
    assert!(!is_affirmative("n"));
    assert!(!is_affirmative("\n"));
    assert!(!is_affirmative(" y"));
    assert!(!is_affirmative("ny"));
}

#[test]
fn normalize_agrees_with_the_replacements_of_std() {
    let raws: [&str; 10] = [
        "https://youtu.be/dQw4w9WgXcQ",
        "https://https://youtu.be/youtu.be/x",
        "youtube.com/watchv?=youtube.com/watchv?=abc",
        "hthttps://tps://abc",
        "youtu.byoutu.be/e/abc",
        "yyoutu.be/outu.be/abc",
        "//a//b//",
        "https:/youtu.be/https://",
        "youtube.com/watch?v=dQw4w9WgXcQ",
        "é/ü/youtu.be/ß",
    ];
    for raw in raws {
        let expected: String = raw
            .replace("https://", "")
            .replace("youtube.com/watchv?=", "")
            .replace("youtu.be/", "")
            .replace('/', "");
        assert_eq!(normalize(raw), expected);
    }
}

#[test]
fn remove_all_agrees_with_std() {
    let cases: [(&str, &str); 8] = [
        ("aaaaa", "aa"),
        ("abababab", "aba"),
        ("abcabcabc", "bca"),
        ("xxyxxyxx", "xy"),
        ("mississippi", "ss"),
        ("mississippi", "issi"),
        ("", "a"),
        ("a", "a"),
    ];
    for (text, pattern) in cases {
        assert_eq!(removed(text, pattern), text.replace(pattern, ""));
    }
}
