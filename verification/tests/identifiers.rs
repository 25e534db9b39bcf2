use rust_iiif::digits::{decimal_text, parse_i32, parse_u32, parse_u64};
use rust_iiif::iiif::identifier::{base_identifier, has_selector, page_index};
use rust_iiif::text::{chars_of, find_first, split_on, text_of};

fn chars(s: &str) -> Vec<char> {
    s.chars().collect()
}

#[test]
fn base_of_an_identifier() {
    assert_eq!(base_identifier("photo.jpg"), "photo.jpg");
    assert_eq!(base_identifier("doc.pdf:page:2"), "doc.pdf");
    assert_eq!(base_identifier("a/b/doc.pdf:page:12"), "a/b/doc.pdf");
    assert_eq!(base_identifier("doc.pdf:page:1:page:2"), "doc.pdf");
    assert_eq!(base_identifier(":page:3"), "");
    assert_eq!(base_identifier("doc.pdf:page"), "doc.pdf:page");
    assert_eq!(base_identifier("doc.pdf:Page:2"), "doc.pdf:Page:2");
    assert_eq!(base_identifier("caf\u{e9}.pdf:page:2"), "caf\u{e9}.pdf");
    assert_eq!(base_identifier(""), "");
}

#[test]
fn page_of_an_identifier() {
    assert_eq!(page_index("doc.pdf:page:2"), 2);
    assert_eq!(page_index("doc.pdf:page:1"), 1);
    assert_eq!(page_index("doc.pdf:page:0012"), 12);
    assert_eq!(page_index("doc.pdf:page:+4"), 4);
    assert_eq!(page_index("doc.pdf:page:-4"), -4);
    assert_eq!(page_index("doc.pdf"), 0);
    assert_eq!(page_index("doc.pdf:page:"), 0);
    assert_eq!(page_index("doc.pdf:page:two"), 0);
    assert_eq!(page_index("doc.pdf:page:2.5"), 0);
    assert_eq!(page_index("doc.pdf:page:2147483647"), 2147483647);
    assert_eq!(page_index("doc.pdf:page:2147483648"), 0);
    assert_eq!(page_index("doc.pdf:page:-2147483648"), -2147483648);
    assert_eq!(page_index("doc.pdf:page:1:page:2"), 0);
}

#[test]
fn integers_are_read_as_rust_reads_them() {
    for s in ["0", "7", "+7", "007", "4294967295", "4294967296", "-1", "", "+", "-", "1 ", "1.0", "٣"] {
        assert_eq!(parse_u32(&chars(s)), s.parse::<u32>().ok(), "{:?}", s);
        assert_eq!(parse_u64(&chars(s)), s.parse::<u64>().ok(), "{:?}", s);
        assert_eq!(parse_i32(&chars(s)), s.parse::<i32>().ok(), "{:?}", s);
    }
    for s in ["18446744073709551615", "18446744073709551616", "000000000000000000000000000001"] {
        assert_eq!(parse_u64(&chars(s)), s.parse::<u64>().ok(), "{:?}", s);
    }
    for s in ["2147483647", "2147483648", "-2147483648", "-2147483649", "+-1", "-+1", "--1", "-0"] {
        assert_eq!(parse_i32(&chars(s)), s.parse::<i32>().ok(), "{:?}", s);
    }
}

#[test]
fn integers_are_written_in_decimal() {
    for v in [0, 1, 9, 10, 11, 99, 100, 12345, -1, -10, i32::MAX, i32::MIN] {
        let text: String = decimal_text(v).into_iter().collect();
        assert_eq!(text, v.to_string());
        assert_eq!(parse_i32(&chars(&text)), Some(v));
    }
}

#[test]
fn splitting_keeps_empty_fields() {
    let fields = |s: &str, sep: char| -> Vec<String> {
        split_on(&chars(s), sep).iter().map(|f| f.iter().collect()).collect()
    };
    for (s, sep) in [("a,b,c", ','), ("", ','), (",", ','), ("a,,b", ','), (",a,", ','), ("abc", ','), ("a/b/c/", '/')] {
        let expected: Vec<String> = s.split(sep).map(|f| f.to_string()).collect();
        assert_eq!(fields(s, sep), expected, "{:?}", s);
    }
}

#[test]
fn the_first_match_is_found() {
    for (s, p) in [("doc:page:1", ":page:"), ("abcabc", "bc"), ("abc", ""), ("", ""), ("", "a"), ("aaa", "aaaa"), ("xay", "a"), ("xy", "a")] {
        assert_eq!(find_first(&chars(s), &chars(p)), s.find(p).map(|b| s[..b].chars().count()), "{:?} {:?}", s, p);
    }
}

#[test]
fn characters_go_to_text_and_back() {
    for s in ["", "abc", "caf\u{e9}", "日本語/図.png"] {
        assert_eq!(chars_of(s), chars(s));
        assert_eq!(text_of(&chars(s)), s);
    }
}

#[test]
fn an_identifier_with_and_without_a_selector() {
    assert!(has_selector("doc.pdf:page:2"));
    assert!(has_selector("doc.pdf:page:"));
    assert!(has_selector("doc.pdf:page:x"));
    assert!(has_selector(":page:"));
    assert!(!has_selector("doc.pdf"));
    assert!(!has_selector("doc.pdf:page"));
    assert!(!has_selector("doc.pdf:Page:2"));
    assert!(!has_selector(""));
}
