use std::path::Path;

use kiosk::order::Order;
use kiosk::paths::compare_paths;
use kiosk::text::{
    blank, characters, equal_ignoring_case, lowered, number, padded, pieces, space, text_of,
    trimmed,
};

fn trim(s: &str) -> String {
    text_of(&trimmed(&characters(s)))
}

#[test]
fn white_space_is_what_std_takes_for_it() {
    for n in 0..=0x10ffff {
        if let Some(c) = char::from_u32(n) {
            assert_eq!(space(c), c.is_whitespace(), "U+{n:04X}");
        }
    }
}

#[test]
fn trimming_is_what_std_does() {
    for s in ["", " ", "a", " a", "a ", "\t a b \u{3000}", "\u{200b}a", "\n\r\u{85}"] {
        assert_eq!(trim(s), s.trim());
        assert_eq!(blank(s), s.trim().is_empty());
    }
}

#[test]
fn case_is_folded_in_ascii_only() {
    for (a, b) in [("DP-1", "dp-1"), ("ÄB", "Äb"), ("ä", "Ä"), ("a", "ab"), ("[", "{"), ("@", "`")] {
        assert_eq!(equal_ignoring_case(a, b), a.eq_ignore_ascii_case(b), "{a} {b}");
        assert_eq!(text_of(&lowered(&characters(a))), a.to_ascii_lowercase());
    }
}

#[test]
fn splitting_is_what_std_does() {
    for s in ["", "+", "a", "a+b", "+a", "a+", "a++b", "+++"] {
        let parts: Vec<String> = pieces(&characters(s), '+').iter().map(text_of).collect();
        let expected: Vec<String> = s.split('+').map(|part| part.to_string()).collect();
        assert_eq!(parts, expected, "{s:?}");
    }
}

#[test]
fn numbers_and_columns_are_what_std_prints() {
    for n in [0, 1, 9, 10, 99, 100, 1080, u64::MAX] {
        assert_eq!(number(n), format!("{n}"));
    }
    for s in ["", "DP-1", "exactly-12-c", "more than twelve", "ä"] {
        assert_eq!(padded(s, 12), format!("{s:<12}"));
    }
}

#[test]
fn paths_are_ordered_as_std_orders_them() {
    let paths = [
        "", ".", "./", "/", "//", "/.", "a", "a/", "a/.", "a/./b", "a//b", "a/b", "a.b", "a-b",
        "..", "../a", "./a", "/a", "/dev/dri/card0", "/dev/dri/card1", "/dev/dri/card10", "/dev",
        "/dev/../x", "ä", "z",
    ];
    for a in paths {
        for b in paths {
            let expected = match Path::new(a).cmp(Path::new(b)) {
                std::cmp::Ordering::Less => Order::Less,
                std::cmp::Ordering::Equal => Order::Equal,
                std::cmp::Ordering::Greater => Order::Greater,
            };
            let order = compare_paths(&a.as_bytes().to_vec(), &b.as_bytes().to_vec());
            assert_eq!(order, expected, "{a:?} {b:?}");
        }
    }
}
