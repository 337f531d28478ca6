use noperson::number::{Double, NumberText, Single};
use noperson::ordered::TextMap;
use noperson::paths::{
    extension, file_name, file_stem, is_inside, is_path_before, join, parent, same_path,
    sorted_paths,
};
use noperson::search::{begins_with_part, contains_part, is_found, query_of, split_once, strip};
use noperson::text::{
    decimal, is_before, is_blank, join2, join3, parse_number, same_text, to_lowered,
};
use std::path::{Component, Path};

const PATHS: &[&str] = &[
    "", ".", "..", "/", "//", "a", "a/", "a/b", "a//b", "a/./b", "./a", "a/..", "/a", "/a/b.c",
    "a.b", ".a", "a.", "a.b.c", "..a", "a/b.tar.gz", "a/b/", "a/b/.", "/..", "dir/file name.png",
    "\u{e4}.\u{f6}", "a/.b", "...", "a/...", "/.", "./", "../x", "a/../b",
];

#[test]
fn paths_are_taken_apart_as_the_system_does() {
    for path in PATHS {
        let known = Path::new(path);
        assert_eq!(
            file_name(path).as_deref(),
            known.file_name().and_then(|name| name.to_str()),
            "name of {path:?}"
        );
        assert_eq!(
            extension(path).as_deref(),
            known.extension().and_then(|name| name.to_str()),
            "extension of {path:?}"
        );
        assert_eq!(
            file_stem(path).as_deref(),
            known.file_stem().and_then(|name| name.to_str()),
            "stem of {path:?}"
        );
        assert_eq!(
            parent(path).as_deref(),
            known.parent().and_then(|name| name.to_str()),
            "parent of {path:?}"
        );
        let normal = known.components().all(|part| matches!(part, Component::Normal(_)));
        assert_eq!(is_inside(path), normal, "inside {path:?}");
    }
}

#[test]
fn paths_are_compared_as_the_system_does() {
    for a in PATHS {
        for b in PATHS {
            assert_eq!(same_path(a, b), Path::new(a) == Path::new(b), "{a:?} and {b:?}");
            assert_eq!(is_path_before(a, b), Path::new(a) < Path::new(b), "{a:?} before {b:?}");
            assert_eq!(
                join(a, b),
                Path::new(a).join(b).to_str().expect("text").to_owned(),
                "{a:?} joined with {b:?}"
            );
        }
    }
}

#[test]
fn paths_are_sorted_and_each_is_kept_once() {
    let given: Vec<String> =
        ["b", "a/c", "a", "b", "a/b"].iter().map(|path| path.to_string()).collect();
    assert_eq!(
        sorted_paths(given),
        vec!["a".to_owned(), "a/b".to_owned(), "a/c".to_owned(), "b".to_owned()]
    );
}

#[test]
fn text_is_joined_compared_and_read() {
    assert_eq!(join2("ab", "c"), "abc");
    assert_eq!(join3("a", "", "c"), "ac");
    assert!(same_text("x\u{e9}", "x\u{e9}"));
    assert!(!same_text("x", "xy"));
    for (a, b) in [("a", "b"), ("a", "ab"), ("", "a"), ("Z", "a"), ("\u{e9}", "\u{1f600}")] {
        assert_eq!(is_before(a, b), a < b);
        assert_eq!(is_before(b, a), b < a);
    }
    for n in [0, 7, 10, 99, 1234567890, u64::MAX] {
        assert_eq!(decimal(n), n.to_string());
        assert_eq!(parse_number(&n.to_string()), Some(n));
    }
    for text in ["", "+", "+7", "-1", "007", "18446744073709551616", "1a", " 1"] {
        assert_eq!(parse_number(text), text.parse::<u64>().ok(), "{text:?}");
    }
    assert!(is_blank(" \t\u{2003}"));
    assert!(!is_blank(" x "));
    assert_eq!(to_lowered("AbC\u{c4}"), "AbC\u{c4}".to_ascii_lowercase());
}

#[test]
fn parts_of_text_are_found_whatever_their_case() {
    assert!(contains_part("hello", "ell"));
    assert!(contains_part("hello", ""));
    assert!(!contains_part("hello", "elo"));
    assert_eq!(strip("  a b\t"), "a b");
    assert_eq!(query_of("  STRASSE \u{c4} "), "strasse \u{e4}");
    assert!(is_found("My \u{c4}rger", &query_of(" \u{e4}RG")));
    assert!(!is_found("My photo", &query_of("video")));
    assert_eq!(split_once("a=b=c", "="), Some(("a".to_owned(), "b=c".to_owned())));
    assert_eq!(split_once("abc", "="), None);
    assert!(begins_with_part("12.8.93", "12.8"));
    assert!(!begins_with_part("12", "12.8"));
}

#[test]
fn a_map_keeps_its_keys_in_order() {
    let mut map: TextMap<u32> = TextMap::new();
    assert!(map.is_empty());
    for (value, key) in ["m", "b", "z", "a", "b"].iter().enumerate() {
        let _ = map.insert(key.to_string(), value as u32);
    }
    assert_eq!(map.len(), 4);
    assert_eq!(
        map.keys(),
        vec!["a".to_owned(), "b".to_owned(), "m".to_owned(), "z".to_owned()]
    );
    assert_eq!(map.get("b"), Some(&4));
    assert_eq!(map.first_key().map(|key| key.as_str()), Some("a"));
    assert_eq!(map.remove("b"), Some(4));
    assert_eq!(map.remove("b"), None);
    assert_eq!(map.values(), vec![&3, &0, &2]);
    map.change_values(|value: u32| value.wrapping_mul(2));
    assert_eq!(map.value_at(0), &6);
    assert_eq!(map.key_at(2), "z");
    let copy = map.copied(|value: &u32| *value);
    assert_eq!(copy.len(), 3);
}

fn single(value: f32) -> Single {
    Single { bits: value.to_bits() }
}

fn double(value: f64) -> Double {
    Double {
        bits: value.to_bits(),
        single: single(value as f32),
        percent: single((value / 100.0) as f32),
        whole: value as i128,
        text: NumberText::new(&format!("{value:?}")).unwrap_or(NumberText { code: 0 }),
    }
}

fn comes_before(a: f32, b: f32) -> bool {
    a.total_cmp(&b).is_lt()
}

#[test]
fn numbers_compare_as_floating_point_numbers_do() {
    let values = [
        0.0f32,
        -0.0,
        1.0,
        -1.0,
        0.5,
        f32::MIN_POSITIVE,
        f32::MAX,
        f32::MIN,
        f32::INFINITY,
        f32::NEG_INFINITY,
        f32::NAN,
        1e-40,
        -1e-40,
    ];
    for a in values {
        assert_eq!(single(a).is_finite(), a.is_finite());
        assert_eq!(single(a).is_nan(), a.is_nan());
        for b in values {
            assert_eq!(single(a).is_at_most(single(b)), a <= b, "{a} and {b}");
            assert_eq!(single(a).same_number(single(b)), a == b, "{a} and {b}");
            assert_eq!(single(a).precedes(single(b)), comes_before(a, b), "{a} and {b}");
            let (x, y) = (a as f64, b as f64);
            assert_eq!(double(x).is_at_most(double(y)), x <= y);
            assert_eq!(double(x).same_number(double(y)), x == y);
        }
    }
}

#[test]
fn numbers_become_integers_by_cutting() {
    for value in [0.0, 1.9, -1.9, 255.0, 256.0, 70000.0, -5.0, 1e20, -1e20] {
        let number = double(value);
        assert_eq!(number.to_u8(), value as u8);
        assert_eq!(number.to_u16(), value as u16);
        assert_eq!(number.to_u32(), value as u32);
        assert_eq!(number.to_u64(), value as u64);
        assert_eq!(number.to_i32(), value as i32);
    }
}

#[test]
fn number_texts_hold_their_characters() {
    for text in ["", "0.0", "-12.5", "1e16", "-2.2250738585072014e-308", "1e+9"] {
        let held = NumberText::new(text).expect("a number");
        assert_eq!(held.to_text(), text);
    }
    assert_eq!(NumberText::new("0.0"), Some(NumberText { code: 0x1c1 }));
    assert_eq!(NumberText::new("NaN"), None);
    assert!(NumberText::new(&"1".repeat(32)).is_some());
    assert_eq!(NumberText::new(&"1".repeat(33)), None);
}
