use codspeed::numeral::{
    hex_of_bytes, i64_to_decimal, parse_i32, parse_i64, parse_u64, u64_to_decimal, u64_to_hex,
};
use codspeed::path::{file_name, join_path, parent, stem_and_extension, strip_root};
use codspeed::text::{join, lines, replace, split_whitespace, strip_prefix, trim};
use codspeed::text_map::{text_at_most, TextMap};

#[test]
fn numbers_are_read_back() {
    for n in [0, 9, 10, 1234567890, u64::MAX] {
        assert_eq!(u64_to_decimal(n), n.to_string());
        assert_eq!(parse_u64(&u64_to_decimal(n)), Some(n));
        assert_eq!(u64_to_hex(n), format!("{n:x}"));
    }
    for n in [0, -1, 42, i64::MIN, i64::MAX] {
        assert_eq!(i64_to_decimal(n), n.to_string());
        assert_eq!(parse_i64(&i64_to_decimal(n)), Some(n));
    }
    assert_eq!(hex_of_bytes(&[0, 0x0a, 0xff, 1], 1, 3), "0aff");
}

#[test]
fn numbers_are_read_as_rust_reads_them() {
    for text in ["", "+", "-", "+7", "-7", "07", " 7", "7 ", "18446744073709551616", "0x7"] {
        assert_eq!(parse_u64(text), text.parse::<u64>().ok(), "{text}");
        assert_eq!(parse_i64(text), text.parse::<i64>().ok(), "{text}");
        assert_eq!(parse_i32(text), text.parse::<i32>().ok(), "{text}");
    }
}

#[test]
fn texts_are_split_as_rust_splits_them() {
    for text in ["", " a  b ", "a\r\nb\n\nc", "\u{a0}x\u{3000}", "a\n", "\n", "a\r"] {
        assert_eq!(trim(text), text.trim());
        assert_eq!(lines(text), text.lines().collect::<Vec<_>>());
        assert_eq!(split_whitespace(text), text.split_whitespace().collect::<Vec<_>>());
    }
    assert_eq!(replace("aaaa", "aa", "b"), "bb");
    assert_eq!(replace("cargo codspeed", "codspeed", "x"), "cargo x");
    assert_eq!(join(&vec!["a".to_owned(), "b".to_owned()], ", "), "a, b");
    assert_eq!(strip_prefix("perf-1", "perf-").as_deref(), Some("1"));
    assert_eq!(strip_prefix("per", "perf-"), None);
}

#[test]
fn paths_are_split_as_rust_splits_them() {
    for path in ["/", "/a/b", "a", "a/b/", "a/..", "..", "./a/.", "/a//b", "", "a.tar.gz", ".x", "a/./b"] {
        let std_path = std::path::Path::new(path);
        assert_eq!(
            file_name(path),
            std_path.file_name().map(|n| n.to_str().unwrap().to_owned()),
            "{path}"
        );
        assert_eq!(
            parent(path),
            std_path.parent().map(|p| p.to_str().unwrap().to_owned()),
            "{path}"
        );
        for other in ["", "c", "/c", "c/d"] {
            assert_eq!(join_path(path, other), std_path.join(other).to_str().unwrap());
        }
    }
    assert_eq!(
        stem_and_extension("/p/a.tar.gz"),
        Some(("a.tar".to_owned(), Some("gz".to_owned())))
    );
    assert_eq!(stem_and_extension("/p/.x"), Some((".x".to_owned(), None)));
    assert_eq!(strip_root("/usr/lib"), "usr/lib");
}

#[test]
fn maps_are_ordered_by_their_keys() {
    let mut map = TextMap::new();
    map.insert("b".to_owned(), 1);
    map.insert("a".to_owned(), 2);
    map.insert("ab".to_owned(), 3);
    map.insert("b".to_owned(), 4);
    *map.get_or_insert("c".to_owned(), 5) += 1;
    assert_eq!(map.len(), 4);
    let keys: Vec<&str> = (0..map.len()).map(|i| map.key_at(i)).collect();
    assert_eq!(keys, vec!["a", "ab", "b", "c"]);
    assert_eq!(map.get("b"), Some(&4));
    assert_eq!(map.get("c"), Some(&6));
    assert_eq!(*map.value_at(0), 2);
    assert_eq!(map.get("z"), None);
    assert!(text_at_most("a", "ab") && text_at_most("a", "a") && !text_at_most("b", "ab"));
}
