use darp::strmap::StrMap;
use darp::text::{chars_of, compare, decimal_text, replace_all, same_text, trim_line, KeyOrder};

#[test]
fn map_keeps_keys_in_order() {
    let m: StrMap<u32> = StrMap::new();
    let (m, _) = m.insert("pear".to_string(), 1);
    let (m, _) = m.insert("apple".to_string(), 2);
    let (m, _) = m.insert("zebra".to_string(), 3);
    let (m, _) = m.insert("mango".to_string(), 4);
    assert_eq!(m.len(), 4);
    assert_eq!(m.key_at(0), "apple");
    assert_eq!(m.key_at(1), "mango");
    assert_eq!(m.key_at(2), "pear");
    assert_eq!(m.key_at(3), "zebra");
    assert_eq!(*m.value_at(0), 2);
    assert_eq!(*m.value_at(3), 3);
}

#[test]
fn map_insert_overwrites_and_hands_back() {
    let m: StrMap<u32> = StrMap::new();
    let (m, prev) = m.insert("a".to_string(), 1);
    assert_eq!(prev, None);
    let (m, prev) = m.insert("a".to_string(), 2);
    assert_eq!(prev, Some(1));
    assert_eq!(m.len(), 1);
    assert_eq!(m.get("a"), Some(&2));
}

#[test]
fn map_get_and_contains() {
    let m: StrMap<u32> = StrMap::new();
    assert!(m.is_empty());
    let (m, _) = m.insert("b".to_string(), 7);
    assert!(m.contains_key("b"));
    assert!(!m.contains_key("a"));
    assert!(!m.contains_key("c"));
    assert_eq!(m.get("c"), None);
    assert_eq!(m.locate("a"), (0, false));
    assert_eq!(m.locate("b"), (0, true));
    assert_eq!(m.locate("c"), (1, false));
}

#[test]
fn map_remove_takes_one_entry() {
    let m: StrMap<u32> = StrMap::new();
    let (m, _) = m.insert("a".to_string(), 1);
    let (m, _) = m.insert("b".to_string(), 2);
    let (m, _) = m.insert("c".to_string(), 3);
    let (m, gone) = m.remove("b");
    assert_eq!(gone, Some(2));
    assert_eq!(m.len(), 2);
    assert_eq!(m.key_at(0), "a");
    assert_eq!(m.key_at(1), "c");
    let (m, gone) = m.remove("b");
    assert_eq!(gone, None);
    assert_eq!(m.len(), 2);
    let (m, k, v) = m.remove_at(0);
    assert_eq!(k, "a");
    assert_eq!(v, 1);
    assert_eq!(m.len(), 1);
}

#[test]
fn map_replace_at_swaps_the_value() {
    let m: StrMap<u32> = StrMap::new();
    let (m, _) = m.insert("a".to_string(), 1);
    let (m, _) = m.insert("b".to_string(), 2);
    let (m, old) = m.replace_at(1, 20);
    assert_eq!(old, 2);
    assert_eq!(m.get("b"), Some(&20));
    assert_eq!(m.get("a"), Some(&1));
}

#[test]
fn map_clone_is_equal() {
    let m: StrMap<u32> = StrMap::new();
    let (m, _) = m.insert("x".to_string(), 1);
    let (m, _) = m.insert("y".to_string(), 2);
    let c = m.clone();
    assert_eq!(c, m);
}

#[test]
fn keys_compare_by_bytes() {
    assert_eq!(compare("a", "b"), KeyOrder::Less);
    assert_eq!(compare("b", "a"), KeyOrder::Greater);
    assert_eq!(compare("abc", "abc"), KeyOrder::Equal);
    assert_eq!(compare("ab", "abc"), KeyOrder::Less);
    assert_eq!(compare("", "a"), KeyOrder::Less);
    assert_eq!(compare("", ""), KeyOrder::Equal);
    assert_eq!(compare("Z", "a"), KeyOrder::Less);
    assert_eq!(compare("é", "z"), KeyOrder::Greater);
    assert_eq!(compare("/a/b", "/a/b/c"), KeyOrder::Less);
}

#[test]
fn compare_agrees_with_the_order_of_str() {
    let words = ["", "a", "ab", "b", "B", "é", "日本", "/x/y", "/x", "~"];
    for a in words.iter() {
        for b in words.iter() {
            let want = if a < b {
                KeyOrder::Less
            } else if a == b {
                KeyOrder::Equal
            } else {
                KeyOrder::Greater
            };
            assert_eq!(compare(a, b), want);
        }
    }
}

#[test]
fn same_text_is_equality() {
    assert!(same_text("abc", "abc"));
    assert!(!same_text("abc", "abd"));
    assert!(!same_text("abc", "ab"));
}

#[test]
fn chars_of_a_text() {
    assert_eq!(chars_of("héllo"), vec!['h', 'é', 'l', 'l', 'o']);
    assert_eq!(chars_of(""), Vec::<char>::new());
}

#[test]
fn replace_all_replaces_every_occurrence() {
    assert_eq!(replace_all("a-b-c", "-", "+"), "a+b+c");
    assert_eq!(replace_all("aaa", "aa", "b"), "ba");
    assert_eq!(replace_all("abc", "x", "y"), "abc");
    assert_eq!(replace_all("", "x", "y"), "");
    assert_eq!(replace_all("{pwd}{pwd}", "{pwd}", "/w"), "/w/w");
    assert_eq!(replace_all("xx", "x", ""), "");
    assert_eq!(replace_all("a\r\nb\r\n", "\r\n", "\n"), "a\nb\n");
}

#[test]
fn replace_all_agrees_with_str_replace() {
    let cases = [("hello world", "o", "0"), ("aXbXc", "X", "YY"), ("abab", "ab", "ba"), ("é-é", "é", "e")];
    for (s, from, to) in cases.iter() {
        assert_eq!(replace_all(s, from, to), s.replace(from, to));
    }
}

#[test]
fn decimal_text_writes_numbers() {
    assert_eq!(decimal_text(0), "0");
    assert_eq!(decimal_text(7), "7");
    assert_eq!(decimal_text(10), "10");
    assert_eq!(decimal_text(50100), "50100");
    assert_eq!(decimal_text(65535), "65535");
    assert_eq!(decimal_text(18446744073709551615), "18446744073709551615");
}

#[test]
fn trim_line_agrees_with_str_trim() {
    for s in ["", " ", "a", "  a  ", "\ta b\r\n", "\u{a0}x\u{3000}", "x\u{2003}y ", "\n\n", " é "] {
        assert_eq!(trim_line(s), s.trim());
    }
}
