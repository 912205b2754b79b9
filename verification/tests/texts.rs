use std::path::{Component, Path, PathBuf};
use zeroclaw::alias::{AliasMap, NameSet};
use zeroclaw::order::{sort_order, text_le_of};
use zeroclaw::path::{components_of, is_absolute, join_path, normalize_path, path_lies_in};
use zeroclaw::text::{
    contains_char, contains_text, decimal_of, lf_only_of, lines_of, split_once_of, starts_with,
    trim_both_of, trim_of, Trim,
};

const SAMPLES: [&str; 16] = [
    "", "a", "\n", "\r\n", "a\nb", "a\r\nb\r\n", "\r\r\n", "a\n\nb\n", " x ", "\u{a0}x\u{3000}",
    "a: b: c", "::", "\"q\"", "é\u{85}", "\u{200b}", "a\rb",
];

#[test]
fn trimming_agrees_with_std() {
    for s in SAMPLES {
        assert_eq!(trim_of(s), s.trim(), "{s:?}");
        assert_eq!(trim_both_of(s, Trim::Just('"')), s.trim_matches('"'), "{s:?}");
    }
    for code in 0..=0xffffu32 {
        if let Some(c) = char::from_u32(code) {
            let s = format!("{c}x");
            assert_eq!(trim_of(&s).chars().count() == 1, c.is_whitespace(), "{code:x}");
        }
    }
}

#[test]
fn lines_agree_with_std() {
    for s in SAMPLES {
        let want: Vec<String> = s.lines().map(String::from).collect();
        assert_eq!(lines_of(s), want, "{s:?}");
        let flat: String = lf_only_of(s).into_iter().collect();
        assert_eq!(flat, s.replace("\r\n", "\n"), "{s:?}");
    }
}

#[test]
fn searches_agree_with_std() {
    for s in SAMPLES {
        for p in SAMPLES {
            assert_eq!(contains_text(s, p), s.contains(p), "{s:?} {p:?}");
            assert_eq!(starts_with(s, p), s.starts_with(p), "{s:?} {p:?}");
        }
        for c in [':', 'a', '\r', 'é'] {
            assert_eq!(contains_char(s, c), s.contains(c));
            let want = s.split_once(c).map(|(a, b)| (a.to_string(), b.to_string()));
            assert_eq!(split_once_of(s, c), want);
        }
    }
}

#[test]
fn numbers_agree_with_std() {
    for n in [0, 1, 9, 10, 99, 100, 12_345, u64::MAX] {
        assert_eq!(decimal_of(n), n.to_string());
    }
}

#[test]
fn order_agrees_with_std() {
    let words = ["", "a", "ab", "b", "B", "é", "z", "\u{ffff}", "\u{10000}", "a\0"];
    for x in words {
        for y in words {
            assert_eq!(text_le_of(x, y), x <= y, "{x:?} {y:?}");
        }
    }
    let keys: Vec<String> = ["b", "a", "b", "", "a"].iter().map(|s| s.to_string()).collect();
    assert_eq!(sort_order(&keys), vec![3, 1, 4, 0, 2]);
}

const PATHS: [&str; 24] = [
    "", "/", "a", "a/b", "/a/b", "a//b", "a/./b", "./a", "/./a", "a/", "a/..", "..", "../a",
    "/..", "/a/../../b", "a/../../b", ".", "./.", "a/b/../c", "//a",
    "../..", "../../a/..", "a/../..", "/../a/../..",
];

fn std_components(p: &str) -> Vec<String> {
    Path::new(p).components().map(|c| c.as_os_str().to_str().unwrap().to_string()).collect()
}

/// A `..` takes away the name before it, is dropped at the root, and stays
/// where a relative path has no name left to take away.
fn std_normalize(p: &str) -> PathBuf {
    let mut out = PathBuf::new();
    for component in Path::new(p).components() {
        match component {
            Component::ParentDir => match out.components().next_back() {
                Some(Component::Normal(_)) => {
                    out.pop();
                }
                Some(Component::RootDir) => {}
                _ => out.push(".."),
            },
            Component::CurDir => {}
            other => out.push(other.as_os_str()),
        }
    }
    out
}

#[test]
fn paths_agree_with_std() {
    for a in PATHS {
        assert_eq!(components_of(a), std_components(a), "{a:?}");
        assert_eq!(is_absolute(a), Path::new(a).is_absolute(), "{a:?}");
        assert_eq!(normalize_path(a), std_normalize(a).to_str().unwrap(), "{a:?}");
        assert_eq!(normalize_path(&normalize_path(a)), normalize_path(a), "{a:?}");
        for b in PATHS {
            assert_eq!(join_path(a, b), Path::new(a).join(b).to_str().unwrap(), "{a:?} {b:?}");
            assert_eq!(path_lies_in(a, b), Path::new(a).starts_with(b), "{a:?} {b:?}");
        }
    }
}

#[test]
fn tables_keep_one_value_for_each_alias() {
    let mut map: AliasMap<u8> = AliasMap::new();
    map.insert("b".into(), 1);
    map.insert("a".into(), 2);
    map.insert("b".into(), 3);
    assert_eq!(map.len(), 2);
    assert_eq!(map.get("b"), Some(&3));
    assert_eq!(map.alias_at(0), "b");
    assert_eq!(map.position("a"), Some(1));
    map.set_value(1, 9);
    assert_eq!(*map.value_at(1), 9);
    map.remove("b");
    map.remove("missing");
    assert_eq!(map.len(), 1);
    assert!(!map.contains_key("b"));
    assert_eq!(map.get("b"), None);
}

#[test]
fn sets_hold_each_name_once() {
    let mut set = NameSet::new();
    set.insert("x".into());
    set.insert("y".into());
    set.insert("x".into());
    assert_eq!(set.len(), 2);
    assert_eq!(set.name_at(0), "x");
    assert!(set.contains("y"));
    assert!(!set.contains("z"));
}
