use ingestion_worker::name_map::NameMap;
use ingestion_worker::text::{
    chars_of, comes_before, join2, join3, contains, count_char, decimal_of, ends_with,
    extension, file_stem, find_char, find_str, host_of_url, parent_name, path_segments,
    replace_char, rfind_char, slice, sort_texts, split_char, split_lines, starts_with,
    strip_prefixes,
    take_until, trim, trim_end, trim_start, trim_str, CharClass,
};

fn c(s: &str) -> Vec<char> {
    s.chars().collect()
}

fn s(v: Vec<char>) -> String {
    v.into_iter().collect()
}

fn strings(v: Vec<Vec<char>>) -> Vec<String> {
    v.into_iter().map(s).collect()
}

#[test]
fn characters_of_a_text() {
    assert_eq!(chars_of("héllo"), vec!['h', 'é', 'l', 'l', 'o']);
    assert!(chars_of("").is_empty());
    assert_eq!(join2("ab", "cd"), "abcd");
    assert_eq!(join3("a", "::", "b"), "a::b");
}

#[test]
fn searching() {
    assert!(contains(&c("src/components/x"), &c("component")));
    assert!(contains(&c("abc"), &c("")));
    assert!(contains(&c(""), &c("")));
    assert!(contains(&c("abc"), &c("abc")));
    assert!(contains(&c("aab"), &c("ab")));
    assert!(!contains(&c("abc"), &c("abcd")));
    assert!(!contains(&c("abc"), &c("ac")));
    assert!(starts_with(&c("services:"), &c("services:")));
    assert!(starts_with(&c("abc"), &c("")));
    assert!(!starts_with(&c("ab"), &c("abc")));
    assert!(ends_with(&c("a.tsx"), &c(".tsx")));
    assert!(!ends_with(&c("tsx"), &c(".tsx")));
    assert!(ends_with(&c("x"), &c("")));
    assert_eq!(find_char(&c("a/b/c"), '/', 0), 1);
    assert_eq!(find_char(&c("a/b/c"), '/', 2), 3);
    assert_eq!(find_char(&c("abc"), '/', 0), 3);
    assert_eq!(rfind_char(&c("a.b.c"), '.'), Some(3));
    assert_eq!(rfind_char(&c("abc"), '.'), None);
    assert_eq!(find_str(&c("http://x//y"), &c("//")), Some(5));
    assert_eq!(find_str(&c("abc"), &c("//")), None);
    assert_eq!(find_str(&c("abc"), &c("")), Some(0));
    assert_eq!(count_char(&c("a/b/c/"), '/'), 3);
    assert_eq!(count_char(&c(""), '/'), 0);
}

#[test]
fn cutting() {
    assert_eq!(s(slice(&c("hello"), 1, 4)), "ell");
    assert_eq!(s(slice(&c("hello"), 2, 2)), "");
    assert_eq!(s(take_until(&c("host/path"), '/')), "host");
    assert_eq!(s(take_until(&c("host"), '/')), "host");
    assert_eq!(strings(split_char(&c("a/b//c"), '/')), vec!["a", "b", "", "c"]);
    assert_eq!(strings(split_char(&c(""), '/')), vec![""]);
    assert_eq!(strings(split_char(&c("/"), '/')), vec!["", ""]);
    assert_eq!(strings(split_char(&c("abc"), '/')), vec!["abc"]);
    assert_eq!(strings(split_lines(&c("a\nb\r\nc"))), vec!["a", "b", "c"]);
    assert_eq!(strings(split_lines(&c("a\n"))), vec!["a"]);
    assert_eq!(strings(split_lines(&c("a\n\nb\n"))), vec!["a", "", "b"]);
    assert_eq!(strings(split_lines(&c("a\r"))), vec!["a\r"]);
    assert_eq!(strings(split_lines(&c("\n"))), vec![""]);
    assert!(split_lines(&c("")).is_empty());
    for text in ["", "a", "a\n", "\n\n", "a\r\nb", "x\ry\n", "one\ntwo\nthree", "\r\n"] {
        let expected: Vec<String> = text.lines().map(|l| l.to_string()).collect();
        assert_eq!(strings(split_lines(&c(text))), expected, "{:?}", text);
    }
    for text in ["", "a", "/a/", "a//b", "///"] {
        let expected: Vec<String> = text.split('/').map(|l| l.to_string()).collect();
        assert_eq!(strings(split_char(&c(text), '/')), expected, "{:?}", text);
    }
}

#[test]
fn trimming() {
    assert_eq!(s(trim(&c("  \t x y \n"), CharClass::Space)), "x y");
    assert_eq!(s(trim(&c("\u{a0}x\u{2003}"), CharClass::Space)), "x");
    assert_eq!(s(trim(&c("   "), CharClass::Space)), "");
    assert_eq!(s(trim(&c("\"'`x`'\""), CharClass::Quote)), "x");
    assert_eq!(s(trim(&c("::a::"), CharClass::Is(':'))), "a");
    assert_eq!(s(trim_start(&c("--x-"), CharClass::Is('-'))), "x-");
    assert_eq!(s(trim_end(&c("name::"), CharClass::Is(':'))), "name");
    assert_eq!(trim_str("  \"fmt\" ", CharClass::Space), "\"fmt\"");
    assert_eq!(s(strip_prefixes(&c("././src/a"), &c("./"))), "src/a");
    assert_eq!(s(strip_prefixes(&c("src/./a"), &c("./"))), "src/./a");
    assert_eq!(s(strip_prefixes(&c("./"), &c("./"))), "");
    assert_eq!(s(strip_prefixes(&c("abc"), &c(""))), "abc");
    assert_eq!(s(replace_char(&c("a\\b\\c"), '\\', '/')), "a/b/c");
    for text in ["  x ", "x", "", " \n\t", "a b"] {
        assert_eq!(s(trim(&c(text), CharClass::Space)), text.trim(), "{:?}", text);
    }
}

#[test]
fn numbers_and_order() {
    assert_eq!(s(decimal_of(0)), "0");
    assert_eq!(s(decimal_of(7)), "7");
    assert_eq!(s(decimal_of(10)), "10");
    assert_eq!(s(decimal_of(1234567890)), "1234567890");
    assert_eq!(s(decimal_of(usize::MAX)), usize::MAX.to_string());
    let words = ["", "a", "A", "ab", "abc", "b", "é", "z", "Zed", "alpha", "alp"];
    for a in words {
        for b in words {
            assert_eq!(comes_before(&c(a), &c(b)), a < b, "{:?} {:?}", a, b);
        }
    }
}

#[test]
fn paths() {
    assert_eq!(strings(path_segments(&c("./a//b/./c/"))), vec!["a", "b", "c"]);
    assert_eq!(strings(path_segments(&c("../x"))), vec!["..", "x"]);
    assert!(path_segments(&c("")).is_empty());
    assert_eq!(file_stem("src/utils/helper.ts"), Some("helper".to_string()));
    assert_eq!(file_stem("a/.gitignore"), Some(".gitignore".to_string()));
    assert_eq!(file_stem("a/archive.tar.gz"), Some("archive.tar".to_string()));
    assert_eq!(file_stem("Makefile"), Some("Makefile".to_string()));
    assert_eq!(file_stem("a/.."), None);
    assert_eq!(file_stem(""), None);
    assert_eq!(file_stem("dir/"), Some("dir".to_string()));
    assert_eq!(extension("src/main.rs"), Some("rs".to_string()));
    assert_eq!(extension("a/.gitignore"), None);
    assert_eq!(extension("a/archive.tar.gz"), Some("gz".to_string()));
    assert_eq!(extension("Makefile"), None);
    assert_eq!(extension("a."), Some("".to_string()));
    assert_eq!(parent_name("src/utils/helper.ts"), Some("utils".to_string()));
    assert_eq!(parent_name("helper.ts"), None);
    assert_eq!(parent_name("./helper.ts"), None);
    assert_eq!(parent_name("../helper.ts"), None);
    assert_eq!(parent_name("/helper.ts"), None);
    assert_eq!(parent_name("a/b/.."), Some("b".to_string()));
    for path in ["src/main.rs", "a/.gitignore", "x/y.tar.gz", "Makefile", "a/b/", "./x.py", "a/./b.c", "a.", ".."] {
        let p = std::path::Path::new(path);
        let stem = p.file_stem().map(|s| s.to_string_lossy().to_string());
        let ext = p.extension().map(|s| s.to_string_lossy().to_string());
        let parent = p.parent().and_then(|q| q.file_name()).map(|s| s.to_string_lossy().to_string());
        assert_eq!(file_stem(path), stem, "{:?}", path);
        assert_eq!(extension(path), ext, "{:?}", path);
        if stem.is_some() {
            assert_eq!(parent_name(path), parent, "{:?}", path);
        }
    }
}

#[test]
fn hosts() {
    assert_eq!(host_of_url("grpc://users:50051/x"), Some("users:50051".to_string()));
    assert_eq!(host_of_url("//host"), Some("host".to_string()));
    assert_eq!(host_of_url("x"), None);
}

#[test]
fn name_maps_keep_first_insertion_order() {
    let mut map: NameMap<u32> = NameMap::new();
    assert_eq!(map.len(), 0);
    assert!(!map.contains_key("a"));
    map.insert("a".to_string(), 1);
    map.insert("b".to_string(), 2);
    map.insert("a".to_string(), 3);
    assert_eq!(map.len(), 2);
    assert_eq!(map.get("a"), Some(&3));
    assert_eq!(map.get("b"), Some(&2));
    assert_eq!(map.get("c"), None);
    assert_eq!(map.find("b"), Some(1));
    assert_eq!(map.slot_or_insert("c".to_string(), 9), 2);
    assert_eq!(map.slot_or_insert("a".to_string(), 9), 0);
    assert_eq!(map.into_values(), vec![3, 2, 9]);
    let mut lists: NameMap<Vec<u32>> = NameMap::new();
    lists.push_to("x".to_string(), 1);
    lists.push_to("y".to_string(), 2);
    lists.push_to("x".to_string(), 3);
    assert_eq!(lists.get("x"), Some(&vec![1, 3]));
    assert_eq!(lists.get("y"), Some(&vec![2]));
}

#[test]
fn texts_are_ordered_and_equal_texts_keep_their_place() {
    let texts: Vec<String> = ["b", "a", "", "ab", "B", "a", "\u{e9}"].iter().map(|s| s.to_string()).collect();
    assert_eq!(sort_texts(texts), vec!["", "B", "a", "a", "ab", "b", "\u{e9}"]);
    assert!(sort_texts(Vec::new()).is_empty());
    let mut expected = vec!["src/z.rs".to_string(), "src/a.rs".to_string(), "lib.rs".to_string()];
    let sorted = sort_texts(expected.clone());
    expected.sort();
    assert_eq!(sorted, expected);
}
