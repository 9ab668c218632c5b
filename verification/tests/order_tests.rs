use work::order::{dedup_sorted_by_key, stable_sort_by_key, str_eq, str_lt};

fn strings(v: &[&str]) -> Vec<String> {
    v.iter().map(|s| s.to_string()).collect()
}

#[test]
fn str_lt_is_lexicographic() {
    assert!(str_lt("a", "b"));
    assert!(str_lt("a", "ab"));
    assert!(!str_lt("ab", "a"));
    assert!(!str_lt("a", "a"));
    assert!(str_lt("", "a"));
    assert!(str_lt("Z", "a"));
    assert!(str_lt("z", "\u{e9}"));
}

#[test]
fn str_lt_agrees_with_string_order() {
    let words = ["", "a", "ab", "b", "B", "\u{e9}", "\u{1f600}", "a\u{ff}", "a\u{100}"];
    for x in words {
        for y in words {
            assert_eq!(str_lt(x, y), x < y, "{:?} {:?}", x, y);
        }
    }
}

#[test]
fn str_eq_compares_characters() {
    assert!(str_eq("abc", "abc"));
    assert!(!str_eq("abc", "abd"));
    assert!(!str_eq("abc", "ab"));
    assert!(str_eq("", ""));
}

#[test]
fn stable_sort_orders_names() {
    let sorted = stable_sort_by_key(strings(&["c", "a", "b", "a"]));
    assert_eq!(sorted, strings(&["a", "a", "b", "c"]));
}

#[test]
fn dedup_keeps_one_of_each() {
    let sorted = stable_sort_by_key(strings(&["c", "a", "b", "a", "c"]));
    assert_eq!(dedup_sorted_by_key(sorted), strings(&["a", "b", "c"]));
}

#[test]
fn sort_of_empty_is_empty() {
    assert!(stable_sort_by_key(Vec::<String>::new()).is_empty());
    assert!(dedup_sorted_by_key(Vec::<String>::new()).is_empty());
}
