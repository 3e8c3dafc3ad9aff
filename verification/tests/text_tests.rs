use backend::ordered_map::{KeyOrder, OrderedMap};
use backend::text::{
    clone_opt_text, compare_text, decimal_text, join2, join3, same_opt_text, same_text, text_of,
    zero_padded_text,
};

#[test]
fn decimal_text_writes_every_digit() {
    assert_eq!(decimal_text(0), "0");
    assert_eq!(decimal_text(9), "9");
    assert_eq!(decimal_text(10), "10");
    assert_eq!(decimal_text(1234567890), "1234567890");
    assert_eq!(decimal_text(u64::MAX), u64::MAX.to_string());
}

#[test]
fn zero_padded_text_pads_to_the_width() {
    assert_eq!(zero_padded_text(7, 2), "07");
    assert_eq!(zero_padded_text(0, 4), "0000");
    assert_eq!(zero_padded_text(2023, 4), "2023");
    assert_eq!(zero_padded_text(123, 2), "123");
    assert_eq!(zero_padded_text(5, 0), "5");
}

#[test]
fn texts_are_ordered_byte_by_byte() {
    assert_eq!(compare_text("", ""), KeyOrder::Same);
    assert_eq!(compare_text("", "a"), KeyOrder::Before);
    assert_eq!(compare_text("a", ""), KeyOrder::After);
    assert_eq!(compare_text("abc", "abd"), KeyOrder::Before);
    assert_eq!(compare_text("abc", "ab"), KeyOrder::After);
    assert_eq!(compare_text("Z", "a"), KeyOrder::Before);
    assert_eq!(compare_text("z", "é"), KeyOrder::Before);
    assert_eq!(compare_text("é", "é"), KeyOrder::Same);
    for (a, b) in [("x", "y"), ("b@example.com", "a@example.com"), ("é", "e"), ("", "\0")] {
        let expected = match a.cmp(b) {
            std::cmp::Ordering::Less => KeyOrder::Before,
            std::cmp::Ordering::Equal => KeyOrder::Same,
            std::cmp::Ordering::Greater => KeyOrder::After,
        };
        assert_eq!(compare_text(a, b), expected);
    }
    assert!(same_text("abc", "abc"));
    assert!(!same_text("abc", "abC"));
}

#[test]
fn texts_are_joined_and_copied() {
    assert_eq!(text_of("abc"), "abc");
    assert_eq!(join2("ab", "cd"), "abcd");
    assert_eq!(join3("a", "", "c"), "ac");
    assert_eq!(clone_opt_text(&Some("x".to_string())), Some("x".to_string()));
    assert_eq!(clone_opt_text(&None), None);
    assert!(same_opt_text(&None, &None));
    assert!(same_opt_text(&Some("a".to_string()), &Some("a".to_string())));
    assert!(!same_opt_text(&Some("a".to_string()), &None));
    assert!(!same_opt_text(&Some("a".to_string()), &Some("b".to_string())));
}

#[test]
fn map_keeps_its_keys_in_order() {
    let mut map: OrderedMap<String, u32> = OrderedMap::new();
    assert!(map.is_empty());
    for (i, key) in ["m", "c", "x", "a", "q", "c"].iter().enumerate() {
        map.insert(key.to_string(), i as u32);
    }
    assert_eq!(map.len(), 5);
    let keys: Vec<&str> = (0..map.len()).map(|i| map.key_at(i).as_str()).collect();
    assert_eq!(keys, vec!["a", "c", "m", "q", "x"]);
    assert_eq!(map.get(&"c".to_string()), Some(&5));
    assert_eq!(map.get(&"b".to_string()), None);
    assert!(map.contains_key(&"x".to_string()));
    assert_eq!(map.position(&"m".to_string()), Some(2));
    assert_eq!(map.position(&"n".to_string()), None);
    assert_eq!(map.remove(&"a".to_string()), Some(3));
    assert_eq!(map.position(&"m".to_string()), Some(1));
    assert_eq!(OrderedMap::<String, u32>::default().len(), 0);
}
