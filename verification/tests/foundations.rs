use fornax_types::code::Coded;
use fornax_types::json::{canonicalize_value, Json};
use fornax_types::order::{squeeze, stable_sort, SortedMap, SortedSet};
use fornax_types::text::{
    blank, chars_contain, chars_of, eq_ignoring_ascii_case, lowercase_chars, str_before, to_decimal,
    to_hex, to_number_list,
};
use fornax_types::time::{parse_relaxed, parse_rfc3339};
use fornax_types::{Timestamp, Uuid};

fn words(list: &[&str]) -> Vec<String> {
    list.iter().map(|w| w.to_string()).collect()
}

fn word_set(list: &[&str]) -> SortedSet<String> {
    SortedSet::from_vec(&words(list))
}

#[test]
fn sorted_sets_keep_each_member_once_in_order() {
    let s = word_set(&["e", "a", "c", "a"]);
    assert_eq!(s.as_vec(), &words(&["a", "c", "e"]));
    assert_eq!(s, SortedSet::new().with("c".to_string()).with("e".to_string()).with("a".to_string()));
    assert_eq!(s.clone().with("c".to_string()), s);
    assert!(s.contains(&"c".to_string()));
    assert!(!s.contains(&"d".to_string()));
    assert!(!s.is_empty());
    assert!(SortedSet::<String>::new().is_empty());
    let t = word_set(&["c", "d"]);
    assert_eq!(s.union(&t).as_vec(), &words(&["a", "c", "d", "e"]));
    assert_eq!(s.intersection(&t).as_vec(), &words(&["c"]));
    assert!(s.intersection(&t).is_subset(&s));
    assert!(!t.is_subset(&s));
}

#[test]
fn sorted_maps_hold_the_latest_value_of_each_key() {
    let m = SortedMap::new().with("b".to_string(), 1u64).with("a".to_string(), 2);
    assert_eq!(m.len(), 2);
    assert_eq!(m.get(&"b".to_string()), Some(&1));
    assert_eq!(m.get(&"c".to_string()), None);
    let m = m.with("b".to_string(), 3);
    assert_eq!(m.as_vec(), &vec![("a".to_string(), 2), ("b".to_string(), 3)]);
}

#[test]
fn sorting_is_stable_and_squeezing_drops_repetitions() {
    let sorted = stable_sort(words(&["b", "a", "b", "B"]));
    assert_eq!(sorted, vec!["B", "a", "b", "b"]);
    assert_eq!(squeeze(sorted), vec!["B", "a", "b"]);
}

#[test]
fn white_space_is_what_the_list_says() {
    let listed = |n: u32| {
        (0x09..=0x0d).contains(&n)
            || (0x2000..=0x200a).contains(&n)
            || [0x20, 0x85, 0xa0, 0x1680, 0x2028, 0x2029, 0x202f, 0x205f, 0x3000].contains(&n)
    };
    for n in 0..=0x10ffff {
        if let Some(c) = char::from_u32(n) {
            assert_eq!(blank(&c.to_string()), listed(n));
        }
    }
}

#[test]
fn text_helpers_have_their_values() {
    assert_eq!(to_hex(&[0, 15, 255]), "000fff");
    assert_eq!(to_decimal(0), "0");
    assert_eq!(to_decimal(u64::MAX), "18446744073709551615");
    assert_eq!(to_number_list(&[]), "[]");
    assert_eq!(to_number_list(&[1, 20]), "[1, 20]");
    assert!(blank(""));
    assert!(blank("\t\u{a0}\u{2003}"));
    assert!(!blank(" x "));
    assert!(str_before("a", "b"));
    assert!(str_before("", "a"));
    assert!(str_before("Z", "a"));
    assert!(!str_before("a", "a"));
    assert!(eq_ignoring_ascii_case("TrUe", "true"));
    assert!(!eq_ignoring_ascii_case("true ", "true"));
    assert_eq!(lowercase_chars("GiT"), vec!['g', 'i', 't']);
    assert!(chars_contain(&chars_of("rm -rf /"), "-rf"));
    assert!(!chars_contain(&chars_of("rm"), "rm "));
}

#[test]
fn identifiers_are_written_and_derived() {
    let id = Uuid::from_u128(0x6ba7b810_9dad_11d1_80b4_00c04fd430c8);
    assert_eq!(id.to_text(), "6ba7b810-9dad-11d1-80b4-00c04fd430c8");
    assert_eq!(id.as_u128(), 0x6ba7b810_9dad_11d1_80b4_00c04fd430c8);
    let derived = Uuid::new_v5(&id, b"www.example.org");
    assert_eq!(derived.to_text(), "74738ff5-5367-5958-9aee-98fffdcd1876");
}

#[test]
fn timestamps_are_read_and_compared() {
    let t = parse_rfc3339("1970-01-01T01:00:00.5+01:00").unwrap();
    assert_eq!((t.seconds(), t.nanos()), (0, 500_000_000));
    assert_eq!(parse_rfc3339("1970-01-01"), None);
    assert_eq!(parse_rfc3339(""), None);
    assert_eq!(parse_relaxed("1970-01-01 00:00:00.5Z"), Some(t));
    assert_eq!(parse_relaxed("soon"), None);
    let u = parse_rfc3339("1970-01-01T00:00:02Z").unwrap();
    assert!(t.is_before(&u));
    assert!(!u.is_before(&t));
    assert!(!t.is_before(&t));
    assert_eq!(u.seconds_since(&t), 1);
    assert_eq!(t.seconds_since(&u), -1);
    assert_eq!(t.plus_seconds(10), Timestamp::from_parts(10, 500_000_000).unwrap());
    assert!(t.is_before_with_grace(&u, 1));
    assert!(!t.is_before_with_grace(&u, 2));
}

#[test]
fn leap_seconds_are_counted_as_they_are_read() {
    let leap = parse_rfc3339("2015-06-30T23:59:60Z").unwrap();
    assert_eq!((leap.seconds(), leap.nanos()), (1_435_708_799, 1_000_000_000));
    let next = parse_rfc3339("2015-07-01T00:00:00Z").unwrap();
    assert!(leap.is_before(&next));
    assert_eq!(leap.seconds_since(&parse_rfc3339("2015-06-30T23:59:59Z").unwrap()), 1);
    assert_eq!(leap.plus_seconds(1), next);
    assert_eq!(Timestamp::from_parts(0, 1_000_000_000), None);
    assert_eq!(Timestamp::from_parts(59, 1_000_000_000).unwrap().seconds(), 59);
    assert_eq!(Timestamp::from_parts(0, 2_000_000_000), None);
    assert_eq!(Timestamp::from_parts(i64::MAX, 0), None);
}

#[test]
fn canonical_json_sorts_members_at_every_depth() {
    let member = |name: &str, value: Json| (name.to_string(), value);
    let inner = Json::Object(vec![member("z", Json::Null), member("a", Json::Bool(true))]);
    let value = Json::Object(vec![
        member("b", Json::Array(vec![inner])),
        member("a", Json::Text("s".to_string())),
    ]);
    let sorted_inner = Json::Object(vec![member("a", Json::Bool(true)), member("z", Json::Null)]);
    assert_eq!(
        canonicalize_value(value),
        Json::Object(vec![
            member("a", Json::Text("s".to_string())),
            member("b", Json::Array(vec![sorted_inner])),
        ])
    );
}

#[test]
fn texts_tell_values_apart_and_show_where_they_end() {
    assert_eq!(0u32.to_code(), ".");
    assert_eq!(120u32.to_code(), "021.");
    assert_eq!("a.b".to_string().to_code(), "3.a.b");
    assert_eq!(None::<u32>.to_code(), ".");
    assert_eq!(Some(4u32).to_code(), "1.4.");
    assert_eq!(words(&["a", "bc"]).to_code(), "2.1.a2.bc");
    assert_eq!(word_set(&["bc", "a"]).to_code(), words(&["a", "bc"]).to_code());
    assert_ne!(words(&["ab"]).to_code(), words(&["a", "b"]).to_code());
    assert_eq!(Uuid::from_u128(10).to_code(), "01.");
}
