use scraping_engine::ctx::ItemData;

fn data(pairs: &[(&str, &str)]) -> ItemData {
    let mut d = ItemData::new();
    for (k, v) in pairs {
        d.insert_pair(k.to_string(), v.to_string());
    }
    d
}

#[test]
fn insert_and_get() {
    let mut d = ItemData::new();
    assert!(d.get("a").is_none());
    d.insert_pair("a".to_string(), "1".to_string());
    d.insert_pair("b".to_string(), "2".to_string());
    assert_eq!(d.get("a").unwrap(), "1");
    assert_eq!(d.get("b").unwrap(), "2");
    d.insert_pair("a".to_string(), "3".to_string());
    assert_eq!(d.get("a").unwrap(), "3");
    assert_eq!(d.count(), 2);
}

#[test]
fn extend_lets_the_other_side_win() {
    let mut base = data(&[("a", "1"), ("b", "2")]);
    let incoming = data(&[("b", "9"), ("c", "3")]);
    base.extend_with(&incoming);
    assert_eq!(base.get("a").unwrap(), "1");
    assert_eq!(base.get("b").unwrap(), "9");
    assert_eq!(base.get("c").unwrap(), "3");
}

#[test]
fn duplicate_is_independent() {
    let d = data(&[("k", "v")]);
    let mut e = d.duplicate();
    e.insert_pair("k".to_string(), "w".to_string());
    assert_eq!(d.get("k").unwrap(), "v");
    assert_eq!(e.get("k").unwrap(), "w");
}

#[test]
fn uniqueness_check() {
    let d = data(&[("a", "1"), ("b", "2")]);
    assert!(d.check_unique());
    let dup = ItemData { pairs: vec![("a".to_string(), "1".to_string()), ("a".to_string(), "2".to_string())] };
    assert!(!dup.check_unique());
}
