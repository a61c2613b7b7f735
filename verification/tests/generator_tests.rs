use std::io::Write;

use scraping_engine::ctx::ItemData;
use scraping_engine::iters::{get_iter_glob_json_pattern, get_iter_glob_json_range_pattern,
    get_iter_pattern, get_iter_range, get_iter_range_pattern, get_iter_vec, item_binding};
use scraping_engine::models::{IterGlobJsonPattern, IterJsonRangePattern, IterList, IterPattern,
    IterRange, IterRangePattern};

fn data(pairs: &[(&str, &str)]) -> ItemData {
    let mut d = ItemData::new();
    for (k, v) in pairs {
        d.insert_pair(k.to_string(), v.to_string());
    }
    d
}

fn values(items: &[ItemData], key: &str) -> Vec<String> {
    items.iter().map(|d| d.get(key).unwrap().clone()).collect()
}

#[test]
fn range_yields_ascending_integers() {
    let g = IterRange { name: "N".to_string(), offset: "3".to_string(), take: "4".to_string() };
    let out = get_iter_range(&g, &data(&[]));
    assert_eq!(values(&out, "N"), vec!["3", "4", "5", "6"]);
}

#[test]
fn range_with_take_zero_yields_nothing() {
    let g = IterRange { name: "N".to_string(), offset: "0".to_string(), take: "0".to_string() };
    let out = get_iter_range(&g, &data(&[]));
    assert_eq!(out.len(), 0);
}

#[test]
fn range_resolves_templates_against_the_context() {
    let g = IterRange {
        name: "N".to_string(),
        offset: "{{A}}".to_string(),
        take: "2".to_string(),
    };
    let out = get_iter_range(&g, &data(&[("A", "7")]));
    assert_eq!(values(&out, "N"), vec!["7", "8"]);
}

#[test]
fn range_with_unparsable_bound_yields_nothing() {
    let g = IterRange { name: "N".to_string(), offset: "x".to_string(), take: "2".to_string() };
    assert_eq!(get_iter_range(&g, &data(&[])).len(), 0);
}

#[test]
fn fixed_list_yields_each_value() {
    let g = IterList {
        name: "V".to_string(),
        val: vec!["a".to_string(), "b".to_string()],
    };
    let out = get_iter_vec(&g);
    assert_eq!(values(&out, "V"), vec!["a", "b"]);
}

#[test]
fn pattern_yields_serialized_matches_per_file() {
    let dir = tempfile::tempdir().unwrap();
    let mut f = tempfile::Builder::new().suffix(".json").tempfile_in(dir.path()).unwrap();
    f.write_all(b"{\"items\":[{\"id\":\"a\"},{\"id\":\"b\"}]}").unwrap();
    f.flush().unwrap();
    let g = IterPattern {
        name: "ID".to_string(),
        glob_pattern: format!("{}/*.json", dir.path().to_str().unwrap()),
        content_pattern: "$.items[*].id".to_string(),
    };
    let out = get_iter_pattern(&g);
    // string values keep their JSON serialization, quotes included
    assert_eq!(values(&out, "ID"), vec!["\"a\"", "\"b\""]);
}

#[test]
fn range_pattern_reads_bounds_from_the_file() {
    let dir = tempfile::tempdir().unwrap();
    let mut f = tempfile::Builder::new().suffix(".json").tempfile_in(dir.path()).unwrap();
    f.write_all(b"{\"offset\": 3, \"take\": 2}").unwrap();
    f.flush().unwrap();
    let g = IterRangePattern {
        name: "N".to_string(),
        glob_pattern: f.path().to_str().unwrap().to_string(),
        offset: "$.offset".to_string(),
        take: "$.take".to_string(),
    };
    let out = get_iter_range_pattern(&g, &data(&[]));
    assert_eq!(values(&out, "N"), vec!["3", "4"]);
}

#[test]
fn range_pattern_falls_back_to_literal_bounds() {
    let dir = tempfile::tempdir().unwrap();
    let mut f = tempfile::Builder::new().suffix(".json").tempfile_in(dir.path()).unwrap();
    f.write_all(b"{}").unwrap();
    f.flush().unwrap();
    let g = IterRangePattern {
        name: "N".to_string(),
        glob_pattern: f.path().to_str().unwrap().to_string(),
        offset: "5".to_string(),
        take: "1".to_string(),
    };
    let out = get_iter_range_pattern(&g, &data(&[]));
    assert_eq!(values(&out, "N"), vec!["5"]);
}

#[test]
fn glob_json_pattern_yields_one_binding_per_item() {
    let dir = tempfile::tempdir().unwrap();
    let mut f = tempfile::Builder::new().suffix(".json").tempfile_in(dir.path()).unwrap();
    f.write_all(b"{\"items\":[{\"id\":\"x\",\"n\":\"1\"},{\"id\":\"y\",\"n\":\"2\"}]}").unwrap();
    f.flush().unwrap();
    let g = IterGlobJsonPattern {
        glob_pattern: format!("{}/*.json", dir.path().to_str().unwrap()),
        item_pattern: "$.items[*]".to_string(),
        env_pattern: data(&[("id", "$.id"), ("n", "$.n")]),
    };
    let out = get_iter_glob_json_pattern(&g, &data(&[]));
    assert_eq!(out.len(), 2);
    assert_eq!(out[0].get("id").unwrap(), "x");
    assert_eq!(out[0].get("n").unwrap(), "1");
    assert_eq!(out[1].get("id").unwrap(), "y");
    assert_eq!(out[1].get("n").unwrap(), "2");
}

#[test]
fn glob_json_range_pattern_uses_the_first_match() {
    let dir = tempfile::tempdir().unwrap();
    let mut f = tempfile::Builder::new().suffix(".json").tempfile_in(dir.path()).unwrap();
    f.write_all(b"{\"offset\":\"5\",\"take\":1}").unwrap();
    f.flush().unwrap();
    let g = IterJsonRangePattern {
        name: "N".to_string(),
        file_pattern: format!("{}/*.json", dir.path().to_str().unwrap()),
        offset_pattern: "$.offset".to_string(),
        take_pattern: "$.take".to_string(),
    };
    let out = get_iter_glob_json_range_pattern(&g, &data(&[]));
    assert_eq!(values(&out, "N"), vec!["5"]);
}

#[test]
fn unresolvable_templates_yield_nothing() {
    let g = IterRangePattern {
        name: "N".to_string(),
        glob_pattern: "{{#broken".to_string(),
        offset: "0".to_string(),
        take: "1".to_string(),
    };
    assert_eq!(get_iter_range_pattern(&g, &data(&[])).len(), 0);
    let gj = IterGlobJsonPattern {
        glob_pattern: "{{#broken".to_string(),
        item_pattern: "$".to_string(),
        env_pattern: data(&[("id", "$.id")]),
    };
    assert_eq!(get_iter_glob_json_pattern(&gj, &data(&[])).len(), 0);
}

#[test]
fn item_bindings_omit_failed_extractions() {
    let fields = vec![
        ("a".to_string(), Some("1".to_string())),
        ("b".to_string(), None),
        ("a".to_string(), Some("2".to_string())),
    ];
    let b = item_binding(&fields);
    assert_eq!(b.get("a").unwrap(), "2");
    assert!(b.get("b").is_none());
}
