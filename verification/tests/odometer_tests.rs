use scraping_engine::ctx::ItemData;
use scraping_engine::models::{IterRange, TaskIter};
use scraping_engine::odometer::{get_iters, IterPoll, TupleIter, TupleOut};

fn range(name: &str, offset: &str, take: &str) -> TaskIter {
    TaskIter::Range(IterRange {
        name: name.to_string(),
        offset: offset.to_string(),
        take: take.to_string(),
    })
}

fn collect_tuples(iter: &mut TupleIter) -> Vec<TupleOut> {
    let mut out = Vec::new();
    loop {
        match iter.poll() {
            IterPoll::Yielded(t) => out.push(t),
            IterPoll::Working => (),
            IterPoll::Finished => return out,
        }
    }
}

fn env_pair(t: &TupleOut, a: &str, b: &str) -> (String, String) {
    (t.env.get(a).unwrap().clone(), t.env.get(b).unwrap().clone())
}

#[test]
fn take_zero_yields_no_tuples() {
    let mut iter = get_iters(vec![range("A", "0", "0")], ItemData::new());
    let tuples = collect_tuples(&mut iter);
    assert_eq!(tuples.len(), 0);
}

#[test]
fn two_independent_ranges_in_odometer_order() {
    let specs = vec![range("A", "0", "2"), range("B", "0", "3")];
    let mut iter = get_iters(specs, ItemData::new());
    let tuples = collect_tuples(&mut iter);
    let got: Vec<(String, String)> = tuples.iter().map(|t| env_pair(t, "A", "B")).collect();
    let want = vec![
        ("0".to_string(), "0".to_string()),
        ("0".to_string(), "1".to_string()),
        ("0".to_string(), "2".to_string()),
        ("1".to_string(), "0".to_string()),
        ("1".to_string(), "1".to_string()),
        ("1".to_string(), "2".to_string()),
    ];
    assert_eq!(got, want);
    // the bindings of each tuple carry one entry per position
    for t in tuples.iter() {
        assert_eq!(t.bindings.len(), 2);
    }
}

#[test]
fn dependent_offset_is_reevaluated_per_outer_binding() {
    // B's offset references A's current value, so B's range shifts
    // every time the odometer returns to B's position.
    let specs = vec![range("A", "0", "2"), range("B", "{{A}}", "2")];
    let mut iter = get_iters(specs, ItemData::new());
    let tuples = collect_tuples(&mut iter);
    let got: Vec<(String, String)> = tuples.iter().map(|t| env_pair(t, "A", "B")).collect();
    let want = vec![
        ("0".to_string(), "0".to_string()),
        ("0".to_string(), "1".to_string()),
        ("1".to_string(), "1".to_string()),
        ("1".to_string(), "2".to_string()),
    ];
    assert_eq!(got, want);
}

#[test]
fn inner_exhaustion_backtracks_without_ending_the_run() {
    // the inner generator yields nothing for A=0 (offset unparsable
    // would end it; instead use take 0 via A), yet A=1 still produces
    let specs = vec![range("A", "0", "2"), range("B", "0", "{{A}}")];
    let mut iter = get_iters(specs, ItemData::new());
    let tuples = collect_tuples(&mut iter);
    // A=0 -> B take 0 -> nothing; A=1 -> B in 0..1
    let got: Vec<(String, String)> = tuples.iter().map(|t| env_pair(t, "A", "B")).collect();
    assert_eq!(got, vec![("1".to_string(), "0".to_string())]);
}

#[test]
fn three_positions_vary_rightmost_fastest() {
    let specs = vec![range("A", "0", "2"), range("B", "0", "1"), range("C", "0", "2")];
    let mut iter = get_iters(specs, ItemData::new());
    let tuples = collect_tuples(&mut iter);
    let got: Vec<String> = tuples
        .iter()
        .map(|t| {
            format!(
                "{}{}{}",
                t.env.get("A").unwrap(),
                t.env.get("B").unwrap(),
                t.env.get("C").unwrap()
            )
        })
        .collect();
    assert_eq!(got, vec!["000", "001", "100", "101"]);
}

#[test]
fn seed_context_is_visible_to_generators_and_tuples() {
    let mut seed = ItemData::new();
    seed.insert_pair("BASE".to_string(), "5".to_string());
    let specs = vec![range("N", "{{BASE}}", "1")];
    let mut iter = get_iters(specs, seed);
    let tuples = collect_tuples(&mut iter);
    assert_eq!(tuples.len(), 1);
    assert_eq!(tuples[0].env.get("N").unwrap(), "5");
    assert_eq!(tuples[0].env.get("BASE").unwrap(), "5");
}

#[test]
fn finished_iterator_stays_finished() {
    let mut iter = get_iters(vec![range("A", "0", "1")], ItemData::new());
    let tuples = collect_tuples(&mut iter);
    assert_eq!(tuples.len(), 1);
    assert!(matches!(iter.poll(), IterPoll::Finished));
    assert!(matches!(iter.poll(), IterPoll::Finished));
}
