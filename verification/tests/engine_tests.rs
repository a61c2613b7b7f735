use scraping_engine::ctx::ItemData;
use scraping_engine::models::{ApiError, IterRange, Setting, Step, StepNotify, TaskIter,
    TextContent};
use scraping_engine::odometer::{IterPoll, TupleOut};
use scraping_engine::scraping::Scraping;
use scraping_engine::tasks::csv_task::CsvJob;
use scraping_engine::tasks::task::Job;
use scraping_engine::utils::{from_unix_time, get_handlebars, get_handlebars_safe_dir};

fn data(pairs: &[(&str, &str)]) -> ItemData {
    let mut d = ItemData::new();
    for (k, v) in pairs {
        d.insert_pair(k.to_string(), v.to_string());
    }
    d
}

fn csv_step(name: &str, iters: Vec<TaskIter>) -> (String, Step) {
    (
        name.to_string(),
        Step {
            name: name.to_string(),
            task_iters: iters,
            job: Job::CsvJob(CsvJob {
                keys: vec!["a".to_string()],
                sep: ",".to_string(),
                filename: "r.csv".to_string(),
                output: "o".to_string(),
            }),
            concurrency_limit: 3,
        },
    )
}

fn setting(steps: Vec<(String, Step)>) -> Setting {
    Setting { env: data(&[("E", "42")]), header: data(&[]), steps }
}

#[test]
fn loading_replaces_the_configuration() {
    let mut engine = Scraping::new();
    let s = setting(vec![csv_step("one", vec![])]);
    assert!(s.validate());
    engine.load(s);
    assert!(engine.find_step("one").is_some());
    assert!(engine.find_step("two").is_none());
}

#[test]
fn update_state_rejects_unknown_steps() {
    let mut engine = Scraping::new();
    engine.load(setting(vec![csv_step("one", vec![])]));
    assert!(engine.update_state("one", 2).is_ok());
    match engine.update_state("missing", 2) {
        Err(ApiError::CrawlerError(_)) => (),
        _ => panic!("expected the step-not-found error"),
    }
}

#[test]
fn a_step_without_generators_yields_one_indexed_tuple() {
    let mut engine = Scraping::new();
    engine.load(setting(vec![csv_step("solo", vec![])]));
    let mut run = engine.prepare_run("solo").unwrap();
    assert_eq!(run.limit, 3);
    let mut tuples: Vec<TupleOut> = Vec::new();
    loop {
        match run.iters.poll() {
            IterPoll::Yielded(t) => tuples.push(t),
            IterPoll::Working => (),
            IterPoll::Finished => break,
        }
    }
    assert_eq!(tuples.len(), 1);
    assert_eq!(tuples[0].env.get("IDX_solo").unwrap(), "0");
    // the seed context is the loaded global environment
    assert_eq!(tuples[0].env.get("E").unwrap(), "42");
}

#[test]
fn prepare_run_rejects_unknown_steps() {
    let mut engine = Scraping::new();
    engine.load(setting(vec![]));
    match engine.prepare_run("ghost") {
        Err(ApiError::CrawlerError(_)) => (),
        _ => panic!("expected the step-not-found error"),
    }
}

#[test]
fn prepare_run_keeps_declared_generators() {
    let g = TaskIter::Range(IterRange {
        name: "N".to_string(),
        offset: "0".to_string(),
        take: "2".to_string(),
    });
    let mut engine = Scraping::new();
    engine.load(setting(vec![csv_step("ranged", vec![g])]));
    let mut run = engine.prepare_run("ranged").unwrap();
    let mut count = 0;
    loop {
        match run.iters.poll() {
            IterPoll::Yielded(_) => count += 1,
            IterPoll::Working => (),
            IterPoll::Finished => break,
        }
    }
    assert_eq!(count, 2);
}

#[test]
fn rendering_substitutes_and_sanitizes() {
    let env = data(&[("X", "1"), ("P", "a/b")]);
    assert_eq!(get_handlebars("a{{X}}b", &env).unwrap(), "a1b");
    // the sanitized view strips the separator out of the value
    assert_eq!(get_handlebars_safe_dir("d/{{P}}", &env).unwrap(), "d/ab");
    match get_handlebars("{{#broken", &env) {
        Err(ApiError::TemplateError(_)) => (),
        _ => panic!("expected a template error"),
    }
}

#[test]
fn timestamps_reformat_or_pass_through() {
    match from_unix_time("notanumber".to_string()) {
        Err(ApiError::ParseError(_)) => (),
        _ => panic!("expected a parse error"),
    }
    let out = from_unix_time("1700000000000".to_string()).unwrap();
    // local-time text: exact value depends on the zone, the shape does not
    assert_eq!(out.len(), 19);
    assert_eq!(&out[4..5], "-");
    assert_eq!(&out[13..14], ":");
    // far out of chrono's range: the input is handed back
    let far = from_unix_time("999999999999999999".to_string()).unwrap();
    assert_eq!(far, "999999999999999999");
}

#[test]
fn notifications_carry_the_step_and_the_message() {
    let s = StepNotify::start_of_step("alpha");
    assert_eq!(s.name, "status");
    assert_eq!(s.status, "start");
    assert_eq!(s.message, "Start Step alpha");
    let e = StepNotify::end_of_step("alpha");
    assert_eq!(e.status, "end");
    assert_eq!(e.message, "End Step alpha");
    let p = StepNotify::progress("dl/x.bin".to_string());
    assert_eq!(p.name, "progress");
    let f = StepNotify::failure("boom".to_string());
    assert_eq!(f.name, "error");
}

#[test]
fn errors_describe_themselves() {
    assert_eq!(
        ApiError::CrawlerError("Step not found".to_string()).describe(),
        "Crawler error: Step not found"
    );
    assert_eq!(ApiError::JsonError("bad".to_string()).describe(), "JSON error: bad");
}

#[test]
fn text_content_respects_the_size_cap_and_decode_errors() {
    let big = TextContent::assemble(
        "p".to_string(),
        "text/plain".to_string(),
        6 * 1024 * 1024,
        "UTF-8".to_string(),
        "body".to_string(),
        false,
    );
    assert!(big.enc.is_none() && big.text.is_none());
    let small = TextContent::assemble(
        "p".to_string(),
        "text/plain".to_string(),
        10,
        "UTF-8".to_string(),
        "body".to_string(),
        false,
    );
    assert_eq!(small.enc.as_deref(), Some("UTF-8"));
    assert_eq!(small.text.as_deref(), Some("body"));
    let garbled = TextContent::assemble(
        "p".to_string(),
        "text/plain".to_string(),
        10,
        "UTF-8".to_string(),
        "body".to_string(),
        true,
    );
    assert_eq!(garbled.enc.as_deref(), Some("UTF-8"));
    assert!(garbled.text.is_none());
}

#[test]
fn validation_rejects_duplicate_keys() {
    let mut s = setting(vec![csv_step("one", vec![])]);
    s.env = ItemData {
        pairs: vec![
            ("k".to_string(), "1".to_string()),
            ("k".to_string(), "2".to_string()),
        ],
    };
    assert!(!s.validate());
}

#[test]
fn in_range_timestamps_are_reformatted_not_echoed() {
    let out = from_unix_time("-1500".to_string()).unwrap();
    // a negative sub-second remainder wraps to an invalid nanosecond
    // count, so the calendar rejects the pair and the input comes back
    assert_eq!(out, "-1500");
    let out2 = from_unix_time("-2000".to_string()).unwrap();
    // a whole-second negative timestamp is representable and formatted
    assert_ne!(out2, "-2000");
    assert_eq!(out2.len(), 19);
}
