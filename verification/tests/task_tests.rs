use std::io::Write;

use scraping_engine::ctx::ItemData;
use scraping_engine::models::ApiError;
use scraping_engine::tasks::csv_task::{CsvJob, CsvTask};
use scraping_engine::tasks::html_task::{build_row, visible_div, HtmlJob, HtmlTask};
use scraping_engine::tasks::http_task::{HttpJob, HttpTask};
use scraping_engine::tasks::shell_task::{ShellJob, ShellTask};
use scraping_engine::tasks::task::{FsOp, Job, Task};

fn data(pairs: &[(&str, &str)]) -> ItemData {
    let mut d = ItemData::new();
    for (k, v) in pairs {
        d.insert_pair(k.to_string(), v.to_string());
    }
    d
}

fn csv_job() -> CsvJob {
    CsvJob {
        keys: vec!["a".to_string(), "b".to_string()],
        sep: ",".to_string(),
        filename: "rows.csv".to_string(),
        output: "out/{{D}}".to_string(),
    }
}

#[test]
fn csv_make_task_places_the_file() {
    let env = data(&[("a", " x "), ("b", "y"), ("D", "a/b")]);
    let task = csv_job().make_task(env).unwrap();
    match task {
        Task::CsvTask(ct) => {
            // the directory template sees sanitized values, the row
            // keeps the raw ones
            assert_eq!(ct.folder, "out/ab");
            assert_eq!(ct.save_path, "out/ab/rows.csv");
            assert_eq!(ct.compose_row(), "x,y");
        },
        _ => panic!("wrong task kind"),
    }
}

#[test]
fn csv_row_uses_empty_strings_for_unbound_keys() {
    let ct = CsvTask {
        cur_env: data(&[("b", " q ")]),
        keys: vec!["a".to_string(), "b".to_string(), "c".to_string()],
        sep: ";".to_string(),
        folder: "o".to_string(),
        save_path: "o/r.csv".to_string(),
    };
    assert_eq!(ct.compose_row(), ";q;");
}

#[test]
fn csv_run_plan_appends_one_line() {
    let ct = CsvTask {
        cur_env: data(&[("a", "1")]),
        keys: vec!["a".to_string()],
        sep: ",".to_string(),
        folder: "o".to_string(),
        save_path: "o/r.csv".to_string(),
    };
    let ops = ct.run_plan();
    assert_eq!(ops.len(), 2);
    assert!(matches!(&ops[0], FsOp::EnsureDir(d) if d == "o"));
    assert!(matches!(&ops[1], FsOp::AppendLine(p, row) if p == "o/r.csv" && row == "1"));
}

fn http_job() -> HttpJob {
    HttpJob {
        url: "http://host/{{P}}".to_string(),
        method: "GET".to_string(),
        header: data(&[("x-job", "{{P}}")]),
        filename: "f:{{P}}.bin".to_string(),
        output: "dl".to_string(),
    }
}

#[test]
fn http_make_task_resolves_url_headers_and_path() {
    let g = data(&[("x-global", "1"), ("x-job", "0")]);
    let env = data(&[("P", "q")]);
    let task = http_job().make_task(env, &g).unwrap();
    match task {
        Task::HttpTask(ht) => {
            assert_eq!(ht.url, "http://host/q");
            assert_eq!(ht.method, "GET");
            // global entries first, the job's after them, so the job's
            // win when the header map is built in order
            assert_eq!(ht.header.len(), 3);
            assert_eq!(ht.header[2], ("x-job".to_string(), "q".to_string()));
            assert!(ht.header[..2].contains(&("x-global".to_string(), "1".to_string())));
            assert!(ht.header[..2].contains(&("x-job".to_string(), "0".to_string())));
            // ':' is illegal in a file name and is stripped
            assert_eq!(ht.save_path, "dl/fq.bin");
        },
        _ => panic!("wrong task kind"),
    }
}

#[test]
fn http_make_task_rejects_bad_headers() {
    let env = data(&[("P", "q")]);
    let mut job = http_job();
    job.header = data(&[("bad header", "v")]);
    match job.make_task(env, &data(&[])) {
        Err(ApiError::ReqwestError(_)) => (),
        _ => panic!("expected a header error"),
    }
    let mut job2 = http_job();
    job2.header = data(&[("x-ok", "a\nb")]);
    match job2.make_task(data(&[("P", "q")]), &data(&[])) {
        Err(ApiError::ReqwestError(_)) => (),
        _ => panic!("expected a header value error"),
    }
}

fn http_task() -> HttpTask {
    HttpTask {
        url: "http://host/x".to_string(),
        method: "GET".to_string(),
        header: Vec::new(),
        folder: "dl".to_string(),
        save_path: "dl/x.bin".to_string(),
    }
}

#[test]
fn existing_output_skips_the_fetch() {
    // running the same resolved task again once the file exists makes
    // no network call, both times
    let plan1 = http_task().pre_plan(true, false);
    assert!(!plan1.fetch);
    assert_eq!(plan1.ops.len(), 1);
    assert!(matches!(&plan1.ops[0], FsOp::EnsureDir(d) if d == "dl"));
    let plan2 = http_task().pre_plan(true, true);
    assert!(!plan2.fetch);
}

#[test]
fn stale_tmp_is_cleared_before_a_fetch() {
    let plan = http_task().pre_plan(false, true);
    assert!(plan.fetch);
    assert_eq!(plan.ops.len(), 2);
    assert!(matches!(&plan.ops[1], FsOp::RemoveFile(p) if p == "dl/x.bin.tmp"));
}

#[test]
fn raw_bodies_are_written_to_tmp_then_renamed() {
    let body = vec![1u8, 2, 3];
    let ops = http_task()
        .post_plan(true, &Some("application/octet-stream".to_string()), body.clone())
        .unwrap();
    assert_eq!(ops.len(), 2);
    assert!(matches!(&ops[0], FsOp::WriteFile(p, c) if p == "dl/x.bin.tmp" && *c == body));
    assert!(matches!(&ops[1], FsOp::Rename(f, t) if f == "dl/x.bin.tmp" && t == "dl/x.bin"));
}

#[test]
fn json_bodies_are_pretty_printed_with_their_charset() {
    // Shift_JIS bytes of {"a":"あ"}
    let body = vec![b'{', b'"', b'a', b'"', b':', b'"', 0x82, 0xa0, b'"', b'}'];
    let ops = http_task()
        .post_plan(true, &Some("application/json; charset=shift_jis".to_string()), body)
        .unwrap();
    match &ops[0] {
        FsOp::WriteFile(p, c) => {
            assert_eq!(p, "dl/x.bin.tmp");
            let text = String::from_utf8(c.clone()).unwrap();
            assert_eq!(text, "{\n  \"a\": \"\u{3042}\"\n}");
        },
        _ => panic!("expected the temporary write"),
    }
}

#[test]
fn malformed_json_bodies_fail_softly_per_task() {
    let r = http_task().post_plan(true, &Some("application/json".to_string()), b"{oops".to_vec());
    match r {
        Err(ApiError::JsonError(_)) => (),
        _ => panic!("expected a JSON error"),
    }
}

#[test]
fn non_success_status_writes_nothing() {
    let ops = http_task().post_plan(false, &Some("application/json".to_string()), vec![1]).unwrap();
    assert_eq!(ops.len(), 0);
}

#[test]
fn shell_make_task_resolves_every_field() {
    let job = ShellJob {
        shell: "{{SH}}".to_string(),
        args: vec!["-c".to_string(), "echo {{N}}".to_string()],
        working_dir: "wd/{{N}}".to_string(),
        encoding: "utf-8".to_string(),
    };
    let env = data(&[("SH", "sh"), ("N", "7")]);
    match job.make_task(env).unwrap() {
        Task::ShellTask(st) => {
            assert_eq!(st.shell, "sh");
            assert_eq!(st.args, vec!["-c".to_string(), "echo 7".to_string()]);
            assert_eq!(st.working_dir, "wd/7");
            assert_eq!(st.encoding, "utf-8");
        },
        _ => panic!("wrong task kind"),
    }
}

#[test]
fn shell_output_is_decoded_by_label() {
    let st = ShellTask {
        shell: "sh".to_string(),
        args: vec![],
        working_dir: ".".to_string(),
        encoding: "shift_jis".to_string(),
    };
    assert_eq!(st.decode_output(&[0x82, 0xa0]), "\u{3042}");
    let utf = ShellTask { encoding: "nosuchlabel".to_string(), ..st };
    assert_eq!(utf.decode_output("plain".as_bytes()), "plain");
}

#[test]
fn task_descriptions_name_the_output_or_the_command() {
    let t = Task::HttpTask(http_task());
    assert_eq!(t.describe(), "dl/x.bin");
    let s = Task::ShellTask(ShellTask {
        shell: "sh".to_string(),
        args: vec!["-c".to_string(), "ls".to_string()],
        working_dir: ".".to_string(),
        encoding: "utf-8".to_string(),
    });
    assert_eq!(s.describe(), "sh [\"-c\", \"ls\"]");
}

#[test]
fn visible_div_wraps_by_guessed_type() {
    let img = visible_div("pic", "photo.jpg");
    assert_eq!(
        img,
        "<div class=\"image pic\">\n            <img src=\"photo.jpg\" loading=\"lazy\" alt=\"photo.jpg\">\n        <div>"
    );
    let plain = visible_div("k", "hello");
    assert_eq!(plain, "<div class=\"k\">hello</div>");
    let audio = visible_div("snd", "x.mp3");
    assert!(audio.starts_with("<div class=\"audio snd\">"));
}

#[test]
fn html_pre_process_caches_the_template_once() {
    let dir = tempfile::tempdir().unwrap();
    let mut f = tempfile::Builder::new().suffix(".html").tempfile_in(dir.path()).unwrap();
    f.write_all(b"Hello {{TITLE}}").unwrap();
    f.flush().unwrap();
    let mut job = Job::HtmlJob(HtmlJob {
        json_map: vec![],
        output_template_file: f.path().to_str().unwrap().to_string(),
        output_template: None,
        filename: "page.html".to_string(),
        output: "site".to_string(),
    });
    assert!(job.pre_process().is_ok());
    match &job {
        Job::HtmlJob(j) => assert_eq!(j.output_template.as_deref(), Some("Hello {{TITLE}}")),
        _ => panic!("kind changed"),
    }
}

#[test]
fn html_pre_process_fails_the_run_when_the_template_is_missing() {
    let mut job = HtmlJob {
        json_map: vec![],
        output_template_file: "/nonexistent/template.html".to_string(),
        output_template: None,
        filename: "p".to_string(),
        output: "o".to_string(),
    };
    match job.pre_process() {
        Err(ApiError::CrawlerError(_)) => (),
        _ => panic!("expected a pre-process failure"),
    }
}

fn html_task() -> HtmlTask {
    HtmlTask {
        cur_env: data(&[
            ("TITLE", "T"),
            ("ITEMS", "[{\"t\":\"hello\"},{\"t\":\"world\"}]"),
        ]),
        html_template: "A{{TITLE}}B".to_string(),
        json_map: vec![("ITEMS".to_string(), vec![("t".to_string(), "$.t".to_string())])],
        folder: "site".to_string(),
        save_path: "site/page.html".to_string(),
    }
}

#[test]
fn html_render_resolves_the_template() {
    assert_eq!(html_task().render_content().unwrap(), "ATB");
}

#[test]
fn html_rows_replace_the_source_context_value() {
    let mut t = html_task();
    t.html_template = "{{{ITEMS}}}".to_string();
    let out = t.render_content().unwrap();
    assert!(out.contains("<div class=\"row\">"));
    assert!(out.contains("<div class=\"t\">hello</div>"));
    assert!(out.contains("<div class=\"t\">world</div>"));
}

#[test]
fn html_plan_rewrites_destructively_but_atomically() {
    let ops = html_task().run_plan(true, true).unwrap();
    assert_eq!(ops.len(), 5);
    assert!(matches!(&ops[0], FsOp::EnsureDir(d) if d == "site"));
    assert!(matches!(&ops[1], FsOp::RemoveFile(p) if p == "site/page.html"));
    assert!(matches!(&ops[2], FsOp::RemoveFile(p) if p == "site/page.html.tmp"));
    assert!(matches!(&ops[3], FsOp::WriteText(p, c) if p == "site/page.html.tmp" && c == "ATB"));
    assert!(matches!(&ops[4], FsOp::Rename(f, t) if f == "site/page.html.tmp" && t == "site/page.html"));
}

#[test]
fn html_make_task_requires_the_cached_template() {
    let job = HtmlJob {
        json_map: vec![],
        output_template_file: "t.html".to_string(),
        output_template: None,
        filename: "p.html".to_string(),
        output: "o".to_string(),
    };
    match job.make_task(data(&[])) {
        Err(ApiError::CrawlerError(_)) => (),
        _ => panic!("expected the missing-template error"),
    }
}

#[test]
fn method_matching_is_case_sensitive() {
    let mut t = http_task();
    t.method = "POST".to_string();
    assert!(t.is_post());
    t.method = "post".to_string();
    assert!(!t.is_post());
    t.method = "GET".to_string();
    assert!(!t.is_post());
}

#[test]
fn json_bodies_default_to_utf8_when_no_charset_is_given() {
    let body = "{\"k\":\"caf\u{e9}\"}".as_bytes().to_vec();
    let ops = http_task()
        .post_plan(true, &Some("application/json".to_string()), body)
        .unwrap();
    match &ops[0] {
        FsOp::WriteFile(_, c) => {
            let text = String::from_utf8(c.clone()).unwrap();
            assert_eq!(text, "{\n  \"k\": \"caf\u{e9}\"\n}");
        },
        _ => panic!("expected the temporary write"),
    }
}

#[test]
fn an_unparsable_content_type_stores_the_raw_body() {
    let body = vec![9u8, 8, 7];
    let ops = http_task().post_plan(true, &Some("not a mime".to_string()), body.clone()).unwrap();
    assert!(matches!(&ops[0], FsOp::WriteFile(_, c) if *c == body));
}

#[test]
fn shell_description_escapes_quotes_and_backslashes() {
    let s = Task::ShellTask(ShellTask {
        shell: "sh".to_string(),
        args: vec!["a\"b\\".to_string(), "x\ny".to_string()],
        working_dir: ".".to_string(),
        encoding: "utf-8".to_string(),
    });
    assert_eq!(s.describe(), "sh [\"a\\\"b\\\\\", \"x\\ny\"]");
}

#[test]
fn row_fragments_skip_underscored_labels() {
    let row = data(&[("_hide", "x"), ("t", "hello")]);
    let env = data(&[]);
    let frag = build_row(&row, &env).unwrap();
    assert_eq!(frag, "<div class=\"row\">\n<div class=\"t\">hello</div>\n</div>\n");
}
