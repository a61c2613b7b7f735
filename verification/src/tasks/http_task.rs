//! The HTTP job: fetch a resolved URL with resolved headers and store
//! the body at a resolved path, idempotently and atomically.

use vstd::prelude::*;

use crate::ctx::ItemData;
use crate::models::ApiError;
use crate::tasks::task::{writes_only_tmp, FsOp, Task};
use crate::text::{first_at, lemma_first_at_found, lemma_first_at_none, join_path_spec, join_path,
    match_at, tmp_path_spec, tmp_path, find_sub};
use crate::utils::{get_handlebars, get_handlebars_safe_dir, render_of, sanitize_env_spec,
    sanitize_name, sanitized_of};

verus! {

/// Declarative HTTP job: URL, method, extra headers and templated file
/// placement.
pub struct HttpJob {
    pub url: String,
    pub method: String,
    pub header: ItemData,
    pub filename: String,
    pub output: String,
}

/// One resolved HTTP fetch. The resolved headers keep their insertion
/// order: global headers first, then the job's own, so a later entry
/// overrides an earlier one of the same name when the request is built.
pub struct HttpTask {
    pub url: String,
    pub method: String,
    pub header: Vec<(String, String)>,
    pub folder: String,
    pub save_path: String,
}

/// Whether the text is a legal header name; a function of the text.
pub uninterp spec fn is_header_name(s: Seq<char>) -> bool;

/// Relies on http's HeaderName::from_str, as reqwest re-exports it: the
/// test a header name must pass before a request can carry it.
#[verifier::external_body]
fn header_name_ok(s: &str) -> (r: bool)
    ensures
        r == is_header_name(s@),
{
    <reqwest::header::HeaderName as core::str::FromStr>::from_str(s).is_ok()
}

/// Whether the text is a legal header value; a function of the text.
pub uninterp spec fn is_header_value(s: Seq<char>) -> bool;

/// Relies on http's HeaderValue::from_str, as reqwest re-exports it: the
/// test a header value must pass before a request can carry it.
#[verifier::external_body]
fn header_value_ok(s: &str) -> (r: bool)
    ensures
        r == is_header_value(s@),
{
    <reqwest::header::HeaderValue as core::str::FromStr>::from_str(s).is_ok()
}

/// One header entry is acceptable under the context: its name is legal
/// and its value template resolves to a legal value.
pub open spec fn hdr_ok(k: Seq<char>, v: Seq<char>, env: Map<Seq<char>, Seq<char>>) -> bool {
    is_header_name(k) && (render_of(v, env) matches Some(nv) && is_header_value(nv))
}

/// The resolved form of one header list entry.
pub open spec fn hdr_resolved(
    k: Seq<char>,
    v: Seq<char>,
    env: Map<Seq<char>, Seq<char>>,
    out: (String, String),
) -> bool {
    out.0@ == k && render_of(v, env) == Some(out.1@)
}

fn resolve_header_list(
    src: &ItemData,
    env: &ItemData,
    out: &mut Vec<(String, String)>,
) -> (r: Result<(), ApiError>)
    requires
        src.wf(),
        env.wf(),
    ensures
        match r {
            Ok(_) => final(out)@.len() == old(out)@.len() + src.pairs@.len() && (forall|t: int|
                0 <= t < old(out)@.len() ==> final(out)@[t] == old(out)@[t]) && (forall|t: int|
                0 <= t < src.pairs@.len() ==> hdr_ok(
                    (#[trigger] src.pairs@[t]).0@,
                    src.pairs@[t].1@,
                    env@,
                ) && hdr_resolved(
                    src.pairs@[t].0@,
                    src.pairs@[t].1@,
                    env@,
                    final(out)@[old(out)@.len() + t],
                )),
            Err(e) => (exists|t: int|
                0 <= t < src.pairs@.len() && !hdr_ok(
                    (#[trigger] src.pairs@[t]).0@,
                    src.pairs@[t].1@,
                    env@,
                )) && (e matches ApiError::ReqwestError(_) || e matches ApiError::TemplateError(_)),
        },
{
    let n = src.pairs.len();
    let ghost base = out@.len();
    let mut i: usize = 0;
    while i < n
        invariant
            0 <= i <= n,
            n == src.pairs@.len(),
            src.wf(),
            env.wf(),
            out@.len() == base + i,
            forall|t: int| 0 <= t < base ==> out@[t] == old(out)@[t],
            base == old(out)@.len(),
            forall|t: int|
                0 <= t < i ==> hdr_ok((#[trigger] src.pairs@[t]).0@, src.pairs@[t].1@, env@)
                    && hdr_resolved(src.pairs@[t].0@, src.pairs@[t].1@, env@, out@[base + t]),
        decreases n - i,
    {
        let k = &src.pairs[i].0;
        let v = &src.pairs[i].1;
        if !header_name_ok(k.as_str()) {
            return Err(ApiError::ReqwestError("invalid header name".to_owned()));
        }
        let new_v = match get_handlebars(v.as_str(), env) {
            Ok(s) => s,
            Err(e) => {
                return Err(e);
            },
        };
        if !header_value_ok(new_v.as_str()) {
            return Err(ApiError::ReqwestError("invalid header value".to_owned()));
        }
        out.push((k.clone(), new_v));
        i = i + 1;
    }
    Ok(())
}

/// The task that materializing an HTTP job under a context and global
/// header set must produce: URL rendered, method kept, the resolved
/// header list holding the global entries first and the job's after
/// them (so the job's win when the request map is built), and the
/// output file placed as every kind places it.
pub open spec fn http_resolved(
    job: HttpJob,
    env: Map<Seq<char>, Seq<char>>,
    g_header: Seq<(String, String)>,
    t: Task,
) -> bool {
    t matches Task::HttpTask(ht) && render_of(job.url@, env) == Some(ht.url@) && ht.method@
        == job.method@ && render_of(job.output@, sanitize_env_spec(env)) == Some(ht.folder@) && (
    render_of(job.filename@, env) matches Some(f) && ht.save_path@ == join_path_spec(
        ht.folder@,
        sanitized_of(f),
    )) && ht.header@.len() == g_header.len() + job.header.pairs@.len() && (forall|t2: int|
        0 <= t2 < g_header.len() ==> hdr_ok((#[trigger] g_header[t2]).0@, g_header[t2].1@, env)
            && hdr_resolved(g_header[t2].0@, g_header[t2].1@, env, ht.header@[t2])) && (forall|
        t2: int,
    |
        0 <= t2 < job.header.pairs@.len() ==> hdr_ok(
            (#[trigger] job.header.pairs@[t2]).0@,
            job.header.pairs@[t2].1@,
            env,
        ) && hdr_resolved(
            job.header.pairs@[t2].0@,
            job.header.pairs@[t2].1@,
            env,
            ht.header@[g_header.len() + t2],
        ))
}

/// Why materializing an HTTP job fails: an illegal header name or
/// value among the global or job headers, or a template that does not
/// resolve; on a context where none of that happens, materialization
/// is owed to succeed.
pub open spec fn http_failure(
    job: HttpJob,
    env: Map<Seq<char>, Seq<char>>,
    g_header: Seq<(String, String)>,
    e: ApiError,
) -> bool {
    (e matches ApiError::ReqwestError(_) || e matches ApiError::TemplateError(_)) && (render_of(
        job.url@,
        env,
    ) is None || (exists|t: int|
        0 <= t < g_header.len() && !hdr_ok((#[trigger] g_header[t]).0@, g_header[t].1@, env)) || (
    exists|t: int|
        0 <= t < job.header.pairs@.len() && !hdr_ok(
            (#[trigger] job.header.pairs@[t]).0@,
            job.header.pairs@[t].1@,
            env,
        )) || render_of(job.output@, sanitize_env_spec(env)) is None || render_of(
        job.filename@,
        env,
    ) is None)
}

impl HttpJob {
    /// Nothing to prepare for an HTTP job.
    pub fn pre_process(&mut self) -> (r: Result<(), ApiError>)
        ensures
            r is Ok,
            *final(self) == *old(self),
    {
        Ok(())
    }

    /// Materialize one task: resolve the URL, merge the global headers
    /// with the job's (the job's inserted after, so they win), resolve
    /// every header value, and place the output file.
    pub fn make_task(&self, cur_env: ItemData, g_header: &ItemData) -> (r: Result<Task, ApiError>)
        requires
            cur_env.wf(),
            g_header.wf(),
            self.header.wf(),
        ensures
            match r {
                Ok(t) => http_resolved(*self, cur_env@, g_header.pairs@, t),
                Err(e) => http_failure(*self, cur_env@, g_header.pairs@, e),
            },
    {
        let url = match get_handlebars(self.url.as_str(), &cur_env) {
            Ok(s) => s,
            Err(e) => {
                return Err(e);
            },
        };
        let method = self.method.clone();
        let mut header: Vec<(String, String)> = Vec::new();
        match resolve_header_list(g_header, &cur_env, &mut header) {
            Ok(_) => (),
            Err(e) => {
                return Err(e);
            },
        }
        match resolve_header_list(&self.header, &cur_env, &mut header) {
            Ok(_) => (),
            Err(e) => {
                return Err(e);
            },
        }
        let folder = match get_handlebars_safe_dir(self.output.as_str(), &cur_env) {
            Ok(s) => s,
            Err(e) => {
                return Err(e);
            },
        };
        let fname = match get_handlebars(self.filename.as_str(), &cur_env) {
            Ok(s) => s,
            Err(e) => {
                return Err(e);
            },
        };
        let filename = sanitize_name(fname.as_str());
        let save_path = join_path(folder.as_str(), filename.as_str());
        Ok(Task::HttpTask(HttpTask { url, method, header, folder, save_path }))
    }
}

/// What remains to be done before a fetch is decided on.
pub struct HttpPrePlan {
    pub ops: Vec<FsOp>,
    pub fetch: bool,
}

/// What the media-type parser reports as a content type's essence — its
/// type/subtype with parameters dropped; a function of the text.
pub uninterp spec fn mime_essence_of(s: Seq<char>) -> Option<Seq<char>>;

/// Relies on the mime crate's FromStr and Mime::essence_str: the parsed
/// media type without its parameters.
#[verifier::external_body]
fn mime_essence(ct: &str) -> (r: Option<String>)
    ensures
        match r {
            Some(s) => mime_essence_of(ct@) == Some(s@),
            None => mime_essence_of(ct@) is None,
        },
{
    match ct.parse::<mime::Mime>() {
        Ok(m) => Some(m.essence_str().to_string()),
        Err(_) => None,
    }
}

/// What the byte decoder returns for an encoding label and a byte
/// string, UTF-8 replacing an unknown label; a function of those two.
pub uninterp spec fn decoded_text_of(label: Seq<char>, bytes: Seq<u8>) -> Seq<char>;

/// Relies on encoding_rs::Encoding::for_label (falling back to UTF-8)
/// and decode with replacement, as the JSON response body is read.
#[verifier::external_body]
fn decode_with_label(label: &str, bytes: &[u8]) -> (r: String)
    ensures
        r@ == decoded_text_of(label@, bytes@),
{
    let enc = encoding_rs::Encoding::for_label(label.as_bytes()).unwrap_or(encoding_rs::UTF_8);
    enc.decode(bytes).0.into_owned()
}

/// Whether the reported content type is JSON by its essence.
pub open spec fn is_json_content(ct: Option<Seq<char>>) -> bool {
    ct matches Some(s) && mime_essence_of(s) == Some("application/json"@)
}

/// The charset parameter of a content type: the text after the first
/// "charset=", cut short at the next occurrence if one follows.
pub open spec fn charset_param_spec(ct: Seq<char>) -> Option<Seq<char>> {
    match first_at(ct, "charset="@, 0) {
        None => None,
        Some(i) => {
            let rest = ct.skip(i + "charset="@.len() as int);
            match first_at(rest, "charset="@, 0) {
                None => Some(rest),
                Some(j) => Some(rest.take(j)),
            }
        },
    }
}

/// The encoding label a JSON body is decoded with: the charset
/// parameter, or "utf-8" when the content type carries none.
pub open spec fn json_label_spec(ct: Seq<char>) -> Seq<char> {
    match charset_param_spec(ct) {
        Some(c) => c,
        None => "utf-8"@,
    }
}

/// Read the charset parameter out of a content type.
pub fn charset_after(ct: &str) -> (r: Option<String>)
    ensures
        match r {
            Some(c) => charset_param_spec(ct@) == Some(c@),
            None => charset_param_spec(ct@) is None,
        },
{
    let marker = "charset=";
    let start = match find_sub(ct, marker) {
        Some(i) => i,
        None => {
            proof {
                reveal_strlit("charset=");
                lemma_first_at_none(ct@, "charset="@, 0);
            }
            return None;
        },
    };
    let n = ct.unicode_len();
    proof {
        reveal_strlit("charset=");
        assert(start + 8 <= n);
        lemma_first_at_found(ct@, "charset="@, 0, start as int);
    }
    let after_idx = start + 8;
    let rest = ct.substring_char(after_idx, n);
    proof {
        assert(rest@ =~= ct@.skip(start + 8));
    }
    match find_sub(rest, marker) {
        Some(j) => {
            proof {
                lemma_first_at_found(rest@, "charset="@, 0, j as int);
            }
            let out = rest.substring_char(0, j).to_owned();
            proof {
                assert(out@ =~= rest@.take(j as int));
            }
            Some(out)
        },
        None => {
            proof {
                lemma_first_at_none(rest@, "charset="@, 0);
            }
            Some(rest.to_owned())
        },
    }
}

/// What re-serializing a JSON text pretty-printed yields, as UTF-8
/// bytes: the parsed document printed with two-space indentation, or
/// nothing when the text is not valid JSON; a function of the text
/// alone.
pub uninterp spec fn json_pretty_bytes_of(text: Seq<char>) -> Option<Seq<u8>>;

/// Relies on serde_json::from_str::<Value> followed by
/// to_string_pretty: the stored form of a JSON response body.
#[verifier::external_body]
fn reprint_json_pretty(text: &str) -> (r: Result<Vec<u8>, String>)
    ensures
        match r {
            Ok(c) => json_pretty_bytes_of(text@) == Some(c@),
            Err(_) => json_pretty_bytes_of(text@) is None,
        },
{
    let value: serde_json::Value = match serde_json::from_str(text) {
        Ok(v) => v,
        Err(e) => {
            return Err(e.to_string());
        },
    };
    match serde_json::to_string_pretty(&value) {
        Ok(s) => Ok(s.into_bytes()),
        Err(e) => Err(e.to_string()),
    }
}

impl HttpTask {
    /// Whether the request is sent as a POST: the method text matches
    /// "POST" exactly, case included; anything else is sent as a GET.
    pub fn is_post(&self) -> (r: bool)
        ensures
            r == (self.method@ == "POST"@),
    {
        crate::text::str_eq(self.method.as_str(), "POST")
    }

    /// Decide the steps before any network call: ensure the directory,
    /// skip the fetch when the final file already exists, and clear a
    /// stale temporary file otherwise.
    pub fn pre_plan(&self, final_exists: bool, tmp_exists: bool) -> (r: HttpPrePlan)
        ensures
            r.fetch == !final_exists,
            r.ops@.len() == (if !final_exists && tmp_exists {
                2int
            } else {
                1int
            }),
            r.ops@[0] matches FsOp::EnsureDir(d) && d@ == self.folder@,
            !final_exists && tmp_exists ==> (r.ops@[1] matches FsOp::RemoveFile(p) && p@
                == tmp_path_spec(self.save_path@)),
            writes_only_tmp(r.ops@, self.save_path@),
    {
        let mut ops: Vec<FsOp> = Vec::new();
        ops.push(FsOp::EnsureDir(self.folder.clone()));
        if final_exists {
            return HttpPrePlan { ops, fetch: false };
        }
        if tmp_exists {
            ops.push(FsOp::RemoveFile(tmp_path(self.save_path.as_str())));
        }
        HttpPrePlan { ops, fetch: true }
    }

    /// Decide what to store once the response has arrived: nothing for a
    /// non-success status; for a JSON essence the body is decoded with
    /// the charset parameter ("utf-8" by default), parsed and re-written
    /// pretty-printed, failing exactly when the decoded text is not
    /// valid JSON; any other body is stored raw. Every write goes to the
    /// temporary sibling and is renamed over the final path.
    pub fn post_plan(&self, status_ok: bool, content_type: &Option<String>, bytes: Vec<u8>) -> (r:
        Result<Vec<FsOp>, ApiError>)
        ensures
            match r {
                Ok(ops) => writes_only_tmp(ops@, self.save_path@) && (if !status_ok {
                    ops@.len() == 0
                } else {
                    ops@.len() == 2 && (ops@[0] matches FsOp::WriteFile(p, c) && p@
                        == tmp_path_spec(self.save_path@) && (match content_type {
                        Some(ct) => if is_json_content(Some(ct@)) {
                            json_pretty_bytes_of(
                                decoded_text_of(json_label_spec(ct@), bytes@),
                            ) == Some(c@)
                        } else {
                            c@ == bytes@
                        },
                        None => c@ == bytes@,
                    })) && (ops@[1] matches FsOp::Rename(f, t) && f@ == tmp_path_spec(
                        self.save_path@,
                    ) && t@ == self.save_path@)
                }),
                Err(e) => status_ok && (e matches ApiError::JsonError(_)) && (content_type matches Some(ct)
                    && is_json_content(Some(ct@)) && json_pretty_bytes_of(
                    decoded_text_of(json_label_spec(ct@), bytes@),
                ) is None),
            },
    {
        if !status_ok {
            let ops: Vec<FsOp> = Vec::new();
            return Ok(ops);
        }
        let mut is_json = false;
        let mut charset: Option<String> = None;
        match content_type {
            Some(ct) => {
                charset = charset_after(ct.as_str());
                match mime_essence(ct.as_str()) {
                    Some(essence) => {
                        is_json = crate::text::str_eq(essence.as_str(), "application/json");
                    },
                    None => (),
                }
            },
            None => (),
        }
        let tmp = tmp_path(self.save_path.as_str());
        let mut ops: Vec<FsOp> = Vec::new();
        if is_json {
            let label: String = match charset {
                Some(c) => c,
                None => "utf-8".to_owned(),
            };
            let text = decode_with_label(label.as_str(), bytes.as_slice());
            let formatted = match reprint_json_pretty(text.as_str()) {
                Ok(c) => c,
                Err(m) => {
                    return Err(ApiError::JsonError(m));
                },
            };
            ops.push(FsOp::WriteFile(tmp.clone(), formatted));
        } else {
            ops.push(FsOp::WriteFile(tmp.clone(), bytes));
        }
        ops.push(FsOp::Rename(tmp, self.save_path.clone()));
        Ok(ops)
    }
}

} // verus!
