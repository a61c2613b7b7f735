//! The HTML job: render JSON rows pulled from the context into typed
//! fragments, substitute them into a template read once per step run,
//! and write the page atomically.

use vstd::prelude::*;

use crate::ctx::ItemData;
use crate::fsio::read_text_file;
use crate::models::ApiError;
use crate::tasks::task::{writes_only_tmp, FsOp, Task};
use crate::text::{contains_date, join_path_spec, join_path, name_marks_date, starts_with,
    tmp_path_spec, tmp_path};
use crate::text::parse_i64_spec;
use crate::utils::{chrono_accepts, from_unix_time, get_handlebars, get_handlebars_safe_dir,
    get_json_val, ms_nanos, ms_seconds, render_of, sanitize_env_spec, sanitize_name, sanitized_of};

verus! {

/// Declarative HTML job: per-field JSONPath extraction, the template
/// file to render, and templated file placement. The template text is
/// cached by pre-processing, once per step run.
pub struct HtmlJob {
    pub json_map: Vec<(String, Vec<(String, String)>)>,
    pub output_template_file: String,
    pub output_template: Option<String>,
    pub filename: String,
    pub output: String,
}

/// One resolved HTML render.
pub struct HtmlTask {
    pub cur_env: ItemData,
    pub html_template: String,
    pub json_map: Vec<(String, Vec<(String, String)>)>,
    pub folder: String,
    pub save_path: String,
}

/// An element-wise copy of a field-extraction map.
fn dup_json_map(v: &Vec<(String, Vec<(String, String)>)>) -> (r: Vec<
    (String, Vec<(String, String)>),
>)
    ensures
        r.deep_view() == v.deep_view(),
{
    let n = v.len();
    let mut out: Vec<(String, Vec<(String, String)>)> = Vec::new();
    let mut i: usize = 0;
    while i < n
        invariant
            0 <= i <= n,
            n == v@.len(),
            out@.len() == i,
            forall|t: int| 0 <= t < i ==> (#[trigger] out@[t]).deep_view() == v@[t].deep_view(),
        decreases n - i,
    {
        let m = v[i].1.len();
        let mut inner: Vec<(String, String)> = Vec::new();
        let mut j: usize = 0;
        while j < m
            invariant
                0 <= j <= m,
                0 <= i < n,
                n == v@.len(),
                m == v@[i as int].1@.len(),
                inner@.len() == j,
                forall|t: int|
                    0 <= t < j ==> (#[trigger] inner@[t]).deep_view() == v@[i as int].1@[t].deep_view(),
            decreases m - j,
        {
            inner.push((v[i].1[j].0.clone(), v[i].1[j].1.clone()));
            proof {
                assert(inner@[j as int].deep_view() =~= v@[i as int].1@[j as int].deep_view());
            }
            j = j + 1;
        }
        out.push((v[i].0.clone(), inner));
        proof {
            assert(out@[i as int].deep_view() =~= v@[i as int].deep_view());
        }
        i = i + 1;
    }
    proof {
        assert(r_deep_eq(out@, v@));
        assert(out.deep_view() =~= v.deep_view());
    }
    out
}

spec fn r_deep_eq(a: Seq<(String, Vec<(String, String)>)>, b: Seq<(String, Vec<(String, String)>)>) -> bool {
    a.len() == b.len() && forall|t: int| 0 <= t < a.len() ==> (#[trigger] a[t]).deep_view() == b[t].deep_view()
}

/// The task that materializing an HTML job under a context must
/// produce: the cached template carried over, the extraction map kept,
/// the context carried, and the output file placed as every kind
/// places it.
pub open spec fn html_resolved(job: HtmlJob, env: Map<Seq<char>, Seq<char>>, t: Task) -> bool {
    t matches Task::HtmlTask(ht) && (job.output_template matches Some(tpl) && ht.html_template@
        == tpl@) && ht.cur_env@ == env && ht.cur_env.wf() && ht.json_map.deep_view()
        == job.json_map.deep_view() && render_of(job.output@, sanitize_env_spec(env)) == Some(
        ht.folder@,
    ) && (render_of(job.filename@, env) matches Some(f) && ht.save_path@ == join_path_spec(
        ht.folder@,
        sanitized_of(f),
    ))
}

/// Why materializing an HTML job fails: the template was never cached,
/// or a placement template does not resolve.
pub open spec fn html_failure(job: HtmlJob, env: Map<Seq<char>, Seq<char>>, e: ApiError) -> bool {
    (job.output_template is None && e matches ApiError::CrawlerError(_)) || ((render_of(
        job.output@,
        sanitize_env_spec(env),
    ) is None || render_of(job.filename@, env) is None) && e matches ApiError::TemplateError(_))
}

impl HtmlJob {
    /// Read the template file into the job, exactly once per step run,
    /// before any task is materialized from it.
    pub fn pre_process(&mut self) -> (r: Result<(), ApiError>)
        ensures
            match r {
                Ok(_) => final(self).output_template is Some
                    && final(self).json_map == old(self).json_map
                    && final(self).output_template_file == old(self).output_template_file
                    && final(self).filename == old(self).filename
                    && final(self).output == old(self).output,
                Err(e) => *final(self) == *old(self) && e matches ApiError::CrawlerError(_),
            },
    {
        match read_text_file(self.output_template_file.as_str()) {
            Ok(text) => {
                self.output_template = Some(text);
                Ok(())
            },
            Err(_) => Err(ApiError::CrawlerError("err html_template".to_owned())),
        }
    }

    /// Materialize one task from the cached template and the context.
    pub fn make_task(&self, cur_env: ItemData) -> (r: Result<Task, ApiError>)
        requires
            cur_env.wf(),
        ensures
            match r {
                Ok(t) => html_resolved(*self, cur_env@, t),
                Err(e) => html_failure(*self, cur_env@, e),
            },
    {
        let output_template = match &self.output_template {
            Some(t) => t.clone(),
            None => {
                return Err(ApiError::CrawlerError("no output template".to_owned()));
            },
        };
        let folder = match get_handlebars_safe_dir(self.output.as_str(), &cur_env) {
            Ok(f) => f,
            Err(e) => {
                return Err(e);
            },
        };
        let fname = match get_handlebars(self.filename.as_str(), &cur_env) {
            Ok(f) => f,
            Err(e) => {
                return Err(e);
            },
        };
        let filename = sanitize_name(fname.as_str());
        let save_path = join_path(folder.as_str(), filename.as_str());
        Ok(
            Task::HtmlTask(
                HtmlTask {
                    cur_env,
                    html_template: output_template,
                    json_map: dup_json_map(&self.json_map),
                    folder,
                    save_path,
                },
            ),
        )
    }
}

/// What the extension-based type guesser reports for a path, the
/// generic byte type when nothing matches; a function of the path.
pub uninterp spec fn guessed_mime_of(path: Seq<char>) -> Seq<char>;

/// Relies on mime_guess::from_path and first_or_octet_stream: the media
/// type guessed from the path's extension.
#[verifier::external_body]
fn guess_mime(name: &str) -> (r: String)
    ensures
        r@ == guessed_mime_of(name@),
{
    mime_guess::from_path(name).first_or_octet_stream().to_string()
}

/// The fragment a value is wrapped in, by the media type its apparent
/// file extension suggests: an image tag, a player for video or audio,
/// or a plain labelled division.
pub open spec fn visible_div_spec(key: Seq<char>, name: Seq<char>, mime: Seq<char>) -> Seq<char> {
    if "image/"@.is_prefix_of(mime) {
        "<div class=\"image "@ + key + "\">\n            <img src=\""@ + name
            + "\" loading=\"lazy\" alt=\""@ + name + "\">\n        <div>"@
    } else if "video/"@.is_prefix_of(mime) {
        "<div class=\"video "@ + key + "\">\n            <audio controls=\"\">\n                <source src=\""@
            + name + "\" type=\""@ + mime + "\">\n            </audio>\n        <div>"@
    } else if "audio/"@.is_prefix_of(mime) {
        "<div class=\"audio "@ + key + "\">\n            <audio controls=\"\">\n                <source src=\""@
            + name + "\" type=\""@ + mime + "\">\n            </audio>\n        <div>"@
    } else {
        "<div class=\""@ + key + "\">"@ + name + "</div>"@
    }
}

/// Wrap one extracted value in its typed fragment.
pub fn visible_div(key: &str, name: &str) -> (r: String)
    ensures
        r@ == visible_div_spec(key@, name@, guessed_mime_of(name@)),
{
    let mime = guess_mime(name);
    if starts_with(mime.as_str(), "image/") {
        let mut s = "<div class=\"image ".to_owned();
        s.append(key);
        s.append("\">\n            <img src=\"");
        s.append(name);
        s.append("\" loading=\"lazy\" alt=\"");
        s.append(name);
        s.append("\">\n        <div>");
        s
    } else if starts_with(mime.as_str(), "video/") {
        let mut s = "<div class=\"video ".to_owned();
        s.append(key);
        s.append("\">\n            <audio controls=\"\">\n                <source src=\"");
        s.append(name);
        s.append("\" type=\"");
        s.append(mime.as_str());
        s.append("\">\n            </audio>\n        <div>");
        s
    } else if starts_with(mime.as_str(), "audio/") {
        let mut s = "<div class=\"audio ".to_owned();
        s.append(key);
        s.append("\">\n            <audio controls=\"\">\n                <source src=\"");
        s.append(name);
        s.append("\" type=\"");
        s.append(mime.as_str());
        s.append("\">\n            </audio>\n        <div>");
        s
    } else {
        let mut s = "<div class=\"".to_owned();
        s.append(key);
        s.append("\">");
        s.append(name);
        s.append("</div>");
        s
    }
}

/// A context that row building leaves untouched: no extraction key is
/// bound in it, and no binding's name marks a timestamp. On such a
/// context the page is the template rendered against the context as it
/// stands.
pub open spec fn flat_context(t: HtmlTask) -> bool {
    (forall|i: int|
        0 <= i < t.json_map@.len() ==> !t.cur_env@.contains_key((#[trigger] t.json_map@[i]).0@))
        && (forall|k: Seq<char>| #[trigger] t.cur_env@.dom().contains(k) ==> !contains_date(k))
}

/// Whether a name is one of the task's extraction keys.
pub open spec fn is_extraction_key(t: HtmlTask, k: Seq<char>) -> bool {
    exists|i: int| 0 <= i < t.json_map@.len() && (#[trigger] t.json_map@[i]).0@ == k
}

/// How the render environment relates to the task's context: the same
/// names are bound, and every binding that is neither an extraction
/// key (replaced by its row fragments) nor date-marked (reformatted)
/// keeps its value from the context.
pub open spec fn enriched_env_of(t: HtmlTask, e2: Map<Seq<char>, Seq<char>>) -> bool {
    e2.dom() == t.cur_env@.dom() && (forall|k: Seq<char>|
        #[trigger] e2.contains_key(k) && !is_extraction_key(t, k) && !contains_date(k) ==> e2[k]
            == t.cur_env@[k])
}

/// The views of a field list.
pub open spec fn pairs_views(v: Seq<(String, String)>) -> Seq<(Seq<char>, Seq<char>)> {
    Seq::new(v.len(), |i: int| (v[i].0@, v[i].1@))
}

/// The shown fields of one row, in order: a field whose label starts
/// with an underscore is kept out of the page; every other field's
/// value is rendered against the row environment and wrapped in its
/// typed fragment with a line break after it; nothing when a render
/// fails.
pub open spec fn row_items_spec(
    fields: Seq<(Seq<char>, Seq<char>)>,
    env: Map<Seq<char>, Seq<char>>,
) -> Option<Seq<char>>
    decreases fields.len(),
{
    if fields.len() == 0 {
        Some(Seq::<char>::empty())
    } else {
        match row_items_spec(fields.drop_last(), env) {
            None => None,
            Some(pre) => if "_"@.is_prefix_of(fields.last().0) {
                Some(pre)
            } else {
                match render_of(fields.last().1, env) {
                    None => None,
                    Some(vv) => Some(
                        pre + visible_div_spec(fields.last().0, vv, guessed_mime_of(vv)) + "\n"@,
                    ),
                }
            },
        }
    }
}

/// One row fragment: the opening row division, the shown fields, and
/// the closing tag, each on its own line.
pub open spec fn row_fragment_spec(
    fields: Seq<(Seq<char>, Seq<char>)>,
    env: Map<Seq<char>, Seq<char>>,
) -> Option<Seq<char>> {
    match row_items_spec(fields, env) {
        None => None,
        Some(items) => Some("<div class=\"row\">\n"@ + items + "</div>\n"@),
    }
}

proof fn lemma_row_items_prefix_none(
    fields: Seq<(Seq<char>, Seq<char>)>,
    env: Map<Seq<char>, Seq<char>>,
    j: int,
)
    requires
        0 <= j <= fields.len(),
        row_items_spec(fields.take(j), env) is None,
    ensures
        row_items_spec(fields, env) is None,
    decreases fields.len() - j,
{
    if j == fields.len() {
        assert(fields.take(j) =~= fields);
    } else {
        assert(fields.take(j + 1).drop_last() =~= fields.take(j));
        lemma_row_items_prefix_none(fields, env, j + 1);
    }
}

proof fn lemma_row_none_witness(fields: Seq<(Seq<char>, Seq<char>)>, env: Map<Seq<char>, Seq<char>>)
    requires
        row_items_spec(fields, env) is None,
    ensures
        exists|v: Seq<char>| render_of(v, env) is None,
    decreases fields.len(),
{
    if fields.len() > 0 {
        if row_items_spec(fields.drop_last(), env) is None {
            lemma_row_none_witness(fields.drop_last(), env);
        } else {
            assert(render_of(fields.last().1, env) is None);
        }
    }
}

/// The value one extracted field contributes: the fallback text when
/// extraction produced nothing; otherwise the extracted value, passed
/// through the timestamp reformatter exactly when the label marks a
/// date — reformatted where the calendar accepts the split pair, and
/// kept as it came otherwise.
pub fn field_value(label: &str, extracted: Option<String>, fallback: &str) -> (r: String)
    ensures
        extracted is None ==> r@ == fallback@,
        extracted matches Some(v) ==> (if !contains_date(label@) {
            r@ == v@
        } else {
            match parse_i64_spec(v@) {
                None => r@ == v@,
                Some(ms) => if chrono_accepts(
                    ms_seconds(ms as int) as i64,
                    ms_nanos(ms as int) as u32,
                ) {
                    r@.len() >= 19 && r@[r@.len() - 3] == ':'
                } else {
                    r@ == v@
                },
            }
        }),
{
    match extracted {
        None => fallback.to_owned(),
        Some(vv) => {
            if name_marks_date(label) {
                match from_unix_time(vv.clone()) {
                    Ok(dt) => dt,
                    Err(_) => vv,
                }
            } else {
                vv
            }
        },
    }
}

/// Build one row fragment from an item's extracted fields, rendered
/// against the row environment. This is the whole of what the page
/// builder does with one item's fields.
pub fn build_row(row_map: &ItemData, row_env: &ItemData) -> (r: Result<String, ApiError>)
    ensures
        match r {
            Ok(s) => row_fragment_spec(pairs_views(row_map.pairs@), row_env@) == Some(s@),
            Err(e) => e matches ApiError::TemplateError(_) && row_fragment_spec(
                pairs_views(row_map.pairs@),
                row_env@,
            ) is None,
        },
{
    let ghost fv = pairs_views(row_map.pairs@);
    let n = row_map.pairs.len();
    let mut items = String::new();
    let mut c: usize = 0;
    while c < n
        invariant
            0 <= c <= n,
            n == row_map.pairs@.len(),
            fv == pairs_views(row_map.pairs@),
            row_items_spec(fv.take(c as int), row_env@) == Some(items@),
        decreases n - c,
    {
        let sk = &row_map.pairs[c].0;
        let sv = &row_map.pairs[c].1;
        proof {
            assert(fv.take(c + 1).drop_last() =~= fv.take(c as int));
            assert(fv.take(c + 1).last() == fv[c as int]);
        }
        if !starts_with(sk.as_str(), "_") {
            let vv = match get_handlebars(sv.as_str(), row_env) {
                Ok(t) => t,
                Err(e) => {
                    proof {
                        assert(row_items_spec(fv.take(c + 1), row_env@) is None);
                        lemma_row_items_prefix_none(fv, row_env@, c + 1);
                    }
                    return Err(e);
                },
            };
            let frag = visible_div(sk.as_str(), vv.as_str());
            items.append(frag.as_str());
            items.append("\n");
            proof {
                reveal_strlit("\n");
            }
        }
        proof {
            assert(row_items_spec(fv.take(c + 1), row_env@) == Some(items@));
        }
        c = c + 1;
    }
    proof {
        assert(fv.take(n as int) =~= fv);
    }
    let mut s = "<div class=\"row\">\n".to_owned();
    s.append(items.as_str());
    s.append("</div>\n");
    Ok(s)
}

impl HtmlTask {
    /// Build the page: for every extraction entry, parse the context
    /// value as a JSON array, build one row fragment per element from
    /// its declared (label, path) pairs — labels containing "date" are
    /// reformatted from millisecond timestamps, labels starting with an
    /// underscore are kept out of the page — replace the context value
    /// with the concatenated rows, reformat the remaining date-marked
    /// context values, and render the template against the result.
    /// Failure happens only because some render failed; on a context
    /// that row building leaves untouched, the result is exactly the
    /// template rendered against that context.
    pub fn render_content(&self) -> (r: Result<String, ApiError>)
        requires
            self.cur_env.wf(),
        ensures
            match r {
                Ok(out) => exists|e2: Map<Seq<char>, Seq<char>>|
                    enriched_env_of(*self, e2) && #[trigger] render_of(self.html_template@, e2)
                        == Some(out@),
                Err(e) => e matches ApiError::TemplateError(_) && (exists|
                    t2: Seq<char>,
                    e2: Map<Seq<char>, Seq<char>>,
                |
                    render_of(t2, e2) is None),
            },
            flat_context(*self) ==> (match r {
                Ok(out) => render_of(self.html_template@, self.cur_env@) == Some(out@),
                Err(_) => render_of(self.html_template@, self.cur_env@) is None,
            }),
    {
        let ghost flat = flat_context(*self);
        let mut env = self.cur_env.duplicate();
        let n = self.json_map.len();
        let mut i: usize = 0;
        while i < n
            invariant
                0 <= i <= n,
                n == self.json_map@.len(),
                env.wf(),
                self.cur_env.wf(),
                flat == flat_context(*self),
                flat ==> env@ == self.cur_env@,
                env@.dom() == self.cur_env@.dom(),
                forall|k2: Seq<char>|
                    #[trigger] env@.contains_key(k2) && !is_extraction_key(*self, k2)
                        ==> env@[k2] == self.cur_env@[k2],
            decreases n - i,
        {
            let k = &self.json_map[i].0;
            let v = &self.json_map[i].1;
            let json_str: Option<String> = match env.get(k.as_str()) {
                Some(s) => Some(s.clone()),
                None => None,
            };
            match json_str {
                None => (),
                Some(json_str) => {
                    proof {
                        if flat {
                            assert(!self.cur_env@.contains_key(self.json_map@[i as int].0@));
                            assert(false);
                        }
                    }
                    match crate::jsonio::parse_json_array(json_str.as_str()) {
                        Err(_) => (),
                        Ok(vec_json) => {
                            let mut s = String::new();
                            let al = vec_json.len();
                            let mut a: usize = 0;
                            while a < al
                                invariant
                                    al == vec_json@.len(),
                                    env.wf(),
                                    !flat_context(*self),
                                decreases al - a,
                            {
                                let mut row_map = ItemData::new();
                                let m = v.len();
                                let mut b: usize = 0;
                                while b < m
                                    invariant
                                        m == v@.len(),
                                        a < vec_json@.len(),
                                        row_map.wf(),
                                    decreases m - b,
                                {
                                    let sk = &v[b].0;
                                    let sv = &v[b].1;
                                    let extracted = get_json_val(&vec_json[a], sv.as_str());
                                    let vv2 = field_value(sk.as_str(), extracted, sv.as_str());
                                    row_map.insert_pair(sk.clone(), vv2);
                                    b = b + 1;
                                }
                                let mut row_env = env.duplicate();
                                row_env.extend_with(&row_map);
                                let frag = match build_row(&row_map, &row_env) {
                                    Ok(f) => f,
                                    Err(e) => {
                                        proof {
                                            lemma_row_none_witness(
                                                pairs_views(row_map.pairs@),
                                                row_env@,
                                            );
                                        }
                                        return Err(e);
                                    },
                                };
                                s.append(frag.as_str());
                                a = a + 1;
                            }
                            let ghost pre_env = env@;
                            env.insert_pair(k.clone(), s);
                            proof {
                                assert(pre_env.contains_key(k@));
                                assert(env@.dom() =~= self.cur_env@.dom());
                                assert(is_extraction_key(*self, k@)) by {
                                    assert(0 <= i < self.json_map@.len()
                                        && self.json_map@[i as int].0@ == k@);
                                }
                                assert forall|k2: Seq<char>|
                                    #[trigger] env@.contains_key(k2) && !is_extraction_key(
                                    *self,
                                    k2,
                                ) implies env@[k2] == self.cur_env@[k2] by {
                                    assert(k2 != k@);
                                    assert(env@[k2] == pre_env[k2]);
                                }
                            }
                        },
                    }
                },
            }
            i = i + 1;
        }
        let count = env.count();
        let mut env2 = ItemData::new();
        let mut t: usize = 0;
        while t < count
            invariant
                0 <= t <= count,
                count == env.pairs@.len(),
                env.wf(),
                env2.wf(),
                flat == flat_context(*self),
                flat ==> env@ == self.cur_env@,
                flat ==> env2@ == crate::ctx::pairs_map(env.pairs@.take(t as int)),
                env@.dom() == self.cur_env@.dom(),
                forall|k2: Seq<char>|
                    #[trigger] env@.contains_key(k2) && !is_extraction_key(*self, k2)
                        ==> env@[k2] == self.cur_env@[k2],
                env2@.dom() == crate::ctx::pairs_map(env.pairs@.take(t as int)).dom(),
                forall|k2: Seq<char>|
                    #[trigger] env2@.contains_key(k2) && !contains_date(k2)
                        ==> env@.contains_key(k2) && env2@[k2] == env@[k2],
            decreases count - t,
        {
            let k = env.pairs[t].0.clone();
            let v = env.pairs[t].1.clone();
            proof {
                crate::ctx::lemma_pairs_map_index(env.pairs@, t as int);
                assert(env@.contains_key(k@) && env@[k@] == v@);
                if flat {
                    assert(self.cur_env@.dom().contains(k@));
                    assert(!contains_date(k@));
                }
            }
            let v2: String = field_value(k.as_str(), Some(v), "");
            let ghost pre2 = env2@;
            env2.insert_pair(k, v2);
            proof {
                assert(env.pairs@.take(t + 1).drop_last() =~= env.pairs@.take(t as int));
                if flat {
                    assert(env2@ == crate::ctx::pairs_map(env.pairs@.take(t + 1)));
                }
                assert(env2@.dom() =~= crate::ctx::pairs_map(env.pairs@.take(t + 1)).dom());
                assert forall|k2: Seq<char>|
                    #[trigger] env2@.contains_key(k2) && !contains_date(k2) implies
                env@.contains_key(k2) && env2@[k2] == env@[k2] by {
                    if k2 == k@ {
                        assert(!contains_date(k@));
                        assert(v2@ == v@);
                    } else {
                        assert(env2@[k2] == pre2[k2]);
                    }
                }
            }
            t = t + 1;
        }
        proof {
            assert(env.pairs@.take(count as int) =~= env.pairs@);
            if flat {
                assert(env2@ == env@);
            }
            assert(env2@.dom() =~= self.cur_env@.dom());
            assert(enriched_env_of(*self, env2@)) by {
                assert forall|k2: Seq<char>|
                    #[trigger] env2@.contains_key(k2) && !is_extraction_key(*self, k2)
                        && !contains_date(k2) implies env2@[k2] == self.cur_env@[k2] by {
                    assert(env2@[k2] == env@[k2]);
                }
            }
        }
        match get_handlebars(self.html_template.as_str(), &env2) {
            Ok(out) => {
                proof {
                    assert(enriched_env_of(*self, env2@) && render_of(self.html_template@, env2@)
                        == Some(out@));
                    if flat {
                        assert(render_of(self.html_template@, self.cur_env@) == Some(out@));
                    }
                }
                Ok(out)
            },
            Err(e) => {
                proof {
                    assert(render_of(self.html_template@, env2@) is None);
                }
                Err(e)
            },
        }
    }

    /// Decide the whole execution: ensure the directory, delete an
    /// existing final file (re-rendering always proceeds, unlike the
    /// HTTP kind's idempotent skip) and any stale temporary file, then
    /// write the rendered page to the temporary sibling and rename it
    /// over the final path. Every op is pinned: nothing but the final
    /// path and its sibling is deleted, fresh bytes go only to the
    /// sibling, and the final path appears only as the rename target.
    pub fn run_plan(&self, final_exists: bool, tmp_exists: bool) -> (r: Result<
        Vec<FsOp>,
        ApiError,
    >)
        requires
            self.cur_env.wf(),
        ensures
            match r {
                Ok(ops) => writes_only_tmp(ops@, self.save_path@) && ops@.len() == 3 + (if final_exists {
                    1int
                } else {
                    0int
                }) + (if tmp_exists {
                    1int
                } else {
                    0int
                }) && (ops@[0] matches FsOp::EnsureDir(d) && d@ == self.folder@) && (final_exists
                    ==> (ops@[1] matches FsOp::RemoveFile(p) && p@ == self.save_path@)) && (
                tmp_exists ==> (ops@[if final_exists {
                    2int
                } else {
                    1int
                }] matches FsOp::RemoveFile(p) && p@ == tmp_path_spec(self.save_path@))) && (
                ops@[ops@.len() - 2] matches FsOp::WriteText(p, c) && p@ == tmp_path_spec(
                    self.save_path@,
                ) && (exists|e2: Map<Seq<char>, Seq<char>>|
                    enriched_env_of(*self, e2) && #[trigger] render_of(self.html_template@, e2)
                        == Some(c@)) && (flat_context(*self) ==> render_of(
                    self.html_template@,
                    self.cur_env@,
                ) == Some(c@))) && (ops@[ops@.len() - 1] matches FsOp::Rename(f, t2) && f@
                    == tmp_path_spec(self.save_path@) && t2@ == self.save_path@),
                Err(e) => e matches ApiError::TemplateError(_) && (exists|
                    t2: Seq<char>,
                    e2: Map<Seq<char>, Seq<char>>,
                |
                    render_of(t2, e2) is None),
            },
            flat_context(*self) ==> (r is Ok <==> render_of(self.html_template@, self.cur_env@) is Some),
    {
        let content = match self.render_content() {
            Ok(c) => c,
            Err(e) => {
                return Err(e);
            },
        };
        let tmp = tmp_path(self.save_path.as_str());
        let mut ops: Vec<FsOp> = Vec::new();
        ops.push(FsOp::EnsureDir(self.folder.clone()));
        if final_exists {
            ops.push(FsOp::RemoveFile(self.save_path.clone()));
        }
        if tmp_exists {
            ops.push(FsOp::RemoveFile(tmp.clone()));
        }
        ops.push(FsOp::WriteText(tmp.clone(), content));
        ops.push(FsOp::Rename(tmp, self.save_path.clone()));
        Ok(ops)
    }
}

} // verus!
