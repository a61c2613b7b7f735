//! Template resolution, file-name sanitizing, JSONPath scalar extraction
//! and timestamp reformatting — the shared helpers of job materialization
//! and the HTML renderer.

use vstd::map::*;
use vstd::prelude::*;

use crate::ctx::ItemData;
use crate::models::ApiError;
use crate::text::{is_digit, parse_i64, parse_i64_spec, trim_spec, trim_str};

verus! {

/// What the templating engine returns for a template and a binding map,
/// when it succeeds; rendering depends on those two alone.
pub uninterp spec fn render_of(tpl: Seq<char>, env: Map<Seq<char>, Seq<char>>) -> Option<
    Seq<char>,
>;

/// Relies on handlebars (register_template_string, then render) with its
/// defaults: {{name}} substitution from the data map, raw text kept
/// verbatim; in particular a template made of digits alone comes back
/// unchanged. The bindings are handed over as an ordered map, so that a
/// template iterating the data sees one fixed order and the render is a
/// function of the template and the key-to-value map alone.
#[verifier::external_body]
fn hb_render(tpl: &str, env: &ItemData) -> (r: Result<String, String>)
    ensures
        match r {
            Ok(s) => render_of(tpl@, env@) == Some(s@) && ((forall|k: int|
                0 <= k < tpl@.len() ==> is_digit(#[trigger] tpl@[k])) ==> s@ == tpl@),
            Err(_) => render_of(tpl@, env@) is None && !(forall|k: int|
                0 <= k < tpl@.len() ==> is_digit(#[trigger] tpl@[k])),
        },
{
    let mut hb = handlebars::Handlebars::new();
    if let Err(e) = hb.register_template_string("t", tpl) {
        return Err(e.to_string());
    }
    let data: std::collections::BTreeMap<String, String> = env.pairs.iter().cloned().collect();
    match hb.render("t", &data) {
        Ok(s) => Ok(s),
        Err(e) => Err(e.to_string()),
    }
}

/// What the file-name sanitizer returns; it depends on its input alone.
pub uninterp spec fn sanitized_of(s: Seq<char>) -> Seq<char>;

/// Relies on sanitize_filename::sanitize with its default options: the
/// input with characters illegal in file names removed, truncated to
/// the 255-byte file-name cap.
#[verifier::external_body]
pub fn sanitize_name(s: &str) -> (r: String)
    ensures
        r@ == sanitized_of(s@),
{
    sanitize_filename::sanitize(s)
}

/// Resolve a template against the context.
pub fn get_handlebars(s: &str, env: &ItemData) -> (r: Result<String, ApiError>)
    ensures
        match r {
            Ok(t) => render_of(s@, env@) == Some(t@),
            Err(e) => render_of(s@, env@) is None && e matches ApiError::TemplateError(_),
        },
        (forall|k: int| 0 <= k < s@.len() ==> is_digit(#[trigger] s@[k])) ==> (r matches Ok(t)
            && t@ == s@),
{
    match hb_render(s, env) {
        Ok(t) => Ok(t),
        Err(m) => Err(ApiError::TemplateError(m)),
    }
}

/// The context with every value passed through the sanitizer, as the
/// output-directory templates see it.
pub open spec fn sanitize_env_spec(m: Map<Seq<char>, Seq<char>>) -> Map<Seq<char>, Seq<char>> {
    Map::new(|k: Seq<char>| m.dom().contains(k), |k: Seq<char>| sanitized_of(m[k]))
}

/// Resolve a template against the context with every value sanitized, so
/// that context values cannot place separators inside a directory name.
pub fn get_handlebars_safe_dir(s: &str, env: &ItemData) -> (r: Result<String, ApiError>)
    requires
        env.wf(),
    ensures
        match r {
            Ok(t) => render_of(s@, sanitize_env_spec(env@)) == Some(t@),
            Err(e) => render_of(s@, sanitize_env_spec(env@)) is None && e matches ApiError::TemplateError(_),
        },
{
    let n = env.pairs.len();
    let mut sani = ItemData::new();
    let mut i: usize = 0;
    while i < n
        invariant
            0 <= i <= n,
            n == env.pairs@.len(),
            env.wf(),
            sani.wf(),
            sani@ == sanitize_env_spec(crate::ctx::pairs_map(env.pairs@.take(i as int))),
        decreases n - i,
    {
        let k = env.pairs[i].0.clone();
        let v = sanitize_name(env.pairs[i].1.as_str());
        sani.insert_pair(k, v);
        proof {
            let prefix = crate::ctx::pairs_map(env.pairs@.take(i as int));
            let nxt = crate::ctx::pairs_map(env.pairs@.take(i + 1));
            assert(env.pairs@.take(i + 1).drop_last() =~= env.pairs@.take(i as int));
            assert(nxt == prefix.insert(env.pairs@[i as int].0@, env.pairs@[i as int].1@));
            assert(sani@ =~= sanitize_env_spec(nxt));
        }
        i = i + 1;
    }
    proof {
        assert(env.pairs@.take(n as int) =~= env.pairs@);
    }
    match hb_render(s, &sani) {
        Ok(t) => Ok(t),
        Err(m) => Err(ApiError::TemplateError(m)),
    }
}

/// Extract one scalar through a JSONPath: the first selected value, a
/// string's own content or any other value's serialization, trimmed of
/// surrounding whitespace.
pub fn get_json_val(json: &serde_json::Value, path: &str) -> (r: Option<String>)
    ensures
        r matches Some(v) ==> v@ == trim_spec(v@),
{
    let vals = match crate::jsonio::select_values(json, path) {
        Ok(vals) => vals,
        Err(_) => {
            return None;
        },
    };
    if vals.len() == 0 {
        return None;
    }
    let first = &vals[0];
    match crate::jsonio::value_as_string(first) {
        Some(s) => {
            let t = trim_str(s.as_str());
            proof {
                crate::text::lemma_trim_idempotent(s@);
            }
            Some(t)
        },
        None => {
            let raw = crate::jsonio::value_to_string(first);
            let t = trim_str(raw.as_str());
            proof {
                crate::text::lemma_trim_idempotent(raw@);
            }
            Some(t)
        },
    }
}

/// Whether the calendar accepts a seconds/nanoseconds pair: within the
/// representable year range, with a valid nanosecond count. A function
/// of the pair alone; the machine's time zone plays no part in it.
pub uninterp spec fn chrono_accepts(sec: i64, nano: u32) -> bool;

/// Relies on chrono's DateTime::from_timestamp and the Local timezone's
/// "%Y-%m-%d %H:%M:%S" formatting. Whether anything comes back is the
/// calendar's acceptance of the pair; the text itself depends on the
/// machine's time zone and is pinned only to the format's fixed shape —
/// it ends in a colon-separated two-digit seconds field.
#[verifier::external_body]
fn format_local_timestamp(sec: i64, nano: u32) -> (r: Option<String>)
    ensures
        r is Some <==> chrono_accepts(sec, nano),
        r matches Some(t) ==> t@.len() >= 19 && t@[t@.len() - 3] == ':',
{
    let dt = chrono::DateTime::<chrono::Utc>::from_timestamp(sec, nano)?;
    Some(dt.with_timezone(&chrono::Local).format("%Y-%m-%d %H:%M:%S").to_string())
}

/// The whole seconds of a millisecond count, rounded toward zero.
pub open spec fn ms_seconds(ms: int) -> int {
    if ms >= 0 {
        ms / 1000
    } else {
        0 - ((0 - ms) / 1000)
    }
}

/// The sub-second part of a millisecond count as the nanosecond value
/// the calendar is asked about: non-negative remainders scale up, and
/// a negative remainder wraps around the 32-bit field it is stored in.
pub open spec fn ms_nanos(ms: int) -> int {
    if ms >= 0 {
        (ms % 1000) * 1_000_000
    } else if (0 - ms) % 1000 == 0 {
        0
    } else {
        0x1_0000_0000 - ((0 - ms) % 1000) * 1_000_000
    }
}

/// Reformat a millisecond Unix timestamp to local time: an error
/// exactly when the text is not an integer; the input handed back
/// exactly when the calendar rejects the split pair; otherwise the
/// formatter's local-time text.
pub fn from_unix_time(s: String) -> (r: Result<String, ApiError>)
    ensures
        match r {
            Ok(t) => parse_i64_spec(s@) matches Some(ms) && (if chrono_accepts(
                ms_seconds(ms as int) as i64,
                ms_nanos(ms as int) as u32,
            ) {
                t@.len() >= 19 && t@[t@.len() - 3] == ':'
            } else {
                t@ == s@
            }),
            Err(e) => parse_i64_spec(s@) is None && e matches ApiError::ParseError(_),
        },
{
    let ms = match parse_i64(s.as_str()) {
        Some(ms) => ms,
        None => {
            return Err(ApiError::ParseError("invalid integer".to_owned()));
        },
    };
    if ms >= 0 {
        let mag = ms as u64;
        let sec = (mag / 1000) as i64;
        let nano = ((mag % 1000) as u32) * 1_000_000;
        proof {
            assert(sec as int == ms_seconds(ms as int));
            assert(nano as int == ms_nanos(ms as int));
        }
        match format_local_timestamp(sec, nano) {
            Some(t) => Ok(t),
            None => Ok(s),
        }
    } else {
        let mag: u64 = if ms == i64::MIN {
            0x8000_0000_0000_0000u64
        } else {
            (0i64 - ms) as u64
        };
        let q = mag / 1000;
        let rm = mag % 1000;
        let sec = 0i64 - (q as i64);
        let nano: u32 = if rm == 0 {
            0
        } else {
            ((4_294_967_296u64 - (rm as u64) * 1_000_000) as u32)
        };
        proof {
            assert(mag as int == 0 - ms as int);
            assert(sec as int == ms_seconds(ms as int));
            assert(nano as int == ms_nanos(ms as int));
        }
        match format_local_timestamp(sec, nano) {
            Some(t) => Ok(t),
            None => Ok(s),
        }
    }
}

} // verus!
