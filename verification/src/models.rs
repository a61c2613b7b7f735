//! Configuration and runtime data types: generator specifications, steps,
//! settings, notifications, and the error taxonomy.

use vstd::prelude::*;

use crate::ctx::ItemData;
use crate::tasks::task::Job;

verus! {

/// One value-generator specification, of one of the five kinds (the
/// numeric range appearing twice, plain and JSON-driven).
pub enum TaskIter {
    Range(IterRange),
    Pattern(IterPattern),
    RangePattern(IterRangePattern),
    Vec(IterList),
    GlobJsonPattern(IterGlobJsonPattern),
    GlobJsonRangePattern(IterJsonRangePattern),
}

/// Glob a file set, pick a list of items from each file by a JSONPath,
/// and emit one multi-key binding per item.
pub struct IterGlobJsonPattern {
    pub glob_pattern: String,
    pub item_pattern: String,
    pub env_pattern: ItemData,
}

/// Like the numeric range, but offset and take are read from the first
/// glob-matched JSON file, falling back to the resolved strings.
pub struct IterJsonRangePattern {
    pub name: String,
    pub file_pattern: String,
    pub offset_pattern: String,
    pub take_pattern: String,
}

/// A numeric range: offset and take are templates resolved against the
/// context, then parsed as non-negative integers.
pub struct IterRange {
    pub name: String,
    pub offset: String,
    pub take: String,
}

/// Glob a file set and emit one binding per JSONPath match per file.
pub struct IterPattern {
    pub name: String,
    pub glob_pattern: String,
    pub content_pattern: String,
}

/// Like the numeric range, but offset and take may be replaced by
/// JSONPath extraction from one resolved file.
pub struct IterRangePattern {
    pub name: String,
    pub glob_pattern: String,
    pub offset: String,
    pub take: String,
}

/// A fixed list of values, one binding each.
pub struct IterList {
    pub name: String,
    pub val: Vec<String>,
}

/// One named step: an ordered generator list, one job, and a concurrency
/// bound for its task executions.
pub struct Step {
    pub name: String,
    pub task_iters: Vec<TaskIter>,
    pub job: Job,
    pub concurrency_limit: usize,
}

/// A loaded configuration: global environment, global headers, and the
/// step table.
pub struct Setting {
    pub env: ItemData,
    pub header: ItemData,
    pub steps: Vec<(String, Step)>,
}

/// What the text-preview utility reports about a file.
pub struct TextContent {
    pub path: String,
    pub mimetype: String,
    pub enc: Option<String>,
    pub text: Option<String>,
}

/// One notification sent to the event surface.
pub struct StepNotify {
    pub name: String,
    pub status: String,
    pub message: String,
}

/// The error taxonomy of the engine.
#[derive(Debug)]
pub enum ApiError {
    CrawlerError(String),
    TemplateError(String),
    ReqwestError(String),
    Io(String),
    ParseError(String),
    JsonError(String),
    GlobError(String),
}

/// The text that an error displays as.
pub open spec fn describe_spec(e: ApiError) -> Seq<char> {
    match e {
        ApiError::CrawlerError(m) => "Crawler error: "@ + m@,
        ApiError::TemplateError(m) => "handlebars error: "@ + m@,
        ApiError::ReqwestError(m) => "reqwest error: "@ + m@,
        ApiError::Io(m) => "IO error: "@ + m@,
        ApiError::ParseError(m) => "Parse error: "@ + m@,
        ApiError::JsonError(m) => "JSON error: "@ + m@,
        ApiError::GlobError(m) => "Glob error: "@ + m@,
    }
}

impl ApiError {
    /// Render the error as its display line.
    pub fn describe(&self) -> (r: String)
        ensures
            r@ == describe_spec(*self),
    {
        match self {
            ApiError::CrawlerError(m) => {
                let mut s = "Crawler error: ".to_owned();
                s.append(m.as_str());
                s
            },
            ApiError::TemplateError(m) => {
                let mut s = "handlebars error: ".to_owned();
                s.append(m.as_str());
                s
            },
            ApiError::ReqwestError(m) => {
                let mut s = "reqwest error: ".to_owned();
                s.append(m.as_str());
                s
            },
            ApiError::Io(m) => {
                let mut s = "IO error: ".to_owned();
                s.append(m.as_str());
                s
            },
            ApiError::ParseError(m) => {
                let mut s = "Parse error: ".to_owned();
                s.append(m.as_str());
                s
            },
            ApiError::JsonError(m) => {
                let mut s = "JSON error: ".to_owned();
                s.append(m.as_str());
                s
            },
            ApiError::GlobError(m) => {
                let mut s = "Glob error: ".to_owned();
                s.append(m.as_str());
                s
            },
        }
    }
}

impl TextContent {
    /// Assemble the preview report from what was read and sniffed: a
    /// file over the size cap carries neither encoding nor text, and a
    /// decode that saw errors withholds the text while still reporting
    /// the detected encoding.
    pub fn assemble(
        path: String,
        mimetype: String,
        size: u64,
        enc: String,
        text: String,
        had_errors: bool,
    ) -> (r: TextContent)
        ensures
            r.path@ == path@,
            r.mimetype@ == mimetype@,
            size > 5242880 ==> r.enc is None && r.text is None,
            size <= 5242880 ==> (r.enc matches Some(e) && e@ == enc@) && (had_errors ==> r.text is None)
                && (!had_errors ==> (r.text matches Some(t) && t@ == text@)),
    {
        if size > 5 * 1024 * 1024 {
            TextContent { path, mimetype, enc: None, text: None }
        } else {
            TextContent {
                path,
                mimetype,
                enc: Some(enc),
                text: if had_errors {
                    None
                } else {
                    Some(text)
                },
            }
        }
    }
}

impl StepNotify {
    /// The notification sent when a step run starts.
    pub fn start_of_step(step_name: &str) -> (r: StepNotify)
        ensures
            r.name@ == "status"@,
            r.status@ == "start"@,
            r.message@ == "Start Step "@ + step_name@,
    {
        let mut message = "Start Step ".to_owned();
        message.append(step_name);
        StepNotify { name: "status".to_owned(), status: "start".to_owned(), message }
    }

    /// The notification sent when a step run ends.
    pub fn end_of_step(step_name: &str) -> (r: StepNotify)
        ensures
            r.name@ == "status"@,
            r.status@ == "end"@,
            r.message@ == "End Step "@ + step_name@,
    {
        let mut message = "End Step ".to_owned();
        message.append(step_name);
        StepNotify { name: "status".to_owned(), status: "end".to_owned(), message }
    }

    /// The notification reporting one finished task.
    pub fn progress(message: String) -> (r: StepNotify)
        ensures
            r.name@ == "progress"@,
            r.status@ == ""@,
            r.message@ == message@,
    {
        StepNotify { name: "progress".to_owned(), status: "".to_owned(), message }
    }

    /// The notification reporting one failed task.
    pub fn failure(message: String) -> (r: StepNotify)
        ensures
            r.name@ == "error"@,
            r.status@ == ""@,
            r.message@ == message@,
    {
        StepNotify { name: "error".to_owned(), status: "".to_owned(), message }
    }
}

} // verus!
