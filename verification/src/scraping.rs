//! The engine's command core: holds the loaded configuration and
//! prepares step runs. The surrounding runtime drives the odometer,
//! the ledger and the executors; every decision in between — lookup,
//! the synthetic index generator, job pre-processing — is made here.

use vstd::prelude::*;

use crate::ctx::ItemData;
use crate::models::{ApiError, IterRange, Setting, Step, TaskIter};
use crate::odometer::{get_iters, specs_wf, TupleIter};
use crate::tasks::csv_task::{dup_strings, CsvJob};
use crate::tasks::html_task::HtmlJob;
use crate::tasks::http_task::HttpJob;
use crate::tasks::shell_task::ShellJob;
use crate::tasks::task::Job;

verus! {

/// Two generator specifications that read the same: same kind, same
/// field texts.
pub open spec fn ti_like(a: TaskIter, b: TaskIter) -> bool {
    match (a, b) {
        (TaskIter::Range(x), TaskIter::Range(y)) => x.name@ == y.name@ && x.offset@ == y.offset@
            && x.take@ == y.take@,
        (TaskIter::Pattern(x), TaskIter::Pattern(y)) => x.name@ == y.name@ && x.glob_pattern@
            == y.glob_pattern@ && x.content_pattern@ == y.content_pattern@,
        (TaskIter::RangePattern(x), TaskIter::RangePattern(y)) => x.name@ == y.name@
            && x.glob_pattern@ == y.glob_pattern@ && x.offset@ == y.offset@ && x.take@ == y.take@,
        (TaskIter::Vec(x), TaskIter::Vec(y)) => x.name@ == y.name@ && x.val.deep_view()
            == y.val.deep_view(),
        (TaskIter::GlobJsonPattern(x), TaskIter::GlobJsonPattern(y)) => x.glob_pattern@
            == y.glob_pattern@ && x.item_pattern@ == y.item_pattern@ && x.env_pattern@
            == y.env_pattern@ && x.env_pattern.wf() == y.env_pattern.wf(),
        (TaskIter::GlobJsonRangePattern(x), TaskIter::GlobJsonRangePattern(y)) => x.name@
            == y.name@ && x.file_pattern@ == y.file_pattern@ && x.offset_pattern@
            == y.offset_pattern@ && x.take_pattern@ == y.take_pattern@,
        _ => false,
    }
}

/// An element-wise copy of one generator specification.
fn dup_task_iter(a: &TaskIter) -> (r: TaskIter)
    ensures
        ti_like(*a, r),
{
    match a {
        TaskIter::Range(x) => TaskIter::Range(
            IterRange { name: x.name.clone(), offset: x.offset.clone(), take: x.take.clone() },
        ),
        TaskIter::Pattern(x) => TaskIter::Pattern(
            crate::models::IterPattern {
                name: x.name.clone(),
                glob_pattern: x.glob_pattern.clone(),
                content_pattern: x.content_pattern.clone(),
            },
        ),
        TaskIter::RangePattern(x) => TaskIter::RangePattern(
            crate::models::IterRangePattern {
                name: x.name.clone(),
                glob_pattern: x.glob_pattern.clone(),
                offset: x.offset.clone(),
                take: x.take.clone(),
            },
        ),
        TaskIter::Vec(x) => TaskIter::Vec(
            crate::models::IterList { name: x.name.clone(), val: dup_strings(&x.val) },
        ),
        TaskIter::GlobJsonPattern(x) => TaskIter::GlobJsonPattern(
            crate::models::IterGlobJsonPattern {
                glob_pattern: x.glob_pattern.clone(),
                item_pattern: x.item_pattern.clone(),
                env_pattern: x.env_pattern.duplicate(),
            },
        ),
        TaskIter::GlobJsonRangePattern(x) => TaskIter::GlobJsonRangePattern(
            crate::models::IterJsonRangePattern {
                name: x.name.clone(),
                file_pattern: x.file_pattern.clone(),
                offset_pattern: x.offset_pattern.clone(),
                take_pattern: x.take_pattern.clone(),
            },
        ),
    }
}

/// Two jobs that read the same: same kind, same field texts.
pub open spec fn job_like(a: Job, b: Job) -> bool {
    match (a, b) {
        (Job::HttpJob(x), Job::HttpJob(y)) => x.url@ == y.url@ && x.method@ == y.method@
            && x.header@ == y.header@ && x.header.wf() == y.header.wf() && x.filename@
            == y.filename@ && x.output@ == y.output@,
        (Job::HtmlJob(x), Job::HtmlJob(y)) => x.json_map.deep_view() == y.json_map.deep_view()
            && x.output_template_file@ == y.output_template_file@ && (match (
            x.output_template,
            y.output_template,
        ) {
            (Some(s), Some(t)) => s@ == t@,
            (None, None) => true,
            _ => false,
        }) && x.filename@ == y.filename@ && x.output@ == y.output@,
        (Job::CsvJob(x), Job::CsvJob(y)) => x.keys.deep_view() == y.keys.deep_view() && x.sep@
            == y.sep@ && x.filename@ == y.filename@ && x.output@ == y.output@,
        (Job::ShellJob(x), Job::ShellJob(y)) => x.shell@ == y.shell@ && x.args.deep_view()
            == y.args.deep_view() && x.working_dir@ == y.working_dir@ && x.encoding@
            == y.encoding@,
        _ => false,
    }
}

fn dup_json_map_pairs(v: &Vec<(String, Vec<(String, String)>)>) -> (r: Vec<
    (String, Vec<(String, String)>),
>)
    ensures
        r.deep_view() == v.deep_view(),
{
    let n = v.len();
    let mut out: Vec<(String, Vec<(String, String)>)> = Vec::new();
    let mut i: usize = 0;
    while i < n
        invariant
            0 <= i <= n,
            n == v@.len(),
            out@.len() == i,
            forall|t: int| 0 <= t < i ==> (#[trigger] out@[t]).deep_view() == v@[t].deep_view(),
        decreases n - i,
    {
        let m = v[i].1.len();
        let mut inner: Vec<(String, String)> = Vec::new();
        let mut j: usize = 0;
        while j < m
            invariant
                0 <= j <= m,
                0 <= i < n,
                n == v@.len(),
                m == v@[i as int].1@.len(),
                inner@.len() == j,
                forall|t: int|
                    0 <= t < j ==> (#[trigger] inner@[t]).deep_view() == v@[i as int].1@[t].deep_view(),
            decreases m - j,
        {
            inner.push((v[i].1[j].0.clone(), v[i].1[j].1.clone()));
            proof {
                assert(inner@[j as int].deep_view() =~= v@[i as int].1@[j as int].deep_view());
            }
            j = j + 1;
        }
        out.push((v[i].0.clone(), inner));
        proof {
            assert(out@[i as int].deep_view() =~= v@[i as int].deep_view());
        }
        i = i + 1;
    }
    proof {
        assert(out.deep_view() =~= v.deep_view());
    }
    out
}

/// An element-wise copy of one job.
fn dup_job(a: &Job) -> (r: Job)
    ensures
        job_like(*a, r),
{
    match a {
        Job::HttpJob(x) => Job::HttpJob(
            HttpJob {
                url: x.url.clone(),
                method: x.method.clone(),
                header: x.header.duplicate(),
                filename: x.filename.clone(),
                output: x.output.clone(),
            },
        ),
        Job::HtmlJob(x) => Job::HtmlJob(
            HtmlJob {
                json_map: dup_json_map_pairs(&x.json_map),
                output_template_file: x.output_template_file.clone(),
                output_template: match &x.output_template {
                    Some(t) => Some(t.clone()),
                    None => None,
                },
                filename: x.filename.clone(),
                output: x.output.clone(),
            },
        ),
        Job::CsvJob(x) => Job::CsvJob(
            CsvJob {
                keys: dup_strings(&x.keys),
                sep: x.sep.clone(),
                filename: x.filename.clone(),
                output: x.output.clone(),
            },
        ),
        Job::ShellJob(x) => Job::ShellJob(
            ShellJob {
                shell: x.shell.clone(),
                args: dup_strings(&x.args),
                working_dir: x.working_dir.clone(),
                encoding: x.encoding.clone(),
            },
        ),
    }
}

/// What makes a step runnable: its glob/JSONPath generators carry
/// unique field names, and an HTTP job's header set carries unique
/// names.
pub open spec fn step_wf(st: Step) -> bool {
    specs_wf(st.task_iters@) && (st.job matches Job::HttpJob(j) ==> j.header.wf())
}

/// What makes a configuration loadable.
pub open spec fn setting_wf(s: Setting) -> bool {
    s.env.wf() && s.header.wf() && (forall|i: int|
        0 <= i < s.steps@.len() ==> step_wf((#[trigger] s.steps@[i]).1))
}

impl Setting {
    /// Decide loadability at run time.
    pub fn validate(&self) -> (r: bool)
        ensures
            r == setting_wf(*self),
    {
        if !self.env.check_unique() {
            return false;
        }
        if !self.header.check_unique() {
            return false;
        }
        let n = self.steps.len();
        let mut i: usize = 0;
        while i < n
            invariant
                0 <= i <= n,
                n == self.steps@.len(),
                forall|t: int| 0 <= t < i ==> step_wf((#[trigger] self.steps@[t]).1),
            decreases n - i,
        {
            let st = &self.steps[i].1;
            match &st.job {
                Job::HttpJob(j) => {
                    if !j.header.check_unique() {
                        assert(!step_wf(self.steps@[i as int].1));
                        return false;
                    }
                },
                _ => (),
            }
            let m = st.task_iters.len();
            let mut j: usize = 0;
            while j < m
                invariant
                    0 <= j <= m,
                    0 <= i < n,
                    n == self.steps@.len(),
                    *st == self.steps@[i as int].1,
                    m == st.task_iters@.len(),
                    forall|t: int|
                        0 <= t < j ==> ((#[trigger] st.task_iters@[t]) matches TaskIter::GlobJsonPattern(
                            g,
                        ) ==> g.env_pattern.wf()),
                decreases m - j,
            {
                match &st.task_iters[j] {
                    TaskIter::GlobJsonPattern(g) => {
                        if !g.env_pattern.check_unique() {
                            assert(!specs_wf(st.task_iters@)) by {
                                assert(st.task_iters@[j as int] matches TaskIter::GlobJsonPattern(
                                    g2,
                                ) && !g2.env_pattern.wf());
                            }
                            assert(!step_wf(self.steps@[i as int].1));
                            return false;
                        }
                    },
                    _ => (),
                }
                j = j + 1;
            }
            assert(specs_wf(st.task_iters@));
            i = i + 1;
        }
        true
    }
}

/// One prepared step run, ready for the runtime to drive: the
/// pre-processed job, the started odometer, and the concurrency bound
/// for the ledger and the semaphore.
pub struct StepRun {
    pub job: Job,
    pub iters: TupleIter,
    pub limit: usize,
}

/// The engine core: the loaded configuration.
pub struct Scraping {
    pub env: ItemData,
    pub header: ItemData,
    pub steps: Vec<(String, Step)>,
}

impl Scraping {
    /// The loaded configuration is runnable.
    pub open spec fn wf(self) -> bool {
        self.env.wf() && self.header.wf() && (forall|i: int|
            0 <= i < self.steps@.len() ==> step_wf((#[trigger] self.steps@[i]).1))
    }

    /// An engine with nothing loaded.
    pub fn new() -> (r: Scraping)
        ensures
            r.wf(),
            r.env@ == Map::<Seq<char>, Seq<char>>::empty(),
            r.header@ == Map::<Seq<char>, Seq<char>>::empty(),
            r.steps@.len() == 0,
    {
        Scraping { env: ItemData::new(), header: ItemData::new(), steps: Vec::new() }
    }

    /// Replace the whole configuration, discarding the previous one.
    pub fn load(&mut self, setting: Setting)
        requires
            setting_wf(setting),
        ensures
            final(self).wf(),
            final(self).env@ == setting.env@,
            final(self).header@ == setting.header@,
            final(self).steps@ == setting.steps@,
    {
        self.env = setting.env;
        self.header = setting.header;
        self.steps = setting.steps;
    }

    /// The first step of the given name.
    pub fn find_step(&self, step_name: &str) -> (r: Option<&Step>)
        ensures
            match r {
                Some(st) => exists|i: int|
                    0 <= i < self.steps@.len() && (#[trigger] self.steps@[i]).0@ == step_name@
                        && self.steps@[i].1 == *st,
                None => forall|i: int|
                    0 <= i < self.steps@.len() ==> (#[trigger] self.steps@[i]).0@ != step_name@,
            },
    {
        let n = self.steps.len();
        let mut i: usize = 0;
        while i < n
            invariant
                0 <= i <= n,
                n == self.steps@.len(),
                forall|t: int| 0 <= t < i ==> (#[trigger] self.steps@[t]).0@ != step_name@,
            decreases n - i,
        {
            if crate::text::str_eq(self.steps[i].0.as_str(), step_name) {
                return Some(&self.steps[i].1);
            }
            i = i + 1;
        }
        None
    }

    /// The control decision behind a state update: the step must
    /// exist; storing the value and waking the parked controller is
    /// the runtime's part.
    pub fn update_state(&self, step_name: &str, _val: u8) -> (r: Result<(), ApiError>)
        ensures
            match r {
                Ok(_) => exists|i: int|
                    0 <= i < self.steps@.len() && (#[trigger] self.steps@[i]).0@ == step_name@,
                Err(e) => (forall|i: int|
                    0 <= i < self.steps@.len() ==> (#[trigger] self.steps@[i]).0@ != step_name@)
                    && e matches ApiError::CrawlerError(_),
            },
    {
        match self.find_step(step_name) {
            Some(_) => Ok(()),
            None => Err(ApiError::CrawlerError("Step not found".to_owned())),
        }
    }

    /// Prepare a run of the named step: look it up, substitute the
    /// synthetic one-shot index generator when it declares none,
    /// pre-process its job once, and start the odometer against the
    /// global environment.
    pub fn prepare_run(&self, step_name: &str) -> (r: Result<StepRun, ApiError>)
        requires
            self.wf(),
        ensures
            match r {
                Ok(sr) => (exists|i: int|
                    0 <= i < self.steps@.len() && (#[trigger] self.steps@[i]).0@ == step_name@ && {
                        let st = self.steps@[i].1;
                        &&& sr.limit == st.concurrency_limit
                        &&& (st.task_iters@.len() > 0 ==> sr.iters.specs@.len()
                            == st.task_iters@.len() && (forall|j: int|
                            0 <= j < st.task_iters@.len() ==> ti_like(
                                (#[trigger] st.task_iters@[j]),
                                sr.iters.specs@[j],
                            )))
                        &&& (st.task_iters@.len() == 0 ==> sr.iters.specs@.len() == 1
                            && (sr.iters.specs@[0] matches TaskIter::Range(g) && g.name@ == "IDX_"@
                            + step_name@ && g.offset@ == "0"@ && g.take@ == "1"@))
                        &&& job_like(st.job, sr.job) || (st.job matches Job::HtmlJob(_)
                            && sr.job matches Job::HtmlJob(j2) && j2.output_template is Some)
                    }) && sr.iters.inv() && sr.iters.live && sr.iters.yielded@ == Seq::<
                    crate::odometer::TupV,
                >::empty() && sr.iters.init_env@ == self.env@,
                Err(e) => e matches ApiError::CrawlerError(_) && ((forall|i: int|
                    0 <= i < self.steps@.len() ==> (#[trigger] self.steps@[i]).0@ != step_name@)
                    || (exists|i: int|
                    0 <= i < self.steps@.len() && (#[trigger] self.steps@[i]).0@ == step_name@
                        && self.steps@[i].1.job matches Job::HtmlJob(_))),
            },
    {
        let step = match self.find_step(step_name) {
            Some(st) => st,
            None => {
                return Err(ApiError::CrawlerError("Step not found".to_owned()));
            },
        };
        let mut task_iters: Vec<TaskIter> = Vec::new();
        let nt = step.task_iters.len();
        if nt == 0 {
            let mut name = "IDX_".to_owned();
            name.append(step_name);
            task_iters.push(
                TaskIter::Range(
                    IterRange { name, offset: "0".to_owned(), take: "1".to_owned() },
                ),
            );
        } else {
            let mut j: usize = 0;
            while j < nt
                invariant
                    0 <= j <= nt,
                    nt == step.task_iters@.len(),
                    task_iters@.len() == j,
                    forall|t: int|
                        0 <= t < j ==> ti_like(
                            (#[trigger] step.task_iters@[t]),
                            task_iters@[t],
                        ),
                decreases nt - j,
            {
                task_iters.push(dup_task_iter(&step.task_iters[j]));
                j = j + 1;
            }
        }
        let mut job = dup_job(&step.job);
        match job.pre_process() {
            Ok(_) => (),
            Err(e) => {
                return Err(e);
            },
        }
        proof {
            assert(specs_wf(task_iters@)) by {
                assert(step_wf(*step));
                assert forall|t: int|
                    0 <= t < task_iters@.len() implies ((#[trigger] task_iters@[t]) matches TaskIter::GlobJsonPattern(
                    g,
                ) ==> g.env_pattern.wf()) by {
                    if nt > 0 {
                        assert(ti_like(step.task_iters@[t], task_iters@[t]));
                    }
                }
            }
        }
        let iters = get_iters(task_iters, self.env.duplicate());
        let limit = step.concurrency_limit;
        Ok(StepRun { job, iters, limit })
    }
}

} // verus!
