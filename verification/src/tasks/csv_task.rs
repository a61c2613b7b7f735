//! The CSV job: append one row per binding tuple to a shared file.

use vstd::prelude::*;

use crate::ctx::ItemData;
use crate::models::ApiError;
use crate::tasks::task::Task;
use crate::text::{join_path_spec, join_path, trim_spec, trim_str};
use crate::utils::{get_handlebars, get_handlebars_safe_dir, render_of, sanitize_env_spec,
    sanitize_name, sanitized_of};

verus! {

/// Declarative CSV job: key order, separator, and templated file placement.
pub struct CsvJob {
    pub keys: Vec<String>,
    pub sep: String,
    pub filename: String,
    pub output: String,
}

/// One resolved CSV append.
pub struct CsvTask {
    pub cur_env: ItemData,
    pub keys: Vec<String>,
    pub sep: String,
    pub folder: String,
    pub save_path: String,
}

/// The task that materializing a CSV job under a context must produce:
/// the context carried, the key order and separator kept, the directory
/// rendered against the sanitized context, and the file name rendered,
/// sanitized and joined on.
pub open spec fn csv_resolved(job: CsvJob, env: Map<Seq<char>, Seq<char>>, t: Task) -> bool {
    t matches Task::CsvTask(ct) && ct.cur_env@ == env && ct.cur_env.wf() && ct.keys.deep_view()
        == job.keys.deep_view() && ct.sep@ == job.sep@ && render_of(
        job.output@,
        sanitize_env_spec(env),
    ) == Some(ct.folder@) && (render_of(job.filename@, env) matches Some(f) && ct.save_path@
        == join_path_spec(ct.folder@, sanitized_of(f)))
}

/// Why materializing a CSV job fails: one of its two templates does not
/// resolve.
pub open spec fn csv_failure(job: CsvJob, env: Map<Seq<char>, Seq<char>>, e: ApiError) -> bool {
    (render_of(job.output@, sanitize_env_spec(env)) is None || render_of(job.filename@, env) is None)
        && e matches ApiError::TemplateError(_)
}

impl CsvJob {
    /// Nothing to prepare for a CSV job.
    pub fn pre_process(&mut self) -> (r: Result<(), ApiError>)
        ensures
            r is Ok,
            *final(self) == *old(self),
    {
        Ok(())
    }

    /// Materialize one task: resolve the output directory against the
    /// sanitized context and the file name against the plain context.
    pub fn make_task(&self, cur_env: ItemData) -> (r: Result<Task, ApiError>)
        requires
            cur_env.wf(),
        ensures
            match r {
                Ok(t) => csv_resolved(*self, cur_env@, t),
                Err(e) => csv_failure(*self, cur_env@, e),
            },
    {
        let folder = match get_handlebars_safe_dir(self.output.as_str(), &cur_env) {
            Ok(f) => f,
            Err(e) => {
                return Err(e);
            },
        };
        let fname = match get_handlebars(self.filename.as_str(), &cur_env) {
            Ok(f) => f,
            Err(e) => {
                return Err(e);
            },
        };
        let filename = sanitize_name(fname.as_str());
        let save_path = join_path(folder.as_str(), filename.as_str());
        Ok(
            Task::CsvTask(
                CsvTask {
                    cur_env,
                    keys: dup_strings(&self.keys),
                    sep: self.sep.clone(),
                    folder,
                    save_path,
                },
            ),
        )
    }
}

/// An element-wise copy of a string list.
pub fn dup_strings(v: &Vec<String>) -> (r: Vec<String>)
    ensures
        r.deep_view() == v.deep_view(),
{
    let n = v.len();
    let mut out: Vec<String> = Vec::new();
    let mut i: usize = 0;
    while i < n
        invariant
            0 <= i <= n,
            n == v@.len(),
            out@.len() == i,
            forall|t: int| 0 <= t < i ==> (#[trigger] out@[t])@ == v@[t]@,
        decreases n - i,
    {
        out.push(v[i].clone());
        i = i + 1;
    }
    proof {
        assert(out.deep_view() =~= v.deep_view());
    }
    out
}

/// The row a tuple contributes: each key's value, trimmed, the empty
/// string for an unbound key, joined with the separator.
pub open spec fn row_spec(
    env: Map<Seq<char>, Seq<char>>,
    keys: Seq<Seq<char>>,
    sep: Seq<char>,
) -> Seq<char>
    decreases keys.len(),
{
    let cell = if keys.len() == 0 {
        Seq::<char>::empty()
    } else if env.contains_key(keys.last()) {
        trim_spec(env[keys.last()])
    } else {
        Seq::<char>::empty()
    };
    if keys.len() == 0 {
        Seq::<char>::empty()
    } else if keys.len() == 1 {
        cell
    } else {
        row_spec(env, keys.drop_last(), sep) + sep + cell
    }
}

impl CsvTask {
    /// Decide the whole execution: ensure the directory, then append
    /// this tuple's row to the shared file, which is created if absent
    /// and grows across the whole step run. Rows land in completion
    /// order, so a step that needs them in tuple order must run with a
    /// concurrency bound of one.
    pub fn run_plan(&self) -> (r: Vec<crate::tasks::task::FsOp>)
        requires
            self.cur_env.wf(),
        ensures
            r@.len() == 2,
            r@[0] matches crate::tasks::task::FsOp::EnsureDir(d) && d@ == self.folder@,
            r@[1] matches crate::tasks::task::FsOp::AppendLine(p, row) && p@ == self.save_path@
                && row@ == row_spec(self.cur_env@, self.keys.deep_view(), self.sep@),
    {
        let row = self.compose_row();
        let mut ops: Vec<crate::tasks::task::FsOp> = Vec::new();
        ops.push(crate::tasks::task::FsOp::EnsureDir(self.folder.clone()));
        ops.push(crate::tasks::task::FsOp::AppendLine(self.save_path.clone(), row));
        ops
    }

    /// Compose the row that the bound context contributes.
    pub fn compose_row(&self) -> (r: String)
        requires
            self.cur_env.wf(),
        ensures
            r@ == row_spec(self.cur_env@, self.keys.deep_view(), self.sep@),
    {
        let n = self.keys.len();
        let mut out = String::new();
        let mut i: usize = 0;
        while i < n
            invariant
                0 <= i <= n,
                n == self.keys@.len(),
                self.cur_env.wf(),
                out@ == row_spec(self.cur_env@, self.keys.deep_view().take(i as int), self.sep@),
            decreases n - i,
        {
            if i > 0 {
                out.append(self.sep.as_str());
            }
            let cell: String = match self.cur_env.get(self.keys[i].as_str()) {
                Some(v) => trim_str(v.as_str()),
                None => String::new(),
            };
            out.append(cell.as_str());
            proof {
                let ks = self.keys.deep_view();
                assert(ks.take(i + 1).drop_last() =~= ks.take(i as int));
                assert(ks.take(i + 1).last() == ks[i as int]);
                assert(ks[i as int] == self.keys@[i as int]@);
                if i == 0 {
                    assert(out@ =~= row_spec(self.cur_env@, ks.take(1), self.sep@));
                }
            }
            i = i + 1;
        }
        proof {
            assert(self.keys.deep_view().take(n as int) =~= self.keys.deep_view());
        }
        out
    }
}

} // verus!
