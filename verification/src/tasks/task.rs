//! The closed job/task variant sets, their shared pre-process and
//! materialization dispatch, and the file-system scripts the executors
//! produce.

use vstd::prelude::*;

use crate::ctx::ItemData;
use crate::models::ApiError;
use crate::tasks::csv_task::{csv_failure, csv_resolved, CsvJob, CsvTask};
use crate::tasks::html_task::{html_failure, html_resolved, HtmlJob, HtmlTask};
use crate::tasks::http_task::{http_failure, http_resolved, HttpJob, HttpTask};
use crate::tasks::shell_task::{shell_failure, shell_resolved, ShellJob, ShellTask};
use crate::text::tmp_path_spec;

verus! {

/// One file-system effect of an executor, carried out in order by the
/// surrounding runtime.
pub enum FsOp {
    /// Create the directory (and its parents) if it is missing.
    EnsureDir(String),
    /// Delete the file if it exists.
    RemoveFile(String),
    /// Write a fresh file with the given bytes.
    WriteFile(String, Vec<u8>),
    /// Write a fresh text file with the given characters, UTF-8 encoded.
    WriteText(String, String),
    /// Atomically move the first path over the second.
    Rename(String, String),
    /// Append one line to a shared file, creating it if missing.
    AppendLine(String, String),
}

/// The crash-safety discipline of the file-producing executors: fresh
/// bytes go only to the temporary sibling of the final path, the final
/// path is only ever created by renaming that sibling over it — so no
/// reader observes a partially written final file — and nothing but
/// the final path and its sibling is ever deleted.
pub open spec fn writes_only_tmp(ops: Seq<FsOp>, save: Seq<char>) -> bool {
    forall|i: int|
        0 <= i < ops.len() ==> match #[trigger] ops[i] {
            FsOp::EnsureDir(_) => true,
            FsOp::RemoveFile(p) => p@ == save || p@ == tmp_path_spec(save),
            FsOp::WriteFile(p, _) => p@ == tmp_path_spec(save),
            FsOp::WriteText(p, _) => p@ == tmp_path_spec(save),
            FsOp::Rename(f, t) => f@ == tmp_path_spec(save) && t@ == save,
            FsOp::AppendLine(_, _) => false,
        }
}

/// A declarative description of one unit of work, of one of the four
/// closed kinds.
pub enum Job {
    HttpJob(HttpJob),
    HtmlJob(HtmlJob),
    ShellJob(ShellJob),
    CsvJob(CsvJob),
}

impl Job {
    /// Prepare the job once per step run, before any tuple is pulled:
    /// only the HTML kind has work to do (loading its template file);
    /// the others are left untouched.
    pub fn pre_process(&mut self) -> (r: Result<(), ApiError>)
        ensures
            match old(self) {
                Job::HtmlJob(_) => (*final(self) matches Job::HtmlJob(j2) && (r is Ok
                    ==> j2.output_template is Some)),
                _ => *final(self) == *old(self) && r is Ok,
            },
            r matches Err(e) ==> e matches ApiError::CrawlerError(_),
    {
        match self {
            Job::HttpJob(job) => job.pre_process(),
            Job::HtmlJob(job) => job.pre_process(),
            Job::CsvJob(job) => job.pre_process(),
            Job::ShellJob(job) => job.pre_process(),
        }
    }

    /// Materialize the task for one binding tuple, resolving every
    /// templated field of the job against the tuple's context.
    pub fn make_task(&self, cur_env: ItemData, g_header: &ItemData) -> (r: Result<Task, ApiError>)
        requires
            cur_env.wf(),
            g_header.wf(),
            self matches Job::HttpJob(j) ==> j.header.wf(),
        ensures
            match r {
                Ok(t) => match *self {
                    Job::HttpJob(j) => http_resolved(j, cur_env@, g_header.pairs@, t),
                    Job::HtmlJob(j) => html_resolved(j, cur_env@, t),
                    Job::CsvJob(j) => csv_resolved(j, cur_env@, t),
                    Job::ShellJob(j) => shell_resolved(j, cur_env@, t),
                },
                Err(e) => match *self {
                    Job::HttpJob(j) => http_failure(j, cur_env@, g_header.pairs@, e),
                    Job::HtmlJob(j) => html_failure(j, cur_env@, e),
                    Job::CsvJob(j) => csv_failure(j, cur_env@, e),
                    Job::ShellJob(j) => shell_failure(j, cur_env@, e),
                },
            },
    {
        match self {
            Job::HttpJob(job) => job.make_task(cur_env, g_header),
            Job::HtmlJob(job) => job.make_task(cur_env),
            Job::CsvJob(job) => job.make_task(cur_env),
            Job::ShellJob(job) => job.make_task(cur_env),
        }
    }
}

/// A job with every templated field resolved against one context
/// snapshot, ready for exactly one execution attempt.
pub enum Task {
    HttpTask(HttpTask),
    HtmlTask(HtmlTask),
    CsvTask(CsvTask),
    ShellTask(ShellTask),
}

/// One character as the quoted argument list prints it: quotes and
/// backslashes carry an escaping backslash, and so do newlines,
/// carriage returns and tabs; every other character stands as itself.
pub open spec fn esc_char(c: char) -> Seq<char> {
    if c == '"' {
        seq!['\\', '"']
    } else if c == '\\' {
        seq!['\\', '\\']
    } else if c == '\n' {
        seq!['\\', 'n']
    } else if c == '\r' {
        seq!['\\', 'r']
    } else if c == '\t' {
        seq!['\\', 't']
    } else {
        seq![c]
    }
}

/// A string with each character escaped for the quoted argument list.
pub open spec fn esc_str(s: Seq<char>) -> Seq<char>
    decreases s.len(),
{
    if s.len() == 0 {
        Seq::<char>::empty()
    } else {
        esc_str(s.drop_last()) + esc_char(s.last())
    }
}

/// One quoted, escaped argument list entry after another,
/// comma-separated, as the shell task's progress line prints them.
pub open spec fn args_line_spec(args: Seq<Seq<char>>) -> Seq<char>
    decreases args.len(),
{
    if args.len() == 0 {
        Seq::<char>::empty()
    } else if args.len() == 1 {
        seq!['"'] + esc_str(args[0]) + seq!['"']
    } else {
        args_line_spec(args.drop_last()) + ", "@ + seq!['"'] + esc_str(args.last()) + seq!['"']
    }
}

fn append_escaped(out: &mut String, s: &str)
    ensures
        final(out)@ == old(out)@ + esc_str(s@),
{
    let n: usize = s.unicode_len();
    let mut i: usize = 0;
    proof {
        assert(out@ + esc_str(s@.take(0)) =~= out@);
    }
    while i < n
        invariant
            0 <= i <= n,
            n == s@.len(),
            out@ == old(out)@ + esc_str(s@.take(i as int)),
        decreases n - i,
    {
        let c = s.get_char(i);
        proof {
            reveal_strlit("\\\"");
            reveal_strlit("\\\\");
            reveal_strlit("\\n");
            reveal_strlit("\\r");
            reveal_strlit("\\t");
            assert(s@.take(i + 1).drop_last() =~= s@.take(i as int));
            assert(s@.take(i + 1).last() == s@[i as int]);
        }
        if c == '"' {
            out.append("\\\"");
            assert("\\\""@ =~= esc_char('"'));
        } else if c == '\\' {
            out.append("\\\\");
            assert("\\\\"@ =~= esc_char('\\'));
        } else if c == '\n' {
            out.append("\\n");
            assert("\\n"@ =~= esc_char('\n'));
        } else if c == '\r' {
            out.append("\\r");
            assert("\\r"@ =~= esc_char('\r'));
        } else if c == '\t' {
            out.append("\\t");
            assert("\\t"@ =~= esc_char('\t'));
        } else {
            let one = s.substring_char(i, i + 1);
            out.append(one);
            assert(one@ =~= esc_char(c));
        }
        proof {
            assert(out@ =~= old(out)@ + esc_str(s@.take(i + 1)));
        }
        i = i + 1;
    }
    proof {
        assert(s@.take(n as int) =~= s@);
    }
}

/// The progress line describing a task: the file it saves to, or the
/// command line it runs.
pub open spec fn describe_spec(t: Task) -> Seq<char> {
    match t {
        Task::HttpTask(ht) => ht.save_path@,
        Task::HtmlTask(ht) => ht.save_path@,
        Task::CsvTask(ct) => ct.save_path@,
        Task::ShellTask(st) => st.shell@ + " ["@ + args_line_spec(st.args.deep_view()) + "]"@,
    }
}

impl Task {
    /// The human-readable line carried by the progress notification:
    /// the save path, or the command line.
    pub fn describe(&self) -> (r: String)
        ensures
            r@ == describe_spec(*self),
    {
        match self {
            Task::HttpTask(ht) => ht.save_path.clone(),
            Task::HtmlTask(ht) => ht.save_path.clone(),
            Task::CsvTask(ct) => ct.save_path.clone(),
            Task::ShellTask(st) => {
                let mut s = st.shell.clone();
                s.append(" [");
                let n = st.args.len();
                let mut i: usize = 0;
                while i < n
                    invariant
                        0 <= i <= n,
                        n == st.args@.len(),
                        s@ == st.shell@ + " ["@ + args_line_spec(st.args.deep_view().take(i as int)),
                    decreases n - i,
                {
                    if i > 0 {
                        s.append(", ");
                    }
                    s.append("\"");
                    append_escaped(&mut s, st.args[i].as_str());
                    s.append("\"");
                    proof {
                        reveal_strlit("\"");
                        reveal_strlit(", ");
                        let dv = st.args.deep_view();
                        assert(dv.take(i + 1).drop_last() =~= dv.take(i as int));
                        assert(dv.take(i + 1).last() == dv[i as int]);
                        assert(dv[i as int] == st.args@[i as int]@);
                        assert("\""@ =~= seq!['"']);
                        assert(s@ =~= st.shell@ + " ["@ + args_line_spec(dv.take(i + 1)));
                    }
                    i = i + 1;
                }
                s.append("]");
                proof {
                    assert(st.args.deep_view().take(n as int) =~= st.args.deep_view());
                }
                s
            },
        }
    }
}

} // verus!
