//! The shell job: run a resolved command in a resolved working
//! directory and decode its output with a resolved encoding label.

use vstd::prelude::*;

use crate::ctx::ItemData;
use crate::models::ApiError;
use crate::tasks::task::Task;
use crate::utils::{get_handlebars, render_of};

verus! {

/// Declarative shell job: command, arguments, working directory and
/// output encoding, all templated.
pub struct ShellJob {
    pub shell: String,
    pub args: Vec<String>,
    pub working_dir: String,
    pub encoding: String,
}

/// One resolved shell invocation.
pub struct ShellTask {
    pub shell: String,
    pub args: Vec<String>,
    pub working_dir: String,
    pub encoding: String,
}

/// The task that materializing a shell job under a context must
/// produce: command, working directory, encoding label and every
/// argument resolved against the context, in order.
pub open spec fn shell_resolved(job: ShellJob, env: Map<Seq<char>, Seq<char>>, t: Task) -> bool {
    t matches Task::ShellTask(st) && render_of(job.shell@, env) == Some(st.shell@) && render_of(
        job.working_dir@,
        env,
    ) == Some(st.working_dir@) && render_of(job.encoding@, env) == Some(st.encoding@)
        && st.args@.len() == job.args@.len() && (forall|i: int|
        0 <= i < job.args@.len() ==> render_of((#[trigger] job.args@[i])@, env) == Some(
            st.args@[i]@,
        ))
}

/// Why materializing a shell job fails: one of its templates does not
/// resolve.
pub open spec fn shell_failure(job: ShellJob, env: Map<Seq<char>, Seq<char>>, e: ApiError) -> bool {
    (render_of(job.shell@, env) is None || render_of(job.working_dir@, env) is None || render_of(
        job.encoding@,
        env,
    ) is None || (exists|i: int|
        0 <= i < job.args@.len() && render_of((#[trigger] job.args@[i])@, env) is None))
        && e matches ApiError::TemplateError(_)
}

impl ShellJob {
    /// Nothing to prepare for a shell job.
    pub fn pre_process(&mut self) -> (r: Result<(), ApiError>)
        ensures
            r is Ok,
            *final(self) == *old(self),
    {
        Ok(())
    }

    /// Materialize one task: resolve the command, every argument, the
    /// working directory and the encoding label against the context.
    pub fn make_task(&self, cur_env: ItemData) -> (r: Result<Task, ApiError>)
        requires
            cur_env.wf(),
        ensures
            match r {
                Ok(t) => shell_resolved(*self, cur_env@, t),
                Err(e) => shell_failure(*self, cur_env@, e),
            },
    {
        let shell = match get_handlebars(self.shell.as_str(), &cur_env) {
            Ok(s) => s,
            Err(e) => {
                return Err(e);
            },
        };
        let working_dir = match get_handlebars(self.working_dir.as_str(), &cur_env) {
            Ok(s) => s,
            Err(e) => {
                return Err(e);
            },
        };
        let encoding = match get_handlebars(self.encoding.as_str(), &cur_env) {
            Ok(s) => s,
            Err(e) => {
                return Err(e);
            },
        };
        let n = self.args.len();
        let mut new_args: Vec<String> = Vec::new();
        let mut i: usize = 0;
        while i < n
            invariant
                0 <= i <= n,
                n == self.args@.len(),
                cur_env.wf(),
                new_args@.len() == i,
                forall|t: int|
                    0 <= t < i ==> render_of((#[trigger] self.args@[t])@, cur_env@) == Some(
                        new_args@[t]@,
                    ),
            decreases n - i,
        {
            let new_arg = match get_handlebars(self.args[i].as_str(), &cur_env) {
                Ok(s) => s,
                Err(e) => {
                    return Err(e);
                },
            };
            new_args.push(new_arg);
            i = i + 1;
        }
        Ok(Task::ShellTask(ShellTask { shell, args: new_args, working_dir, encoding }))
    }
}

/// What the WHATWG-labelled decoder returns for a label and a byte
/// string: the label's encoding applied with replacement of malformed
/// sequences, UTF-8 when the label is unknown. It depends on those two
/// alone.
pub uninterp spec fn shell_decoded_of(label: Seq<char>, bytes: Seq<u8>) -> Seq<char>;

/// Relies on encoding::label::encoding_from_whatwg_label and
/// Encoding::decode with DecoderTrap::Replace, falling back to UTF-8
/// when the label is unknown, as the shell runner decodes captured
/// output.
#[verifier::external_body]
fn decode_whatwg(label: &str, bytes: &[u8]) -> (r: String)
    ensures
        r@ == shell_decoded_of(label@, bytes@),
{
    let enc = encoding::label::encoding_from_whatwg_label(label).unwrap_or(encoding::all::UTF_8);
    match enc.decode(bytes, encoding::DecoderTrap::Replace) {
        Ok(s) => s,
        Err(_) => String::new(),
    }
}

impl ShellTask {
    /// Decode the bytes a spawned process wrote, using the resolved
    /// encoding label.
    pub fn decode_output(&self, bytes: &[u8]) -> (r: String)
        ensures
            r@ == shell_decoded_of(self.encoding@, bytes@),
    {
        decode_whatwg(self.encoding.as_str(), bytes)
    }
}

} // verus!
