//! Trusted access to the file system: reading a text file and expanding
//! a glob pattern. Both results depend on what is on disk, so nothing is
//! promised of them beyond their shape.

use vstd::prelude::*;

verus! {

/// Relies on tokio::fs::read_to_string, driven to completion on a small
/// runtime of its own: the text of the file as it is on disk now, or the
/// I/O error's text.
#[verifier::external_body]
pub fn read_text_file(path: &str) -> (r: Result<String, String>) {
    let rt = match tokio::runtime::Builder::new_current_thread().build() {
        Ok(rt) => rt,
        Err(e) => {
            return Err(e.to_string());
        },
    };
    match rt.block_on(tokio::fs::read_to_string(path)) {
        Ok(s) => Ok(s),
        Err(e) => Err(e.to_string()),
    }
}

/// Relies on glob::glob: the paths matching the pattern, in the order the
/// walk reports them, each entry kept as the walk's own result; the outer
/// error is a malformed pattern.
#[verifier::external_body]
pub fn glob_paths(pattern: &str) -> (r: Result<Vec<Result<String, String>>, String>) {
    match glob::glob(pattern) {
        Ok(paths) => Ok(
            paths.map(
                |entry| match entry {
                    Ok(p) => Ok(p.to_string_lossy().to_string()),
                    Err(e) => Err(e.to_string()),
                },
            ).collect(),
        ),
        Err(e) => Err(e.to_string()),
    }
}

} // verus!
