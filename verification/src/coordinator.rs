//! The build coordinator's join point: every render and side-effect task
//! reports a result, and only when none failed is anything written. The
//! first failure aborts the whole build with no file written; an unemitted
//! or pathless output is discarded silently.

use vstd::prelude::*;

use crate::render::WritableFile;
use crate::BuildError;

verus! {

/// The first error among the task results, scanning from `i`.
pub open spec fn first_error_from(
    results: Seq<Result<Option<WritableFile>, BuildError>>,
    i: int,
) -> Option<BuildError>
    decreases results.len() - i,
{
    if i < 0 || i >= results.len() {
        None
    } else {
        match results[i] {
            Result::Err(e) => Some(e),
            Result::Ok(_) => first_error_from(results, i + 1),
        }
    }
}

/// The first error among the task results, if any.
pub open spec fn first_error(results: Seq<Result<Option<WritableFile>, BuildError>>) -> Option<
    BuildError,
> {
    first_error_from(results, 0)
}

/// The files the build writes, among the first `n` results: each task's
/// output, in task order, keeping only present outputs that are emitted
/// and have a target path.
pub open spec fn written_files_upto(
    results: Seq<Result<Option<WritableFile>, BuildError>>,
    n: int,
) -> Seq<WritableFile>
    decreases n,
{
    if n <= 0 {
        Seq::empty()
    } else {
        written_files_upto(results, n - 1) + (match results[n - 1] {
            Result::Ok(Some(w)) => if w.emit && w.path@.len() > 0 {
                seq![w]
            } else {
                Seq::empty()
            },
            _ => Seq::empty(),
        })
    }
}

/// The files the build writes when every task succeeded.
pub open spec fn written_files(results: Seq<Result<Option<WritableFile>, BuildError>>) -> Seq<
    WritableFile,
> {
    written_files_upto(results, results.len() as int)
}

/// Join the results of all concurrent tasks. When every task succeeded,
/// the emitted outputs come back in task order, ready to write; when any
/// failed, the first failure comes back and nothing is written.
#[verifier::loop_isolation(false)]
pub fn collect_build_results(results: Vec<Result<Option<WritableFile>, BuildError>>) -> (r: Result<
    Vec<WritableFile>,
    BuildError,
>)
    ensures
        r is Ok <==> first_error(results@) is None,
        r matches Ok(files) ==> files@ == written_files(results@),
        r matches Err(e) ==> Some(e) == first_error(results@),
{
    let ghost orig = results@;
    let mut rest = results;
    let mut out: Vec<WritableFile> = Vec::new();
    let ghost done: int = 0;
    while rest.len() > 0
        invariant
            0 <= done <= orig.len(),
            rest@ =~= orig.skip(done),
            out@ == written_files_upto(orig, done),
            first_error_from(orig, 0) == first_error_from(orig, done),
        decreases rest@.len(),
    {
        let item = rest.remove(0);
        proof {
            assert(item == orig[done]);
            assert(rest@ =~= orig.skip(done + 1));
        }
        match item {
            Ok(Some(w)) => {
                if w.emit && !w.path.as_str().is_empty() {
                    out.push(w);
                }
            },
            Ok(None) => {},
            Err(e) => {
                return Err(e);
            },
        }
        proof {
            done = done + 1;
        }
    }
    proof {
        assert(done == orig.len());
    }
    Ok(out)
}

/// A file with `emit == false` is never among what the build writes,
/// whatever the other tasks produced.
pub proof fn lemma_unemitted_never_written(
    results: Seq<Result<Option<WritableFile>, BuildError>>,
    n: int,
)
    requires
        n <= results.len(),
    ensures
        forall|k: int|
            0 <= k < written_files_upto(results, n).len() ==> (#[trigger] written_files_upto(
                results,
                n,
            )[k]).emit == true,
    decreases n,
{
    if n > 0 {
        lemma_unemitted_never_written(results, n - 1);
        assert forall|k: int|
            0 <= k < written_files_upto(results, n).len() implies (#[trigger] written_files_upto(
            results,
            n,
        )[k]).emit == true by {
            let prev = written_files_upto(results, n - 1);
            if k >= prev.len() {
                assert(written_files_upto(results, n)[k] == written_files_upto(results, n)[
                    written_files_upto(results, n).len() - 1]);
            }
        }
    }
}

} // verus!
