//! The batch copy/move engine's accounting: planning one operation per
//! selected record, and folding per-operation outcomes into an aggregate
//! result. Performing a transfer is filesystem work and stays with the
//! surrounding application; it reports each outcome back, in order.
use vstd::prelude::*;
use vstd::string::StrSliceExecFns;
use vstd::string::StringExecFns;

use crate::scan::FileManager;
use crate::types::FileOperation;
use crate::types::ImageFile;
use crate::types::ProcessResult;

verus! {

/// `name` placed under directory `dir`: the two joined with a single `/`.
pub open spec fn joined(dir: Seq<char>, name: Seq<char>) -> Seq<char> {
    if dir.len() == 0 {
        name
    } else if dir[dir.len() - 1] == '/' {
        dir + name
    } else {
        dir + seq!['/'] + name
    }
}

/// Joins a directory path and a base name, as executable code.
pub fn join_path(dir: &str, name: &str) -> (r: String)
    ensures
        r@ == joined(dir@, name@),
{
    let mut r = String::new();
    r.append(dir);
    let dlen = dir.unicode_len();
    if dlen > 0 && dir.get_char(dlen - 1) != '/' {
        proof {
            reveal_strlit("/");
        }
        assert("/"@ =~= seq!['/']);
        r.append("/");
    }
    r.append(name);
    proof {
        assert(r@ =~= joined(dir@, name@));
    }
    r
}

/// The message recorded for a failed operation: what was attempted, on which
/// paths, and the cause the application reported.
pub open spec fn failure_message(op: FileOperation, cause: Seq<char>) -> Seq<char> {
    (if op.is_move() {
        "move "@
    } else {
        "copy "@
    }) + op.source_spec() + " to "@ + op.target_spec() + " failed: "@ + cause
}

/// Renders the failure message of one operation, as executable code.
fn build_failure_message(op: &FileOperation, cause: &str) -> (r: String)
    ensures
        r@ == failure_message(*op, cause@),
{
    let mut r = String::new();
    match op {
        FileOperation::Copy { source, target } => {
            r.append("copy ");
            r.append(source.as_str());
            r.append(" to ");
            r.append(target.as_str());
        },
        FileOperation::Move { source, target } => {
            r.append("move ");
            r.append(source.as_str());
            r.append(" to ");
            r.append(target.as_str());
        },
    }
    r.append(" failed: ");
    r.append(cause);
    proof {
        assert(r@ =~= failure_message(*op, cause@));
    }
    r
}

/// How many outcomes report success.
pub open spec fn count_ok(outcomes: Seq<Result<(), String>>) -> int
    decreases outcomes.len(),
{
    if outcomes.len() == 0 {
        0
    } else {
        count_ok(outcomes.drop_last()) + if outcomes.last() is Ok {
            1int
        } else {
            0int
        }
    }
}

/// The failure messages a batch is owed: one per failed operation, in the
/// order the operations were attempted.
pub open spec fn failure_messages(
    ops: Seq<FileOperation>,
    outcomes: Seq<Result<(), String>>,
) -> Seq<Seq<char>>
    recommends
        ops.len() == outcomes.len(),
    decreases outcomes.len(),
{
    if outcomes.len() == 0 {
        Seq::empty()
    } else {
        let rest = failure_messages(ops.drop_last(), outcomes.drop_last());
        match outcomes.last() {
            Ok(_) => rest,
            Err(cause) => rest.push(failure_message(ops.last(), cause@)),
        }
    }
}

/// The views of recorded error strings.
pub open spec fn error_views(s: Seq<String>) -> Seq<Seq<char>> {
    s.map_values(|m: String| m@)
}

proof fn lemma_count_ok_bounds(outcomes: Seq<Result<(), String>>)
    ensures
        0 <= count_ok(outcomes) <= outcomes.len(),
    decreases outcomes.len(),
{
    if outcomes.len() > 0 {
        lemma_count_ok_bounds(outcomes.drop_last());
    }
}

/// Law of batch accounting: however a batch of K operations turns out, the
/// successes and failures together cover all K, and there is exactly one
/// failure message per failure. Together with `batch_process`'s contract
/// this pins the aggregate of every batch, for every K and any mix of
/// outcomes: `success_count + failed_count == K` and
/// `errors.len() == failed_count`.
pub proof fn lemma_batch_accounting(ops: Seq<FileOperation>, outcomes: Seq<Result<(), String>>)
    requires
        ops.len() == outcomes.len(),
    ensures
        0 <= count_ok(outcomes) <= ops.len(),
        count_ok(outcomes) + (ops.len() - count_ok(outcomes)) == ops.len(),
        failure_messages(ops, outcomes).len() == ops.len() - count_ok(outcomes),
    decreases outcomes.len(),
{
    lemma_count_ok_bounds(outcomes);
    if outcomes.len() > 0 {
        lemma_batch_accounting(ops.drop_last(), outcomes.drop_last());
    }
}

impl FileManager {
    /// Plans one operation per selected record: the record's path as source,
    /// the record's name under `target_path` as target; a move when `mv`
    /// holds, else a copy.
    pub fn plan_operations(files: &Vec<ImageFile>, target_path: &str, mv: bool) -> (r: Vec<
        FileOperation,
    >)
        ensures
            r@.len() == files@.len(),
            forall|i: int|
                0 <= i < files@.len() ==> {
                    &&& (#[trigger] r@[i]).is_move() == mv
                    &&& r@[i].source_spec() == files@[i].path@
                    &&& r@[i].target_spec() == joined(target_path@, files@[i].name@)
                },
    {
        let mut r: Vec<FileOperation> = Vec::new();
        let n = files.len();
        let mut i: usize = 0;
        while i < n
            invariant
                n == files@.len(),
                i <= n,
                r@.len() == i,
                forall|k: int|
                    0 <= k < i ==> {
                        &&& (#[trigger] r@[k]).is_move() == mv
                        &&& r@[k].source_spec() == files@[k].path@
                        &&& r@[k].target_spec() == joined(target_path@, files@[k].name@)
                    },
            decreases n - i,
        {
            let source = files[i].path.clone();
            let target = join_path(target_path, files[i].name.as_str());
            if mv {
                r.push(FileOperation::Move { source, target });
            } else {
                r.push(FileOperation::Copy { source, target });
            }
            i += 1;
        }
        r
    }

    /// Folds the outcome of every attempted operation into the aggregate
    /// result: each operation counted exactly once as a success or a
    /// failure, and one message per failure, in submission order. The fold
    /// itself cannot fail, whatever the outcomes were.
    pub fn batch_process(operations: &Vec<FileOperation>, outcomes: &Vec<Result<(), String>>) -> (r:
        ProcessResult)
        requires
            operations@.len() == outcomes@.len(),
        ensures
            r.success_count == count_ok(outcomes@),
            r.success_count + r.failed_count == operations@.len(),
            r.errors@.len() == r.failed_count,
            error_views(r.errors@) == failure_messages(operations@, outcomes@),
    {
        let mut success_count: usize = 0;
        let mut failed_count: usize = 0;
        let mut errors: Vec<String> = Vec::new();
        let n = operations.len();
        let mut i: usize = 0;
        proof {
            assert(outcomes@.subrange(0, 0).len() == 0);
        }
        while i < n
            invariant
                n == operations@.len(),
                n == outcomes@.len(),
                i <= n,
                success_count == count_ok(outcomes@.subrange(0, i as int)),
                success_count + failed_count == i,
                errors@.len() == failed_count,
                error_views(errors@) =~= failure_messages(
                    operations@.subrange(0, i as int),
                    outcomes@.subrange(0, i as int),
                ),
            decreases n - i,
        {
            let ghost ops_pre = operations@.subrange(0, i as int);
            let ghost out_pre = outcomes@.subrange(0, i as int);
            match &outcomes[i] {
                Ok(_) => {
                    success_count += 1;
                },
                Err(cause) => {
                    failed_count += 1;
                    let msg = build_failure_message(&operations[i], cause.as_str());
                    let ghost errs_pre = errors@;
                    errors.push(msg);
                    proof {
                        assert(error_views(errors@) =~= error_views(errs_pre).push(msg@));
                    }
                },
            }
            proof {
                let ops_post = operations@.subrange(0, i + 1);
                let out_post = outcomes@.subrange(0, i + 1);
                assert(ops_post.drop_last() =~= ops_pre);
                assert(out_post.drop_last() =~= out_pre);
                assert(ops_post.last() == operations@[i as int]);
                assert(out_post.last() == outcomes@[i as int]);
            }
            i += 1;
        }
        proof {
            assert(operations@.subrange(0, n as int) =~= operations@);
            assert(outcomes@.subrange(0, n as int) =~= outcomes@);
        }
        ProcessResult { success_count, failed_count, errors }
    }
}

} // verus!
