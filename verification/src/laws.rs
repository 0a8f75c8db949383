//! Laws of the library that span more than one function's contract, stated
//! once and proved from the same spec functions the contracts use.

use vstd::prelude::*;
use crate::maps::assoc_get;
use crate::maps::lemma_assoc_get_at;
use crate::numeric::spec_parse_i64;
use crate::parser::first_bad_index;
use crate::parser::ops_upto;
use crate::parser::spec_parse_operation;
use crate::parser::spec_parse_report;
use crate::stats::prev_counters;
use crate::stats::spec_mount_deltas;
use crate::types::DeltaV;
use crate::types::ErrorV;
use crate::types::MountV;
use crate::types::OperationV;
use crate::types::mount_wf;

verus! {

/// Parsing is idempotent: two parses of the same report text yield
/// structurally equal results, the mapping and the error alike.
pub proof fn lemma_parse_idempotent(
    lines: Seq<Seq<char>>,
    r1: Result<Seq<(Seq<char>, MountV)>, ErrorV>,
    r2: Result<Seq<(Seq<char>, MountV)>, ErrorV>,
)
    requires
        r1 == spec_parse_report(lines),
        r2 == spec_parse_report(lines),
    ensures
        r1 == r2,
{
}

proof fn lemma_no_activity_empty(
    prev: Seq<(Seq<char>, OperationV)>,
    cur: Seq<(Seq<char>, OperationV)>,
    elapsed_micros: int,
)
    requires
        forall|i: int|
            0 <= i < cur.len() ==> assoc_get(prev, (#[trigger] cur[i]).0) == Some(cur[i].1),
    ensures
        spec_mount_deltas(prev, cur, elapsed_micros) == Seq::<DeltaV>::empty(),
    decreases cur.len(),
{
    if cur.len() > 0 {
        assert(prev_counters(prev, cur.last().0) == cur.last().1);
        assert(forall|i: int|
            0 <= i < cur.drop_last().len() ==> #[trigger] cur.drop_last()[i] == cur[i]);
        lemma_no_activity_empty(prev, cur.drop_last(), elapsed_micros);
    }
}

/// Two snapshots of a mount with identical operation counters yield no
/// delta records: every delta of operations is zero, and such records are
/// left out.
pub proof fn lemma_identical_counters_empty(prev: MountV, cur: MountV, elapsed_micros: int)
    requires
        prev.operations == cur.operations,
        mount_wf(cur),
    ensures
        spec_mount_deltas(prev.operations, cur.operations, elapsed_micros) == Seq::<
            DeltaV,
        >::empty(),
{
    assert forall|i: int| 0 <= i < cur.operations.len() implies assoc_get(
        prev.operations,
        (#[trigger] cur.operations[i]).0,
    ) == Some(cur.operations[i].1) by {
        lemma_assoc_get_at(cur.operations, i);
    }
    lemma_no_activity_empty(prev.operations, cur.operations, elapsed_micros);
}

proof fn lemma_first_bad_complete(parts: Seq<Seq<char>>, upto: int)
    requires
        first_bad_index(parts, upto) is None,
    ensures
        forall|j: int| 0 <= j < upto ==> spec_parse_i64(#[trigger] parts[j]) is Ok,
    decreases upto,
{
    if upto > 0 {
        lemma_first_bad_complete(parts, upto - 1);
    }
}

/// An operation line with fewer than eight counter tokens, or whose read
/// tokens include one that is not an integer, is rejected outright: no
/// partially filled or defaulted record is ever produced.
pub proof fn lemma_bad_operation_line_rejected(name: Seq<char>, stats: Seq<Seq<char>>)
    requires
        stats.len() < 8 || exists|i: int|
            0 <= i < ops_upto(stats.len() as int) && spec_parse_i64(#[trigger] stats[i]) is Err,
    ensures
        spec_parse_operation(name, stats) is Err,
{
    if stats.len() >= 8 {
        if first_bad_index(stats, ops_upto(stats.len() as int)) is None {
            lemma_first_bad_complete(stats, ops_upto(stats.len() as int));
        }
    }
}

} // verus!
