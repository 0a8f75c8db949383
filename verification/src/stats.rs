//! The delta engine: compare two snapshots of the same mount and derive
//! per-operation deltas and exact rational rates, and filter the result by
//! operation name.
//!
//! Counters may have decreased (the mount was remounted and its counters
//! reset): raw deltas are passed through unclamped, and only the per-op and
//! per-second averages are zeroed when their denominator is not meaningful.

use vstd::prelude::*;
use crate::cli::OpFilter;
use crate::maps::assoc_get;
use crate::text::lex_le;
use crate::text::lemma_lex_connex;
use crate::text::lemma_lex_le_trans;
use crate::text::str_lt;
use crate::types::DeltaStats;
use crate::types::DeltaV;
use crate::types::NFSMount;
use crate::types::NFSOperation;
use crate::types::OperationV;
use crate::types::Ratio;
use crate::types::RatioV;
use crate::types::ratio_zero;

verus! {

/// All-zero counters standing in for an operation absent from the previous
/// snapshot: an operation first observed this interval.
pub open spec fn zero_op(name: Seq<char>) -> OperationV {
    OperationV {
        name: name,
        ops: 0,
        ntrans: 0,
        timeouts: 0,
        bytes_sent: 0,
        bytes_recv: 0,
        queue_time: 0,
        rtt: 0,
        execute_time: 0,
        errors: 0,
    }
}

/// The previous snapshot's counters for `name`, all zero when absent.
pub open spec fn prev_counters(prev: Seq<(Seq<char>, OperationV)>, name: Seq<char>) -> OperationV {
    match assoc_get(prev, name) {
        Some(op) => op,
        None => zero_op(name),
    }
}

/// The delta record derived from one operation's previous and current
/// counters and the elapsed time in microseconds. Raw deltas are plain
/// differences, negative after a counter reset. Each average is an exact
/// rational, zero when its denominator (new operations, or elapsed time)
/// is not positive.
pub open spec fn spec_operation_delta(prev: OperationV, cur: OperationV, elapsed_micros: int) -> DeltaV {
    let d_ops = cur.ops - prev.ops;
    let d_sent = cur.bytes_sent - prev.bytes_sent;
    let d_recv = cur.bytes_recv - prev.bytes_recv;
    let d_bytes = d_sent + d_recv;
    let d_rtt = cur.rtt - prev.rtt;
    let d_exec = cur.execute_time - prev.execute_time;
    let d_queue = cur.queue_time - prev.queue_time;
    DeltaV {
        operation: cur.name,
        delta_ops: d_ops,
        delta_bytes: d_bytes,
        delta_sent: d_sent,
        delta_recv: d_recv,
        delta_rtt: d_rtt,
        delta_exec: d_exec,
        delta_queue: d_queue,
        delta_errors: cur.errors - prev.errors,
        delta_retrans: cur.timeouts - prev.timeouts,
        avg_rtt: if d_ops > 0 {
            RatioV { num: d_rtt, den: d_ops }
        } else {
            ratio_zero()
        },
        avg_exec: if d_ops > 0 {
            RatioV { num: d_exec, den: d_ops }
        } else {
            ratio_zero()
        },
        avg_queue: if d_ops > 0 {
            RatioV { num: d_queue, den: d_ops }
        } else {
            ratio_zero()
        },
        kb_per_op: if d_ops > 0 {
            RatioV { num: d_bytes, den: 1024 * d_ops }
        } else {
            ratio_zero()
        },
        kb_per_sec: if elapsed_micros > 0 {
            RatioV { num: d_bytes * 1000000, den: 1024 * elapsed_micros }
        } else {
            ratio_zero()
        },
        iops: if elapsed_micros > 0 {
            RatioV { num: d_ops * 1000000, den: elapsed_micros }
        } else {
            ratio_zero()
        },
    }
}

/// Deltas for every operation of the current snapshot's table, in table
/// order, keeping only operations with new activity this interval.
pub open spec fn spec_mount_deltas(
    prev: Seq<(Seq<char>, OperationV)>,
    cur: Seq<(Seq<char>, OperationV)>,
    elapsed_micros: int,
) -> Seq<DeltaV>
    decreases cur.len(),
{
    if cur.len() == 0 {
        Seq::empty()
    } else {
        let rest = spec_mount_deltas(prev, cur.drop_last(), elapsed_micros);
        let d = spec_operation_delta(
            prev_counters(prev, cur.last().0),
            cur.last().1,
            elapsed_micros,
        );
        if d.delta_ops > 0 {
            rest.push(d)
        } else {
            rest
        }
    }
}

/// The records are in ascending order of operation name.
pub open spec fn sorted_by_operation(s: Seq<DeltaV>) -> bool {
    forall|i: int, j: int| 0 <= i < j < s.len() ==> lex_le(s[i].operation, s[j].operation)
}

fn zero_operation(name: &String) -> (r: NFSOperation)
    ensures
        r@ == zero_op(name@),
{
    NFSOperation {
        name: name.clone(),
        ops: 0,
        ntrans: 0,
        timeouts: 0,
        bytes_sent: 0,
        bytes_recv: 0,
        queue_time: 0,
        rtt: 0,
        execute_time: 0,
        errors: 0,
    }
}

fn operation_delta(prev: &NFSOperation, cur: &NFSOperation, elapsed_micros: u64) -> (r: DeltaStats)
    ensures
        r@ == spec_operation_delta(prev@, cur@, elapsed_micros as int),
{
    let d_ops: i128 = (cur.ops as i128) - (prev.ops as i128);
    let d_sent: i128 = (cur.bytes_sent as i128) - (prev.bytes_sent as i128);
    let d_recv: i128 = (cur.bytes_recv as i128) - (prev.bytes_recv as i128);
    let d_bytes: i128 = d_sent + d_recv;
    let d_rtt: i128 = (cur.rtt as i128) - (prev.rtt as i128);
    let d_exec: i128 = (cur.execute_time as i128) - (prev.execute_time as i128);
    let d_queue: i128 = (cur.queue_time as i128) - (prev.queue_time as i128);
    let d_errors: i128 = (cur.errors as i128) - (prev.errors as i128);
    let d_retrans: i128 = (cur.timeouts as i128) - (prev.timeouts as i128);
    let r = DeltaStats {
        operation: cur.name.clone(),
        delta_ops: d_ops,
        delta_bytes: d_bytes,
        delta_sent: d_sent,
        delta_recv: d_recv,
        delta_rtt: d_rtt,
        delta_exec: d_exec,
        delta_queue: d_queue,
        delta_errors: d_errors,
        delta_retrans: d_retrans,
        avg_rtt: if d_ops > 0 {
            Ratio { num: d_rtt, den: d_ops }
        } else {
            Ratio::zero()
        },
        avg_exec: if d_ops > 0 {
            Ratio { num: d_exec, den: d_ops }
        } else {
            Ratio::zero()
        },
        avg_queue: if d_ops > 0 {
            Ratio { num: d_queue, den: d_ops }
        } else {
            Ratio::zero()
        },
        kb_per_op: if d_ops > 0 {
            Ratio { num: d_bytes, den: 1024 * d_ops }
        } else {
            Ratio::zero()
        },
        kb_per_sec: if elapsed_micros > 0 {
            Ratio { num: d_bytes * 1000000, den: 1024 * (elapsed_micros as i128) }
        } else {
            Ratio::zero()
        },
        iops: if elapsed_micros > 0 {
            Ratio { num: d_ops * 1000000, den: elapsed_micros as i128 }
        } else {
            Ratio::zero()
        },
    };
    proof {
        assert(r@ =~= spec_operation_delta(prev@, cur@, elapsed_micros as int));
    }
    r
}

proof fn lemma_insert_multiset<A>(s: Seq<A>, x: A, i: int)
    requires
        0 <= i <= s.len(),
    ensures
        s.insert(i, x).to_multiset() == s.to_multiset().insert(x),
{
    broadcast use vstd::seq_lib::group_to_multiset_ensures;

    let l = s.subrange(0, i);
    let r = s.subrange(i, s.len() as int);
    assert(s.insert(i, x) == l.push(x) + r);
    vstd::seq_lib::lemma_multiset_commutative(l.push(x), r);
    vstd::seq_lib::lemma_multiset_commutative(l, r);
    assert(s =~= l + r);
    assert(l.push(x).to_multiset() =~= l.to_multiset().insert(x));
    assert(l.to_multiset().insert(x).add(r.to_multiset()) =~= l.to_multiset().add(
        r.to_multiset(),
    ).insert(x));
}

/// Insert one record into a name-sorted vector, keeping it sorted.
fn insert_sorted(stats: Vec<DeltaStats>, d: DeltaStats) -> (r: Vec<DeltaStats>)
    requires
        sorted_by_operation(stats.deep_view()),
    ensures
        sorted_by_operation(r.deep_view()),
        r.deep_view().to_multiset() == stats.deep_view().to_multiset().insert(d@),
{
    let mut out = stats;
    let n: usize = out.len();
    let mut p: usize = 0;
    while p < n && str_lt(out[p].operation.as_str(), d.operation.as_str())
        invariant
            p <= n,
            n == out.deep_view().len(),
            n == out@.len(),
            forall|q: int|
                0 <= q < p ==> crate::text::lex_lt(
                    (#[trigger] out.deep_view()[q]).operation,
                    d@.operation,
                ),
        decreases n - p,
    {
        assert(out.deep_view()[p as int] == out@[p as int]@);
        p = p + 1;
    }
    let ghost pre = out.deep_view();
    proof {
        if p < n {
            assert(out.deep_view()[p as int] == out@[p as int]@);
            lemma_lex_connex(d@.operation, pre[p as int].operation);
        }
    }
    out.insert(p, d);
    proof {
        pre.insert_ensures(p as int, d@);
        assert(out.deep_view() =~= pre.insert(p as int, d@));
        lemma_insert_multiset(pre, d@, p as int);
        let dv = out.deep_view();
        assert forall|i: int, j: int| 0 <= i < j < dv.len() implies lex_le(
            dv[i].operation,
            dv[j].operation,
        ) by {
            let pi = p as int;
            if j < pi {
            } else if i < pi && j == pi {
            } else if i < pi && j > pi {
                assert(dv[i] == pre[i]);
                assert(dv[j] == pre[j - 1]);
            } else if i == pi {
                assert(dv[j] == pre[j - 1]);
                if j - 1 > pi {
                    lemma_lex_le_trans(d@.operation, pre[pi].operation, pre[j - 1].operation);
                }
            } else {
                assert(dv[i] == pre[i - 1]);
                assert(dv[j] == pre[j - 1]);
            }
        }
    }
    out
}

/// Compare two snapshots of the same mount over an elapsed interval, given
/// in microseconds. The result holds exactly the deltas of the current
/// snapshot's operations that saw new activity (`spec_mount_deltas`),
/// rearranged into ascending operation-name order.
pub fn calculate_delta_stats(previous: &NFSMount, current: &NFSMount, elapsed_micros: u64) -> (r:
    Vec<DeltaStats>)
    ensures
        r.deep_view().to_multiset() == spec_mount_deltas(
            previous@.operations,
            current@.operations,
            elapsed_micros as int,
        ).to_multiset(),
        sorted_by_operation(r.deep_view()),
{
    broadcast use vstd::seq_lib::group_to_multiset_ensures;

    let mut out: Vec<DeltaStats> = Vec::new();
    let n: usize = current.operations.len();
    let mut i: usize = 0;
    proof {
        assert(current@.operations.subrange(0, 0) =~= Seq::<(Seq<char>, OperationV)>::empty());
        assert(out.deep_view() =~= Seq::<DeltaV>::empty());
    }
    while i < n
        invariant
            i <= n,
            n == current@.operations.len(),
            sorted_by_operation(out.deep_view()),
            out.deep_view().to_multiset() == spec_mount_deltas(
                previous@.operations,
                current@.operations.subrange(0, i as int),
                elapsed_micros as int,
            ).to_multiset(),
        decreases n - i,
    {
        broadcast use vstd::seq_lib::group_to_multiset_ensures;

        let name: &String = current.operations.key_at(i);
        let cur_op: &NFSOperation = current.operations.value_at(i);
        let prev_op: NFSOperation = match previous.operations.get(name.as_str()) {
            Some(p) => p.duplicate(),
            None => zero_operation(name),
        };
        assert(prev_op@ == prev_counters(previous@.operations, current@.operations[i as int].0));
        let d = operation_delta(&prev_op, cur_op, elapsed_micros);
        proof {
            let pre_seq = current@.operations.subrange(0, i as int);
            let post_seq = current@.operations.subrange(0, i + 1 as int);
            assert(post_seq.drop_last() =~= pre_seq);
            assert(post_seq.last() == current@.operations[i as int]);
        }
        if d.delta_ops > 0 {
            out = insert_sorted(out, d);
        }
        i = i + 1;
    }
    proof {
        assert(current@.operations.subrange(0, n as int) =~= current@.operations);
    }
    out
}

/// Keep only the records whose operation name is in the allow-set; an
/// empty set means no filtering, and the input is returned unchanged.
pub fn filter_operations(stats: Vec<DeltaStats>, filter: &OpFilter) -> (r: Vec<DeltaStats>)
    ensures
        r.deep_view() == (if filter@.len() == 0 {
            stats.deep_view()
        } else {
            stats.deep_view().filter(|d: DeltaV| filter@.contains(d.operation))
        }),
{
    if filter.is_empty() {
        return stats;
    }
    let ghost pred = |d: DeltaV| filter@.contains(d.operation);
    let n: usize = stats.len();
    let mut out: Vec<DeltaStats> = Vec::new();
    let mut i: usize = 0;
    proof {
        reveal(Seq::filter);
        assert(stats.deep_view().subrange(0, 0) =~= Seq::<DeltaV>::empty());
        assert(out.deep_view() =~= Seq::<DeltaV>::empty());
    }
    while i < n
        invariant
            i <= n,
            n == stats.deep_view().len(),
            n == stats@.len(),
            pred == (|d: DeltaV| filter@.contains(d.operation)),
            out.deep_view() == stats.deep_view().subrange(0, i as int).filter(pred),
        decreases n - i,
    {
        proof {
            reveal(Seq::filter);
            let pre_seq = stats.deep_view().subrange(0, i as int);
            let post_seq = stats.deep_view().subrange(0, i + 1 as int);
            assert(post_seq.drop_last() =~= pre_seq);
            assert(post_seq.last() == stats.deep_view()[i as int]);
            assert(stats.deep_view()[i as int] == stats@[i as int]@);
        }
        let elem: &DeltaStats = &stats[i];
        if filter.contains(elem.operation.as_str()) {
            let ghost pre_dv = out.deep_view();
            out.push(elem.duplicate());
            proof {
                assert(out.deep_view() =~= pre_dv.push(stats.deep_view()[i as int]));
            }
        }
        i = i + 1;
    }
    proof {
        assert(stats.deep_view().subrange(0, n as int) =~= stats.deep_view());
    }
    out
}

} // verus!
