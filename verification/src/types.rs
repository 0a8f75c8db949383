//! Record types: an operation's cumulative counters, the optional VFS event
//! block, one mount's snapshot, the derived delta record, and the library's
//! error type. Each carries a mathematical view that the contracts speak of.

use vstd::prelude::*;
use crate::maps::AssocMap;
use crate::maps::keys_unique;
use crate::numeric::IntParseError;

verus! {

/// Why a report could not be parsed.
#[derive(Debug, Clone, PartialEq)]
pub enum NfsGazeError {
    /// A section line is present but malformed; the message names it.
    ParseError(String),
    /// The requested mount path is not in the parsed report.
    MountNotFound(String),
    /// An events line with fewer than the required number of counters.
    InvalidEventsParts(usize),
    /// A counter token that is not a 64-bit integer, with the field named.
    FieldParseError { field: String, source: IntParseError },
}

/// Mathematical view of `NfsGazeError`.
#[verifier::ext_equal]
pub ghost enum ErrorV {
    ParseError(Seq<char>),
    MountNotFound(Seq<char>),
    InvalidEventsParts(int),
    FieldParseError { field: Seq<char>, source: IntParseError },
}

impl View for NfsGazeError {
    type V = ErrorV;

    open spec fn view(&self) -> ErrorV {
        match self {
            NfsGazeError::ParseError(s) => ErrorV::ParseError(s@),
            NfsGazeError::MountNotFound(s) => ErrorV::MountNotFound(s@),
            NfsGazeError::InvalidEventsParts(n) => ErrorV::InvalidEventsParts(*n as int),
            NfsGazeError::FieldParseError { field, source } => ErrorV::FieldParseError {
                field: field@,
                source: *source,
            },
        }
    }
}

impl NfsGazeError {
    /// A short description of the failure, for callers that log it.
    pub fn message(&self) -> (r: String)
        ensures
            match self@ {
                ErrorV::ParseError(s) => r@ == "parse error: "@ + s,
                ErrorV::MountNotFound(s) => r@ == "mount point not found: "@ + s,
                ErrorV::InvalidEventsParts(_) => r@ == "invalid number of parts for events line"@,
                ErrorV::FieldParseError { field, source: _ } => r@ == "error parsing field: "@
                    + field,
            },
    {
        match self {
            NfsGazeError::ParseError(s) => {
                let mut r = String::from_str("parse error: ");
                r.append(s.as_str());
                r
            },
            NfsGazeError::MountNotFound(s) => {
                let mut r = String::from_str("mount point not found: ");
                r.append(s.as_str());
                r
            },
            NfsGazeError::InvalidEventsParts(_) => String::from_str(
                "invalid number of parts for events line",
            ),
            NfsGazeError::FieldParseError { field, source: _ } => {
                let mut r = String::from_str("error parsing field: ");
                r.append(field.as_str());
                r
            },
        }
    }
}

/// Cumulative counters for one RPC-style operation on one mount.
#[derive(Debug, Clone, PartialEq)]
pub struct NFSOperation {
    pub name: String,
    pub ops: i64,
    pub ntrans: i64,
    pub timeouts: i64,
    pub bytes_sent: i64,
    pub bytes_recv: i64,
    /// Cumulative queue time, in the report's native unit (milliseconds).
    pub queue_time: i64,
    /// Cumulative round-trip time, milliseconds.
    pub rtt: i64,
    /// Cumulative execution time, milliseconds.
    pub execute_time: i64,
    pub errors: i64,
}

/// Mathematical view of `NFSOperation`.
#[verifier::ext_equal]
pub ghost struct OperationV {
    pub name: Seq<char>,
    pub ops: i64,
    pub ntrans: i64,
    pub timeouts: i64,
    pub bytes_sent: i64,
    pub bytes_recv: i64,
    pub queue_time: i64,
    pub rtt: i64,
    pub execute_time: i64,
    pub errors: i64,
}

impl View for NFSOperation {
    type V = OperationV;

    open spec fn view(&self) -> OperationV {
        OperationV {
            name: self.name@,
            ops: self.ops,
            ntrans: self.ntrans,
            timeouts: self.timeouts,
            bytes_sent: self.bytes_sent,
            bytes_recv: self.bytes_recv,
            queue_time: self.queue_time,
            rtt: self.rtt,
            execute_time: self.execute_time,
            errors: self.errors,
        }
    }
}

impl NFSOperation {
    /// A structurally equal copy.
    pub fn duplicate(&self) -> (r: Self)
        ensures
            r@ == self@,
    {
        NFSOperation {
            name: self.name.clone(),
            ops: self.ops,
            ntrans: self.ntrans,
            timeouts: self.timeouts,
            bytes_sent: self.bytes_sent,
            bytes_recv: self.bytes_recv,
            queue_time: self.queue_time,
            rtt: self.rtt,
            execute_time: self.execute_time,
            errors: self.errors,
        }
    }
}

/// The fixed-shape block of VFS and cache event counters; the two pNFS
/// counters are present only in newer report versions and default to zero.
#[derive(Debug, Clone, Copy, PartialEq, Eq, Structural)]
pub struct NFSEvents {
    pub inode_revalidate: i64,
    pub dentry_revalidate: i64,
    pub data_invalidate: i64,
    pub attr_invalidate: i64,
    pub vfs_open: i64,
    pub vfs_lookup: i64,
    pub vfs_access: i64,
    pub vfs_update_page: i64,
    pub vfs_read_page: i64,
    pub vfs_read_pages: i64,
    pub vfs_write_page: i64,
    pub vfs_write_pages: i64,
    pub vfs_getdents: i64,
    pub vfs_setattr: i64,
    pub vfs_flush: i64,
    pub vfs_fsync: i64,
    pub vfs_lock: i64,
    pub vfs_release: i64,
    pub congestion_wait: i64,
    pub setattr_trunc: i64,
    pub extend_write: i64,
    pub silly_rename: i64,
    pub short_read: i64,
    pub short_write: i64,
    pub delay: i64,
    pub pnfs_read: i64,
    pub pnfs_write: i64,
}

/// The all-zero event block.
pub open spec fn zero_events() -> NFSEvents {
    NFSEvents {
        inode_revalidate: 0,
        dentry_revalidate: 0,
        data_invalidate: 0,
        attr_invalidate: 0,
        vfs_open: 0,
        vfs_lookup: 0,
        vfs_access: 0,
        vfs_update_page: 0,
        vfs_read_page: 0,
        vfs_read_pages: 0,
        vfs_write_page: 0,
        vfs_write_pages: 0,
        vfs_getdents: 0,
        vfs_setattr: 0,
        vfs_flush: 0,
        vfs_fsync: 0,
        vfs_lock: 0,
        vfs_release: 0,
        congestion_wait: 0,
        setattr_trunc: 0,
        extend_write: 0,
        silly_rename: 0,
        short_read: 0,
        short_write: 0,
        delay: 0,
        pnfs_read: 0,
        pnfs_write: 0,
    }
}

impl Default for NFSEvents {
    /// The all-zero event block.
    fn default() -> (r: Self)
        ensures
            r == zero_events(),
    {
        NFSEvents {
            inode_revalidate: 0,
            dentry_revalidate: 0,
            data_invalidate: 0,
            attr_invalidate: 0,
            vfs_open: 0,
            vfs_lookup: 0,
            vfs_access: 0,
            vfs_update_page: 0,
            vfs_read_page: 0,
            vfs_read_pages: 0,
            vfs_write_page: 0,
            vfs_write_pages: 0,
            vfs_getdents: 0,
            vfs_setattr: 0,
            vfs_flush: 0,
            vfs_fsync: 0,
            vfs_lock: 0,
            vfs_release: 0,
            congestion_wait: 0,
            setattr_trunc: 0,
            extend_write: 0,
            silly_rename: 0,
            short_read: 0,
            short_write: 0,
            delay: 0,
            pnfs_read: 0,
            pnfs_write: 0,
        }
    }
}

/// The operation table of one mount: operation name to cumulative counters.
pub type OpMap = AssocMap<NFSOperation>;

/// One filesystem mount at one point in time.
#[derive(Debug, PartialEq)]
pub struct NFSMount {
    /// The device string, `server:/export`.
    pub device: String,
    pub mount_point: String,
    /// Host part of the device string, before the first colon.
    pub server: String,
    /// Export part of the device string; `/` when no colon is present.
    pub export: String,
    /// Mount age in seconds.
    pub age: i64,
    pub operations: OpMap,
    /// Absent, not zero, when the report has no events line for this mount.
    pub events: Option<NFSEvents>,
    pub bytes_read: i64,
    pub bytes_write: i64,
}

/// Mathematical view of `NFSMount`.
#[verifier::ext_equal]
pub ghost struct MountV {
    pub device: Seq<char>,
    pub mount_point: Seq<char>,
    pub server: Seq<char>,
    pub export: Seq<char>,
    pub age: i64,
    pub operations: Seq<(Seq<char>, OperationV)>,
    pub events: Option<NFSEvents>,
    pub bytes_read: i64,
    pub bytes_write: i64,
}

impl View for NFSMount {
    type V = MountV;

    open spec fn view(&self) -> MountV {
        MountV {
            device: self.device@,
            mount_point: self.mount_point@,
            server: self.server@,
            export: self.export@,
            age: self.age,
            operations: self.operations@,
            events: self.events,
            bytes_read: self.bytes_read,
            bytes_write: self.bytes_write,
        }
    }
}

impl DeepView for NFSMount {
    type V = MountV;

    open spec fn deep_view(&self) -> MountV {
        self@
    }
}

/// A snapshot's operation table is well formed: keys are unique and each
/// entry's name field is its key.
pub open spec fn ops_wf(m: Seq<(Seq<char>, OperationV)>) -> bool {
    &&& keys_unique(m)
    &&& forall|i: int| 0 <= i < m.len() ==> (#[trigger] m[i].1).name == m[i].0
}

/// A well-formed mount snapshot.
pub open spec fn mount_wf(m: MountV) -> bool {
    ops_wf(m.operations)
}

/// Upserting an operation under its own name keeps the table well formed.
pub proof fn lemma_ops_wf_upsert(m: Seq<(Seq<char>, OperationV)>, k: Seq<char>, op: OperationV)
    requires
        ops_wf(m),
        op.name == k,
    ensures
        ops_wf(crate::maps::assoc_upsert(m, k, op)),
{
    crate::maps::lemma_assoc_upsert_unique(m, k, op);
    crate::maps::lemma_assoc_upsert_pointwise(m, k, op);
    let u = crate::maps::assoc_upsert(m, k, op);
    assert forall|i: int| 0 <= i < u.len() implies (#[trigger] u[i].1).name == u[i].0 by {
        if u[i] == (k, op) {
        } else {
            assert(u[i] == m[i]);
        }
    }
}

impl NFSMount {
    /// A structurally equal copy.
    pub fn duplicate(&self) -> (r: Self)
        ensures
            r@ == self@,
    {
        let mut operations: OpMap = AssocMap::new();
        let n: usize = self.operations.len();
        let mut i: usize = 0;
        while i < n
            invariant
                i <= n,
                n == self.operations@.len(),
                operations@ == self.operations@.subrange(0, i as int),
            decreases n - i,
        {
            let key: String = self.operations.key_at(i).clone();
            let val: NFSOperation = self.operations.value_at(i).duplicate();
            proof {
                use_type_invariant(&self.operations);
                let pre = self.operations@.subrange(0, i as int);
                assert(forall|j: int|
                    0 <= j < pre.len() ==> (#[trigger] pre[j]).0 == self.operations@[j].0);
                crate::maps::lemma_assoc_upsert_missing(pre, key@, val@);
                assert(pre.push((key@, val@)) =~= self.operations@.subrange(0, i + 1 as int));
            }
            operations.insert(key, val);
            i = i + 1;
        }
        proof {
            assert(self.operations@.subrange(0, n as int) =~= self.operations@);
        }
        let r = NFSMount {
            device: self.device.clone(),
            mount_point: self.mount_point.clone(),
            server: self.server.clone(),
            export: self.export.clone(),
            age: self.age,
            operations,
            events: match &self.events {
                Some(e) => Some(*e),
                None => None,
            },
            bytes_read: self.bytes_read,
            bytes_write: self.bytes_write,
        };
        proof {
            assert(r@ =~= self@);
        }
        r
    }
}

/// The mapping from mount path to snapshot that one parsed report yields.
pub type MountMap = AssocMap<NFSMount>;

/// An exact rational number; the delta engine's rates are fractions of
/// integer counters and an integer elapsed time, so they are reported
/// exactly rather than rounded.
#[derive(Debug, Clone, Copy, PartialEq, Eq, Structural)]
pub struct Ratio {
    /// Numerator; carries the sign.
    pub num: i128,
    /// Denominator; always at least one.
    pub den: i128,
}

/// Mathematical view of `Ratio`.
#[verifier::ext_equal]
pub ghost struct RatioV {
    pub num: int,
    pub den: int,
}

impl View for Ratio {
    type V = RatioV;

    open spec fn view(&self) -> RatioV {
        RatioV { num: self.num as int, den: self.den as int }
    }
}

/// The zero rational.
pub open spec fn ratio_zero() -> RatioV {
    RatioV { num: 0, den: 1 }
}

impl Ratio {
    /// The zero rational.
    pub fn zero() -> (r: Self)
        ensures
            r@ == ratio_zero(),
    {
        Ratio { num: 0, den: 1 }
    }
}

/// Per-operation deltas between two snapshots, with derived rates. Raw
/// deltas may be negative after a counter reset; they are passed through
/// unclamped.
#[derive(Debug, Clone, PartialEq)]
pub struct DeltaStats {
    pub operation: String,
    pub delta_ops: i128,
    /// Bytes sent plus bytes received.
    pub delta_bytes: i128,
    pub delta_sent: i128,
    pub delta_recv: i128,
    pub delta_rtt: i128,
    pub delta_exec: i128,
    pub delta_queue: i128,
    pub delta_errors: i128,
    pub delta_retrans: i128,
    /// Average round-trip time per operation, milliseconds; zero when no new operations.
    pub avg_rtt: Ratio,
    pub avg_exec: Ratio,
    pub avg_queue: Ratio,
    /// Kilobytes transferred per operation.
    pub kb_per_op: Ratio,
    /// Kilobytes transferred per second.
    pub kb_per_sec: Ratio,
    /// Operations per second.
    pub iops: Ratio,
}

/// Mathematical view of `DeltaStats`.
#[verifier::ext_equal]
pub ghost struct DeltaV {
    pub operation: Seq<char>,
    pub delta_ops: int,
    pub delta_bytes: int,
    pub delta_sent: int,
    pub delta_recv: int,
    pub delta_rtt: int,
    pub delta_exec: int,
    pub delta_queue: int,
    pub delta_errors: int,
    pub delta_retrans: int,
    pub avg_rtt: RatioV,
    pub avg_exec: RatioV,
    pub avg_queue: RatioV,
    pub kb_per_op: RatioV,
    pub kb_per_sec: RatioV,
    pub iops: RatioV,
}

impl View for DeltaStats {
    type V = DeltaV;

    open spec fn view(&self) -> DeltaV {
        DeltaV {
            operation: self.operation@,
            delta_ops: self.delta_ops as int,
            delta_bytes: self.delta_bytes as int,
            delta_sent: self.delta_sent as int,
            delta_recv: self.delta_recv as int,
            delta_rtt: self.delta_rtt as int,
            delta_exec: self.delta_exec as int,
            delta_queue: self.delta_queue as int,
            delta_errors: self.delta_errors as int,
            delta_retrans: self.delta_retrans as int,
            avg_rtt: self.avg_rtt@,
            avg_exec: self.avg_exec@,
            avg_queue: self.avg_queue@,
            kb_per_op: self.kb_per_op@,
            kb_per_sec: self.kb_per_sec@,
            iops: self.iops@,
        }
    }
}

impl DeepView for DeltaStats {
    type V = DeltaV;

    open spec fn deep_view(&self) -> DeltaV {
        self@
    }
}

impl DeltaStats {
    /// A structurally equal copy.
    pub fn duplicate(&self) -> (r: Self)
        ensures
            r@ == self@,
    {
        DeltaStats {
            operation: self.operation.clone(),
            delta_ops: self.delta_ops,
            delta_bytes: self.delta_bytes,
            delta_sent: self.delta_sent,
            delta_recv: self.delta_recv,
            delta_rtt: self.delta_rtt,
            delta_exec: self.delta_exec,
            delta_queue: self.delta_queue,
            delta_errors: self.delta_errors,
            delta_retrans: self.delta_retrans,
            avg_rtt: self.avg_rtt,
            avg_exec: self.avg_exec,
            avg_queue: self.avg_queue,
            kb_per_op: self.kb_per_op,
            kb_per_sec: self.kb_per_sec,
            iops: self.iops,
        }
    }
}

} // verus!
