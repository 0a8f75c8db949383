//! The snapshot parser: a line-oriented state machine that turns a report's
//! text into a mapping from mount path to `NFSMount`.
//!
//! Every function here is pinned to a mathematical model of the report
//! grammar: `spec_parse_report` folds `spec_parse_line` over the lines, and
//! the executable parser returns exactly what the model says, including
//! which error on which malformed input.

use vstd::prelude::*;
use crate::maps::AssocMap;
use crate::maps::assoc_upsert;
use crate::numeric::IntParseError;
use crate::numeric::dec_digits;
use crate::numeric::parse_i64;
use crate::numeric::spec_parse_i64;
use crate::numeric::usize_to_string;
use crate::text::contains_str;
use crate::text::find_char;
use crate::text::find_str;
use crate::text::match_at;
use crate::text::spec_starts_with;
use crate::text::spec_trim;
use crate::text::split_whitespace_owned;
use crate::text::split_ws;
use crate::text::starts_with;
use crate::text::str_eq;
use crate::text::trim;
use crate::types::ErrorV;
use crate::types::MountMap;
use crate::types::MountV;
use crate::types::NFSEvents;
use crate::types::NFSMount;
use crate::types::NFSOperation;
use crate::types::NfsGazeError;
use crate::types::OperationV;
use crate::types::lemma_ops_wf_upsert;
use crate::types::mount_wf;
use crate::types::ops_wf;

verus! {

/// Index of the first occurrence of `pat` in `s`.
pub open spec fn spec_find_str(s: Seq<char>, pat: Seq<char>) -> Option<int>
    decreases s.len(),
{
    if match_at(s, pat, 0) {
        Some(0)
    } else if s.len() == 0 {
        None
    } else {
        match spec_find_str(s.drop_first(), pat) {
            Some(i) => Some(i + 1),
            None => None,
        }
    }
}

proof fn lemma_find_str_pins(s: Seq<char>, pat: Seq<char>, i: int)
    requires
        match_at(s, pat, i),
        forall|j: int| 0 <= j < i ==> !match_at(s, pat, j),
    ensures
        spec_find_str(s, pat) == Some(i),
    decreases i,
{
    if i == 0 {
    } else {
        assert(!match_at(s, pat, 0));
        assert(match_at(s.drop_first(), pat, i - 1)) by {
            assert(forall|k: int|
                0 <= k < pat.len() ==> s.drop_first()[i - 1 + k] == s[i + k] && s[i + k]
                    == #[trigger] pat[k]);
        }
        assert forall|j: int| 0 <= j < i - 1 implies !match_at(s.drop_first(), pat, j) by {
            if match_at(s.drop_first(), pat, j) {
                assert(match_at(s, pat, j + 1)) by {
                    assert(forall|k: int|
                        0 <= k < pat.len() ==> s[j + 1 + k] == s.drop_first()[j + k]
                            && s.drop_first()[j + k] == #[trigger] pat[k]);
                }
            }
        }
        lemma_find_str_pins(s.drop_first(), pat, i - 1);
    }
}

proof fn lemma_find_str_none(s: Seq<char>, pat: Seq<char>)
    requires
        forall|j: int| !match_at(s, pat, j),
    ensures
        spec_find_str(s, pat) is None,
    decreases s.len(),
{
    if s.len() > 0 {
        assert forall|j: int| !match_at(s.drop_first(), pat, j) by {
            if 0 <= j && match_at(s.drop_first(), pat, j) {
                assert(match_at(s, pat, j + 1)) by {
                    assert(forall|k: int|
                        0 <= k < pat.len() ==> s[j + 1 + k] == s.drop_first()[j + k]
                            && s.drop_first()[j + k] == #[trigger] pat[k]);
                }
            }
        }
        lemma_find_str_none(s.drop_first(), pat);
    }
}

/// Index of the first occurrence of the character `c` in `s`.
pub open spec fn spec_find_char(s: Seq<char>, c: char) -> Option<int>
    decreases s.len(),
{
    if s.len() == 0 {
        None
    } else if s[0] == c {
        Some(0)
    } else {
        match spec_find_char(s.drop_first(), c) {
            Some(i) => Some(i + 1),
            None => None,
        }
    }
}

proof fn lemma_find_char_pins(s: Seq<char>, c: char, i: int)
    requires
        0 <= i < s.len(),
        s[i] == c,
        forall|j: int| 0 <= j < i ==> s[j] != c,
    ensures
        spec_find_char(s, c) == Some(i),
    decreases i,
{
    if i > 0 {
        assert(forall|j: int|
            0 <= j < s.drop_first().len() ==> #[trigger] s.drop_first()[j] == s[j + 1]);
        lemma_find_char_pins(s.drop_first(), c, i - 1);
    }
}

proof fn lemma_find_char_none(s: Seq<char>, c: char)
    requires
        forall|j: int| 0 <= j < s.len() ==> s[j] != c,
    ensures
        spec_find_char(s, c) is None,
    decreases s.len(),
{
    if s.len() > 0 {
        assert(forall|j: int|
            0 <= j < s.drop_first().len() ==> #[trigger] s.drop_first()[j] == s[j + 1]);
        lemma_find_char_none(s.drop_first(), c);
    }
}

/// Value of a token known to read as an integer.
pub open spec fn ok_i64(s: Seq<char>) -> i64 {
    spec_parse_i64(s)->Ok_0
}

/// The least index below `upto` whose token does not read as an integer.
pub open spec fn first_bad_index(parts: Seq<Seq<char>>, upto: int) -> Option<int>
    decreases upto,
{
    if upto <= 0 {
        None
    } else {
        match first_bad_index(parts, upto - 1) {
            Some(i) => Some(i),
            None => if spec_parse_i64(parts[upto - 1]) is Err {
                Some(upto - 1)
            } else {
                None
            },
        }
    }
}

proof fn lemma_first_bad_none(parts: Seq<Seq<char>>, upto: int)
    requires
        forall|j: int| 0 <= j < upto ==> spec_parse_i64(#[trigger] parts[j]) is Ok,
    ensures
        first_bad_index(parts, upto) is None,
    decreases upto,
{
    if upto > 0 {
        lemma_first_bad_none(parts, upto - 1);
    }
}

proof fn lemma_first_bad_some(parts: Seq<Seq<char>>, upto: int, i: int)
    requires
        0 <= i < upto,
        spec_parse_i64(parts[i]) is Err,
        forall|j: int| 0 <= j < i ==> spec_parse_i64(#[trigger] parts[j]) is Ok,
    ensures
        first_bad_index(parts, upto) == Some(i),
    decreases upto,
{
    if upto - 1 == i {
        lemma_first_bad_none(parts, i);
    } else {
        lemma_first_bad_some(parts, upto - 1, i);
    }
}

/// Name of the events-line field at position `i`.
pub open spec fn events_field_name(i: int) -> Seq<char> {
    if i == 0 {
        "InodeRevalidate"@
    } else if i == 1 {
        "DentryRevalidate"@
    } else if i == 2 {
        "DataInvalidate"@
    } else if i == 3 {
        "AttrInvalidate"@
    } else if i == 4 {
        "VFSOpen"@
    } else if i == 5 {
        "VFSLookup"@
    } else if i == 6 {
        "VFSAccess"@
    } else if i == 7 {
        "VFSUpdatePage"@
    } else if i == 8 {
        "VFSReadPage"@
    } else if i == 9 {
        "VFSReadPages"@
    } else if i == 10 {
        "VFSWritePage"@
    } else if i == 11 {
        "VFSWritePages"@
    } else if i == 12 {
        "VFSGetdents"@
    } else if i == 13 {
        "VFSSetattr"@
    } else if i == 14 {
        "VFSFlush"@
    } else if i == 15 {
        "VFSFsync"@
    } else if i == 16 {
        "VFSLock"@
    } else if i == 17 {
        "VFSRelease"@
    } else if i == 18 {
        "CongestionWait"@
    } else if i == 19 {
        "SetattrTrunc"@
    } else if i == 20 {
        "ExtendWrite"@
    } else if i == 21 {
        "SillyRename"@
    } else if i == 22 {
        "ShortRead"@
    } else if i == 23 {
        "ShortWrite"@
    } else if i == 24 {
        "Delay"@
    } else if i == 25 {
        "PNFSRead"@
    } else {
        "PNFSWrite"@
    }
}

fn events_field_label(i: usize) -> (r: &'static str)
    ensures
        r@ == events_field_name(i as int),
{
    if i == 0 {
        "InodeRevalidate"
    } else if i == 1 {
        "DentryRevalidate"
    } else if i == 2 {
        "DataInvalidate"
    } else if i == 3 {
        "AttrInvalidate"
    } else if i == 4 {
        "VFSOpen"
    } else if i == 5 {
        "VFSLookup"
    } else if i == 6 {
        "VFSAccess"
    } else if i == 7 {
        "VFSUpdatePage"
    } else if i == 8 {
        "VFSReadPage"
    } else if i == 9 {
        "VFSReadPages"
    } else if i == 10 {
        "VFSWritePage"
    } else if i == 11 {
        "VFSWritePages"
    } else if i == 12 {
        "VFSGetdents"
    } else if i == 13 {
        "VFSSetattr"
    } else if i == 14 {
        "VFSFlush"
    } else if i == 15 {
        "VFSFsync"
    } else if i == 16 {
        "VFSLock"
    } else if i == 17 {
        "VFSRelease"
    } else if i == 18 {
        "CongestionWait"
    } else if i == 19 {
        "SetattrTrunc"
    } else if i == 20 {
        "ExtendWrite"
    } else if i == 21 {
        "SillyRename"
    } else if i == 22 {
        "ShortRead"
    } else if i == 23 {
        "ShortWrite"
    } else if i == 24 {
        "Delay"
    } else if i == 25 {
        "PNFSRead"
    } else {
        "PNFSWrite"
    }
}

/// How many leading tokens of an events line are read: at most the two
/// optional pNFS counters beyond the 25 required ones.
pub open spec fn events_upto(n: int) -> int {
    if n > 27 {
        27
    } else {
        n
    }
}

/// What parsing an events line's tokens yields: the 25 required counters
/// positionally, the two pNFS counters when present, or the first failure.
pub open spec fn spec_parse_events(parts: Seq<Seq<char>>) -> Result<NFSEvents, ErrorV> {
    if parts.len() < 25 {
        Err(ErrorV::InvalidEventsParts(parts.len() as int))
    } else {
        match first_bad_index(parts, events_upto(parts.len() as int)) {
            Some(i) => Err(
                ErrorV::FieldParseError {
                    field: events_field_name(i),
                    source: spec_parse_i64(parts[i])->Err_0,
                },
            ),
            None => Ok(
                NFSEvents {
                    inode_revalidate: ok_i64(parts[0]),
                    dentry_revalidate: ok_i64(parts[1]),
                    data_invalidate: ok_i64(parts[2]),
                    attr_invalidate: ok_i64(parts[3]),
                    vfs_open: ok_i64(parts[4]),
                    vfs_lookup: ok_i64(parts[5]),
                    vfs_access: ok_i64(parts[6]),
                    vfs_update_page: ok_i64(parts[7]),
                    vfs_read_page: ok_i64(parts[8]),
                    vfs_read_pages: ok_i64(parts[9]),
                    vfs_write_page: ok_i64(parts[10]),
                    vfs_write_pages: ok_i64(parts[11]),
                    vfs_getdents: ok_i64(parts[12]),
                    vfs_setattr: ok_i64(parts[13]),
                    vfs_flush: ok_i64(parts[14]),
                    vfs_fsync: ok_i64(parts[15]),
                    vfs_lock: ok_i64(parts[16]),
                    vfs_release: ok_i64(parts[17]),
                    congestion_wait: ok_i64(parts[18]),
                    setattr_trunc: ok_i64(parts[19]),
                    extend_write: ok_i64(parts[20]),
                    silly_rename: ok_i64(parts[21]),
                    short_read: ok_i64(parts[22]),
                    short_write: ok_i64(parts[23]),
                    delay: ok_i64(parts[24]),
                    pnfs_read: if parts.len() > 25 {
                        ok_i64(parts[25])
                    } else {
                        0
                    },
                    pnfs_write: if parts.len() > 26 {
                        ok_i64(parts[26])
                    } else {
                        0
                    },
                },
            ),
        }
    }
}

/// Parse the whitespace tokens after an `events:` keyword, positionally.
/// Requires at least 25 tokens; tokens 26 and 27 fill the pNFS counters and
/// default to zero when absent. Fails on the first token that does not read
/// as an integer, naming the field.
pub fn parse_events(parts: &Vec<String>) -> (r: Result<NFSEvents, NfsGazeError>)
    ensures
        match r {
            Ok(ev) => spec_parse_events(parts.deep_view()) == Ok::<NFSEvents, ErrorV>(ev),
            Err(e) => spec_parse_events(parts.deep_view()) == Err::<NFSEvents, ErrorV>(e@),
        },
{
    let n: usize = parts.len();
    if n < 25 {
        return Err(NfsGazeError::InvalidEventsParts(n));
    }
    let upto: usize = if n > 27 {
        27
    } else {
        n
    };
    let mut vals: Vec<i64> = Vec::new();
    let mut i: usize = 0;
    while i < upto
        invariant
            i <= upto,
            upto == events_upto(n as int),
            25 <= n,
            upto <= n,
            n == parts.deep_view().len(),
            vals@.len() == i,
            forall|j: int|
                0 <= j < i ==> spec_parse_i64(#[trigger] parts.deep_view()[j]) == Ok::<
                    i64,
                    IntParseError,
                >(vals@[j]),
        decreases upto - i,
    {
        assert(parts.deep_view()[i as int] == parts@[i as int]@);
        match parse_i64(parts[i].as_str()) {
            Ok(v) => {
                vals.push(v);
            },
            Err(e) => {
                proof {
                    lemma_first_bad_some(parts.deep_view(), upto as int, i as int);
                }
                let field = String::from_str(events_field_label(i));
                return Err(NfsGazeError::FieldParseError { field, source: e });
            },
        }
        i = i + 1;
    }
    proof {
        lemma_first_bad_none(parts.deep_view(), upto as int);
    }
    let ev = NFSEvents {
        inode_revalidate: vals[0],
        dentry_revalidate: vals[1],
        data_invalidate: vals[2],
        attr_invalidate: vals[3],
        vfs_open: vals[4],
        vfs_lookup: vals[5],
        vfs_access: vals[6],
        vfs_update_page: vals[7],
        vfs_read_page: vals[8],
        vfs_read_pages: vals[9],
        vfs_write_page: vals[10],
        vfs_write_pages: vals[11],
        vfs_getdents: vals[12],
        vfs_setattr: vals[13],
        vfs_flush: vals[14],
        vfs_fsync: vals[15],
        vfs_lock: vals[16],
        vfs_release: vals[17],
        congestion_wait: vals[18],
        setattr_trunc: vals[19],
        extend_write: vals[20],
        silly_rename: vals[21],
        short_read: vals[22],
        short_write: vals[23],
        delay: vals[24],
        pnfs_read: if n > 25 {
            vals[25]
        } else {
            0
        },
        pnfs_write: if n > 26 {
            vals[26]
        } else {
            0
        },
    };
    Ok(ev)
}

/// Name of the operation-line counter at position `i`.
pub open spec fn op_field_name(i: int) -> Seq<char> {
    if i == 0 {
        "ops"@
    } else if i == 1 {
        "ntrans"@
    } else if i == 2 {
        "timeouts"@
    } else if i == 3 {
        "bytes_sent"@
    } else if i == 4 {
        "bytes_recv"@
    } else if i == 5 {
        "queue_time"@
    } else if i == 6 {
        "rtt"@
    } else if i == 7 {
        "execute_time"@
    } else {
        "errors"@
    }
}

fn op_field_label(i: usize) -> (r: &'static str)
    ensures
        r@ == op_field_name(i as int),
{
    if i == 0 {
        "ops"
    } else if i == 1 {
        "ntrans"
    } else if i == 2 {
        "timeouts"
    } else if i == 3 {
        "bytes_sent"
    } else if i == 4 {
        "bytes_recv"
    } else if i == 5 {
        "queue_time"
    } else if i == 6 {
        "rtt"
    } else if i == 7 {
        "execute_time"
    } else {
        "errors"
    }
}

/// The message reported for an operation line with too few tokens.
pub open spec fn op_insufficient_msg(name: Seq<char>, n: int) -> Seq<char> {
    "insufficient stats for operation "@ + name + ": got "@ + dec_digits(n) + ", need 8"@
}

/// How many leading tokens of an operation line are read: the eight
/// counters and the optional ninth errors token.
pub open spec fn ops_upto(n: int) -> int {
    if n > 9 {
        9
    } else {
        n
    }
}

/// What parsing an operation's counter tokens yields: the eight counters
/// positionally, the errors count when a ninth token is present, or the
/// first failure.
pub open spec fn spec_parse_operation(name: Seq<char>, stats: Seq<Seq<char>>) -> Result<
    OperationV,
    ErrorV,
> {
    if stats.len() < 8 {
        Err(ErrorV::ParseError(op_insufficient_msg(name, stats.len() as int)))
    } else {
        match first_bad_index(stats, ops_upto(stats.len() as int)) {
            Some(i) => Err(
                ErrorV::FieldParseError {
                    field: name + "_"@ + op_field_name(i),
                    source: spec_parse_i64(stats[i])->Err_0,
                },
            ),
            None => Ok(
                OperationV {
                    name: name,
                    ops: ok_i64(stats[0]),
                    ntrans: ok_i64(stats[1]),
                    timeouts: ok_i64(stats[2]),
                    bytes_sent: ok_i64(stats[3]),
                    bytes_recv: ok_i64(stats[4]),
                    queue_time: ok_i64(stats[5]),
                    rtt: ok_i64(stats[6]),
                    execute_time: ok_i64(stats[7]),
                    errors: if stats.len() > 8 {
                        ok_i64(stats[8])
                    } else {
                        0
                    },
                },
            ),
        }
    }
}

/// Parse the counter tokens of one operation line. Requires at least eight
/// tokens; a ninth, when present, is the errors count and defaults to zero.
/// Fails on the first token that does not read as an integer, naming the
/// operation and the field.
pub fn parse_nfs_operation(op_name: &str, stats: &Vec<String>) -> (r: Result<
    NFSOperation,
    NfsGazeError,
>)
    ensures
        match r {
            Ok(op) => spec_parse_operation(op_name@, stats.deep_view()) == Ok::<
                OperationV,
                ErrorV,
            >(op@),
            Err(e) => spec_parse_operation(op_name@, stats.deep_view()) == Err::<
                OperationV,
                ErrorV,
            >(e@),
        },
{
    let n: usize = stats.len();
    if n < 8 {
        let mut msg = String::from_str("insufficient stats for operation ");
        msg.append(op_name);
        msg.append(": got ");
        let count = usize_to_string(n);
        msg.append(count.as_str());
        msg.append(", need 8");
        return Err(NfsGazeError::ParseError(msg));
    }
    let upto: usize = if n > 9 {
        9
    } else {
        n
    };
    let mut vals: Vec<i64> = Vec::new();
    let mut i: usize = 0;
    while i < upto
        invariant
            i <= upto,
            upto == ops_upto(n as int),
            8 <= n,
            upto <= n,
            n == stats.deep_view().len(),
            vals@.len() == i,
            forall|j: int|
                0 <= j < i ==> spec_parse_i64(#[trigger] stats.deep_view()[j]) == Ok::<
                    i64,
                    IntParseError,
                >(vals@[j]),
        decreases upto - i,
    {
        assert(stats.deep_view()[i as int] == stats@[i as int]@);
        match parse_i64(stats[i].as_str()) {
            Ok(v) => {
                vals.push(v);
            },
            Err(e) => {
                proof {
                    lemma_first_bad_some(stats.deep_view(), upto as int, i as int);
                }
                let mut field = String::from_str(op_name);
                field.append("_");
                field.append(op_field_label(i));
                return Err(NfsGazeError::FieldParseError { field, source: e });
            },
        }
        i = i + 1;
    }
    proof {
        lemma_first_bad_none(stats.deep_view(), upto as int);
    }
    let op = NFSOperation {
        name: String::from_str(op_name),
        ops: vals[0],
        ntrans: vals[1],
        timeouts: vals[2],
        bytes_sent: vals[3],
        bytes_recv: vals[4],
        queue_time: vals[5],
        rtt: vals[6],
        execute_time: vals[7],
        errors: if n > 8 {
            vals[8]
        } else {
            0
        },
    };
    Ok(op)
}

/// Server and export parts of a device string, split on the first colon;
/// the export defaults to `/` when no colon is present.
pub open spec fn spec_split_device(dev: Seq<char>) -> (Seq<char>, Seq<char>) {
    match spec_find_char(dev, ':') {
        None => (dev, "/"@),
        Some(i) => (dev.subrange(0, i), dev.skip(i + 1)),
    }
}

/// What a device-header line yields: a fresh zeroed mount record, or a
/// failure when the line lacks the ` on ` separator, a device token or a
/// mount path.
pub open spec fn spec_device_mount(line: Seq<char>) -> Result<MountV, ErrorV> {
    match spec_find_str(line, " on "@) {
        None => Err(ErrorV::ParseError("Invalid device line: "@ + line)),
        Some(idx) => {
            let left = line.subrange(0, idx);
            let right = line.skip(idx + " on "@.len());
            let dev_info = split_ws(left);
            let mnt_info = split_ws(right);
            if dev_info.len() < 2 || mnt_info.len() == 0 {
                Err(ErrorV::ParseError("Invalid device info: "@ + line))
            } else {
                let server_export = dev_info[1];
                let sp = spec_split_device(server_export);
                Ok(
                    MountV {
                        device: server_export,
                        mount_point: mnt_info[0],
                        server: sp.0,
                        export: sp.1,
                        age: 0,
                        operations: Seq::empty(),
                        events: None,
                        bytes_read: 0,
                        bytes_write: 0,
                    },
                )
            }
        },
    }
}

/// Open a new mount record from a device-header line (already trimmed).
/// The left side of the first ` on ` holds the device string as its second
/// whitespace token; the right side's first token is the mount path.
pub fn parse_device_line(line: &str) -> (r: Result<NFSMount, NfsGazeError>)
    ensures
        match r {
            Ok(m) => spec_device_mount(line@) == Ok::<MountV, ErrorV>(m@) && mount_wf(m@),
            Err(e) => spec_device_mount(line@) == Err::<MountV, ErrorV>(e@),
        },
{
    let n: usize = line.unicode_len();
    match find_str(line, " on ") {
        None => {
            proof {
                lemma_find_str_none(line@, " on "@);
            }
            let mut msg = String::from_str("Invalid device line: ");
            msg.append(line);
            Err(NfsGazeError::ParseError(msg))
        },
        Some(idx) => {
            proof {
                lemma_find_str_pins(line@, " on "@, idx as int);
            }
            let sep: usize = " on ".unicode_len();
            let left = line.substring_char(0, idx);
            let right = line.substring_char(idx + sep, n);
            let dev_info = split_whitespace_owned(left);
            let mnt_info = split_whitespace_owned(right);
            if dev_info.len() < 2 || mnt_info.len() == 0 {
                let mut msg = String::from_str("Invalid device info: ");
                msg.append(line);
                Err(NfsGazeError::ParseError(msg))
            } else {
                assert(dev_info.deep_view()[1] == dev_info@[1]@);
                assert(mnt_info.deep_view()[0] == mnt_info@[0]@);
                let server_export: &String = &dev_info[1];
                let mount_point: &String = &mnt_info[0];
                let se = server_export.as_str();
                let se_len: usize = se.unicode_len();
                let pair: (String, String) = match find_char(se, ':') {
                    None => {
                        proof {
                            lemma_find_char_none(se@, ':');
                        }
                        (String::from_str(se), String::from_str("/"))
                    },
                    Some(ci) => {
                        proof {
                            lemma_find_char_pins(se@, ':', ci as int);
                        }
                        (
                            String::from_str(se.substring_char(0, ci)),
                            String::from_str(se.substring_char(ci + 1, se_len)),
                        )
                    },
                };
                let (server, export) = pair;
                let mount = NFSMount {
                    device: server_export.clone(),
                    mount_point: mount_point.clone(),
                    server,
                    export,
                    age: 0,
                    operations: AssocMap::new(),
                    events: None,
                    bytes_read: 0,
                    bytes_write: 0,
                };
                proof {
                    assert(ops_wf(mount@.operations));
                }
                Ok(mount)
            }
        },
    }
}

/// A line whose prefix marks a section that is not an operation line.
pub open spec fn is_reserved_prefix(line: Seq<char>) -> bool {
    ||| spec_starts_with(line, "RPC"@)
    ||| spec_starts_with(line, "xprt"@)
    ||| spec_starts_with(line, "per-op"@)
    ||| spec_starts_with(line, "opts"@)
    ||| spec_starts_with(line, "caps"@)
    ||| spec_starts_with(line, "sec"@)
    ||| spec_starts_with(line, "nfsv4"@)
    ||| spec_starts_with(line, "nfsv3"@)
}

/// The line holds a colon somewhere.
pub open spec fn has_colon(line: Seq<char>) -> bool {
    exists|j: int| 0 <= j < line.len() && line[j] == ':'
}

/// A device-header line: starts with `device` and mentions `nfs`.
pub open spec fn is_device_line(line: Seq<char>) -> bool {
    spec_starts_with(line, "device"@) && (exists|j: int| match_at(line, "nfs"@, j))
}

/// What an `age:` line does to the open mount.
pub open spec fn spec_apply_age(m: MountV, line: Seq<char>) -> Result<MountV, ErrorV> {
    let parts = split_ws(line);
    if parts.len() < 2 {
        Err(ErrorV::ParseError("Invalid age line: "@ + line))
    } else {
        match spec_parse_i64(parts[1]) {
            Ok(v) => Ok(MountV { age: v, ..m }),
            Err(e) => Err(ErrorV::FieldParseError { field: "age"@, source: e }),
        }
    }
}

/// What an `events:` line does to the open mount.
pub open spec fn spec_apply_events_line(m: MountV, line: Seq<char>) -> Result<MountV, ErrorV> {
    let parts = split_ws(line);
    if parts.len() < 2 {
        Err(ErrorV::ParseError("Invalid events line: "@ + line))
    } else {
        match spec_parse_events(parts.skip(1)) {
            Ok(ev) => Ok(MountV { events: Some(ev), ..m }),
            Err(e) => Err(e),
        }
    }
}

/// What a `bytes:` line does to the open mount. The second token is the
/// cumulative bytes read. Bytes written come from the seventh token when it
/// is present and not the literal `0`, else from the sixth: the two report
/// layouts disagree on the field's position, and this fallback spans both.
pub open spec fn spec_apply_bytes(m: MountV, line: Seq<char>) -> Result<MountV, ErrorV> {
    let parts = split_ws(line);
    if parts.len() < 6 {
        Err(ErrorV::ParseError("Invalid bytes line: "@ + line))
    } else {
        match spec_parse_i64(parts[1]) {
            Err(e) => Err(ErrorV::FieldParseError { field: "bytes_read"@, source: e }),
            Ok(br) => {
                let wtok = if parts.len() > 6 && parts[6] != "0"@ {
                    parts[6]
                } else {
                    parts[5]
                };
                match spec_parse_i64(wtok) {
                    Err(e) => Err(ErrorV::FieldParseError { field: "bytes_write"@, source: e }),
                    Ok(bw) => Ok(MountV { bytes_read: br, bytes_write: bw, ..m }),
                }
            },
        }
    }
}

/// What an operation line does to the open mount: the trimmed text before
/// the first colon names the operation; the tokens after it are its
/// counters, stored under the operation's name.
pub open spec fn spec_apply_operation(m: MountV, line: Seq<char>) -> Result<MountV, ErrorV> {
    match spec_find_char(line, ':') {
        None => Err(ErrorV::ParseError("Invalid operation line: "@ + line)),
        Some(ci) => {
            let name = spec_trim(line.subrange(0, ci));
            let stats = split_ws(line.skip(ci + 1));
            match spec_parse_operation(name, stats) {
                Err(e) => Err(e),
                Ok(op) => Ok(MountV { operations: assoc_upsert(m.operations, name, op), ..m }),
            }
        },
    }
}

/// How one line (already trimmed) changes the open mount: the `age:`,
/// `events:` and `bytes:` keywords come first; any other line with a colon
/// and no reserved prefix is an operation line; everything else is ignored.
pub open spec fn spec_stats_line(m: MountV, line: Seq<char>) -> Result<MountV, ErrorV> {
    if spec_starts_with(line, "age:"@) {
        spec_apply_age(m, line)
    } else if spec_starts_with(line, "events:"@) {
        spec_apply_events_line(m, line)
    } else if spec_starts_with(line, "bytes:"@) {
        spec_apply_bytes(m, line)
    } else if has_colon(line) && !is_reserved_prefix(line) {
        spec_apply_operation(m, line)
    } else {
        Ok(m)
    }
}

/// Apply one report line (already trimmed) to the open mount record.
/// On failure the record must be discarded: the failing handler may have
/// filled some fields before the bad token was reached.
fn apply_stats_line(mount: NFSMount, line: &str) -> (r: Result<NFSMount, NfsGazeError>)
    ensures
        match r {
            Ok(m2) => spec_stats_line(mount@, line@) == Ok::<MountV, ErrorV>(m2@) && (mount_wf(
                mount@,
            ) ==> mount_wf(m2@)),
            Err(e) => spec_stats_line(mount@, line@) == Err::<MountV, ErrorV>(e@),
        },
{
    let mut m = mount;
    let ghost m0 = m@;
    if starts_with(line, "age:") {
        let parts = split_whitespace_owned(line);
        if parts.len() < 2 {
            let mut msg = String::from_str("Invalid age line: ");
            msg.append(line);
            return Err(NfsGazeError::ParseError(msg));
        }
        assert(parts.deep_view()[1] == parts@[1]@);
        match parse_i64(parts[1].as_str()) {
            Ok(v) => {
                m.age = v;
                assert(m@ =~= (MountV { age: v, ..m0 }));
                Ok(m)
            },
            Err(e) => Err(NfsGazeError::FieldParseError { field: String::from_str("age"), source: e }),
        }
    } else if starts_with(line, "events:") {
        let parts = split_whitespace_owned(line);
        if parts.len() < 2 {
            let mut msg = String::from_str("Invalid events line: ");
            msg.append(line);
            return Err(NfsGazeError::ParseError(msg));
        }
        let np: usize = parts.len();
        let mut evp: Vec<String> = Vec::new();
        let mut i: usize = 1;
        while i < np
            invariant
                1 <= i <= np,
                np == parts.deep_view().len(),
                evp.deep_view() == parts.deep_view().subrange(1, i as int),
            decreases np - i,
        {
            let tok: String = parts[i].clone();
            let ghost pre_dv = evp.deep_view();
            evp.push(tok);
            proof {
                assert(evp.deep_view() =~= pre_dv.push(tok@));
                assert(pre_dv.push(tok@) =~= parts.deep_view().subrange(1, i + 1 as int));
            }
            i = i + 1;
        }
        proof {
            assert(evp.deep_view() =~= split_ws(line@).skip(1));
        }
        match parse_events(&evp) {
            Ok(ev) => {
                m.events = Some(ev);
                assert(m@ =~= (MountV { events: Some(ev), ..m0 }));
                Ok(m)
            },
            Err(e) => Err(e),
        }
    } else if starts_with(line, "bytes:") {
        let parts = split_whitespace_owned(line);
        if parts.len() < 6 {
            let mut msg = String::from_str("Invalid bytes line: ");
            msg.append(line);
            return Err(NfsGazeError::ParseError(msg));
        }
        assert(parts.deep_view()[1] == parts@[1]@);
        match parse_i64(parts[1].as_str()) {
            Err(e) => Err(
                NfsGazeError::FieldParseError { field: String::from_str("bytes_read"), source: e },
            ),
            Ok(br) => {
                assert(parts.deep_view()[5] == parts@[5]@);
                let use_seventh: bool = if parts.len() > 6 {
                    assert(parts.deep_view()[6] == parts@[6]@);
                    !str_eq(parts[6].as_str(), "0")
                } else {
                    false
                };
                let wtok: &str = if use_seventh {
                    parts[6].as_str()
                } else {
                    parts[5].as_str()
                };
                match parse_i64(wtok) {
                    Err(e) => Err(
                        NfsGazeError::FieldParseError {
                            field: String::from_str("bytes_write"),
                            source: e,
                        },
                    ),
                    Ok(bw) => {
                        m.bytes_read = br;
                        m.bytes_write = bw;
                        assert(m@ =~= (MountV { bytes_read: br, bytes_write: bw, ..m0 }));
                        Ok(m)
                    },
                }
            },
        }
    } else {
        let colon = find_char(line, ':');
        let reserved: bool = starts_with(line, "RPC") || starts_with(line, "xprt") || starts_with(
            line,
            "per-op",
        ) || starts_with(line, "opts") || starts_with(line, "caps") || starts_with(line, "sec")
            || starts_with(line, "nfsv4") || starts_with(line, "nfsv3");
        match colon {
            Some(ci) if !reserved => {
                proof {
                    lemma_find_char_pins(line@, ':', ci as int);
                }
                let n: usize = line.unicode_len();
                let name_str: &str = trim(line.substring_char(0, ci));
                let stats = split_whitespace_owned(line.substring_char(ci + 1, n));
                match parse_nfs_operation(name_str, &stats) {
                    Ok(op) => {
                        let key = String::from_str(name_str);
                        proof {
                            if mount_wf(m0) {
                                lemma_ops_wf_upsert(m0.operations, key@, op@);
                            }
                        }
                        m.operations.insert(key, op);
                        assert(m@ =~= (MountV {
                            operations: assoc_upsert(m0.operations, name_str@, op@),
                            ..m0
                        }));
                        Ok(m)
                    },
                    Err(e) => Err(e),
                }
            },
            _ => {
                proof {
                    if colon is None {
                        assert(!has_colon(line@));
                    } else {
                        assert(line@[colon->0 as int] == ':');
                        assert(has_colon(line@));
                    }
                }
                Ok(m)
            },
        }
    }
}

/// Mathematical state of the line scanner: the finished mapping and the
/// mount record currently open, if any.
#[verifier::ext_equal]
pub ghost struct ParseStateV {
    pub mounts: Seq<(Seq<char>, MountV)>,
    pub current: Option<MountV>,
}

/// Close the open mount record, if any, into the mapping under its path.
pub open spec fn finalize_mounts(st: ParseStateV) -> Seq<(Seq<char>, MountV)> {
    match st.current {
        None => st.mounts,
        Some(m) => assoc_upsert(st.mounts, m.mount_point, m),
    }
}

/// How one raw report line changes the scanner state: a device header
/// closes the open mount and opens a fresh one; any other line is applied
/// to the open mount, or ignored when none is open.
pub open spec fn spec_parse_line(st: ParseStateV, raw: Seq<char>) -> Result<ParseStateV, ErrorV> {
    let line = spec_trim(raw);
    if is_device_line(line) {
        match spec_device_mount(line) {
            Err(e) => Err(e),
            Ok(m) => Ok(ParseStateV { mounts: finalize_mounts(st), current: Some(m) }),
        }
    } else {
        match st.current {
            None => Ok(st),
            Some(cur) => match spec_stats_line(cur, line) {
                Ok(cur2) => Ok(ParseStateV { mounts: st.mounts, current: Some(cur2) }),
                Err(e) => Err(e),
            },
        }
    }
}

/// Folding the scanner over the remaining lines from state `st`.
pub open spec fn spec_parse_from(st: ParseStateV, lines: Seq<Seq<char>>) -> Result<
    Seq<(Seq<char>, MountV)>,
    ErrorV,
>
    decreases lines.len(),
{
    if lines.len() == 0 {
        Ok(finalize_mounts(st))
    } else {
        match spec_parse_line(st, lines[0]) {
            Err(e) => Err(e),
            Ok(st2) => spec_parse_from(st2, lines.drop_first()),
        }
    }
}

/// What parsing a whole report yields: a mapping from mount path to
/// snapshot, keyed in order of first appearance, or the first failure.
pub open spec fn spec_parse_report(lines: Seq<Seq<char>>) -> Result<
    Seq<(Seq<char>, MountV)>,
    ErrorV,
> {
    spec_parse_from(ParseStateV { mounts: Seq::empty(), current: None }, lines)
}

/// View of the optional open mount record.
pub open spec fn opt_mount_view(c: Option<NFSMount>) -> Option<MountV> {
    match c {
        Some(m) => Some(m@),
        None => None,
    }
}

/// The optional open mount record is well formed.
pub open spec fn opt_mount_wf(c: Option<NFSMount>) -> bool {
    match c {
        Some(m) => mount_wf(m@),
        None => true,
    }
}

/// Parse a report, given as its sequence of lines (newline-split, not
/// trimmed), into a mapping from mount path to snapshot. Pure function of
/// the lines: the mapping, or the failure, is exactly `spec_parse_report`,
/// and every snapshot in the mapping is well formed.
pub fn parse_mountstats_lines(lines: &Vec<String>) -> (r: Result<MountMap, NfsGazeError>)
    ensures
        match r {
            Ok(mm) => spec_parse_report(lines.deep_view()) == Ok::<
                Seq<(Seq<char>, MountV)>,
                ErrorV,
            >(mm@) && (forall|i: int| 0 <= i < mm@.len() ==> mount_wf(#[trigger] mm@[i].1)),
            Err(e) => spec_parse_report(lines.deep_view()) == Err::<
                Seq<(Seq<char>, MountV)>,
                ErrorV,
            >(e@),
        },
{
    let mut mounts: MountMap = AssocMap::new();
    let mut current: Option<NFSMount> = None;
    let n: usize = lines.len();
    let mut i: usize = 0;
    proof {
        assert(lines.deep_view().skip(0) =~= lines.deep_view());
    }
    while i < n
        invariant
            i <= n,
            n == lines.deep_view().len(),
            n == lines@.len(),
            spec_parse_report(lines.deep_view()) == spec_parse_from(
                ParseStateV { mounts: mounts@, current: opt_mount_view(current) },
                lines.deep_view().skip(i as int),
            ),
            forall|j: int| 0 <= j < mounts@.len() ==> mount_wf(#[trigger] mounts@[j].1),
            opt_mount_wf(current),
        decreases n - i,
    {
        let ghost st = ParseStateV { mounts: mounts@, current: opt_mount_view(current) };
        let ghost raw = lines.deep_view()[i as int];
        proof {
            assert(lines.deep_view()[i as int] == lines@[i as int]@);
            assert(lines.deep_view().skip(i as int)[0] == raw);
            assert(lines.deep_view().skip(i as int).drop_first() =~= lines.deep_view().skip(
                i + 1 as int,
            ));
        }
        let t: &str = trim(lines[i].as_str());
        if starts_with(t, "device") && contains_str(t, "nfs") {
            assert(is_device_line(spec_trim(raw)));
            match parse_device_line(t) {
                Err(e) => {
                    return Err(e);
                },
                Ok(newm) => {
                    let ghost pre = mounts@;
                    current = match current {
                        Some(c) => {
                            let key = c.mount_point.clone();
                            proof {
                                crate::maps::lemma_assoc_upsert_pointwise(pre, key@, c@);
                            }
                            mounts.insert(key, c);
                            None
                        },
                        None => None,
                    };
                    proof {
                        assert(mounts@ == finalize_mounts(st));
                        assert forall|j: int| 0 <= j < mounts@.len() implies mount_wf(
                            #[trigger] mounts@[j].1,
                        ) by {
                            match st.current {
                                None => {},
                                Some(_) => {
                                    if mounts@[j].1 != st.current->0 {
                                        assert(mounts@[j] == pre[j]);
                                    }
                                },
                            }
                        }
                    }
                    current = Some(newm);
                    proof {
                        let st2 = ParseStateV { mounts: mounts@, current: opt_mount_view(current) };
                        assert(spec_parse_line(st, raw) == Ok::<ParseStateV, ErrorV>(st2));
                    }
                },
            }
        } else {
            assert(!is_device_line(spec_trim(raw)));
            current = match current {
                None => None,
                Some(c) => {
                    match apply_stats_line(c, t) {
                        Ok(c2) => Some(c2),
                        Err(e) => {
                            return Err(e);
                        },
                    }
                },
            };
            proof {
                let st2 = ParseStateV { mounts: mounts@, current: opt_mount_view(current) };
                assert(spec_parse_line(st, raw) == Ok::<ParseStateV, ErrorV>(st2));
            }
        }
        i = i + 1;
    }
    proof {
        assert(lines.deep_view().skip(n as int).len() == 0);
    }
    let ghost st = ParseStateV { mounts: mounts@, current: opt_mount_view(current) };
    let ghost pre = mounts@;
    match current {
        Some(c) => {
            let key = c.mount_point.clone();
            proof {
                crate::maps::lemma_assoc_upsert_pointwise(pre, key@, c@);
            }
            mounts.insert(key, c);
            proof {
                assert(mounts@ == finalize_mounts(st));
                assert forall|j: int| 0 <= j < mounts@.len() implies mount_wf(
                    #[trigger] mounts@[j].1,
                ) by {
                    if mounts@[j].1 != st.current->0 {
                        assert(mounts@[j] == pre[j]);
                    }
                }
            }
        },
        None => {},
    }
    Ok(mounts)
}

} // verus!
