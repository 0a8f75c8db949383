//! Monitor-facing pieces: the run flag, the choice of which mounts to
//! watch, and the startup summary text. The polling loop itself lives with
//! the caller; these functions are the decisions it defers to.

use vstd::prelude::*;
use crate::cli::OpFilter;
use crate::cli::opt_string_view;
use crate::maps::assoc_get;
use crate::numeric::dec_digits;
use crate::numeric::usize_to_string;
use crate::types::ErrorV;
use crate::types::MountMap;
use crate::types::MountV;
use crate::types::NFSMount;
use crate::types::NfsGazeError;

verus! {

/// The monitor's run state: `running` is true until a shutdown is
/// requested by the surrounding loop.
pub struct Monitor {
    pub running: bool,
}

impl Monitor {
    /// A freshly started monitor is running.
    pub fn new() -> (r: Self)
        ensures
            r.running,
    {
        Monitor { running: true }
    }
}

impl Default for Monitor {
    /// A freshly started monitor is running.
    fn default() -> (r: Self)
        ensures
            r.running,
    {
        Monitor { running: true }
    }
}

impl Monitor {
    /// The snapshots to watch: the one at the given path when a path is
    /// given — an absent path is an error naming it — else every snapshot
    /// of the report, in first-appearance order.
    pub fn get_mounts_to_monitor(mount_point: Option<String>, available_mounts: &MountMap) -> (r:
        Result<Vec<NFSMount>, NfsGazeError>)
        ensures
            match r {
                Ok(v) => match opt_string_view(mount_point) {
                    Some(t) => v.deep_view().len() == 1 && assoc_get(available_mounts@, t)
                        == Some(v.deep_view()[0]),
                    None => v.deep_view().len() == available_mounts@.len() && (forall|i: int|
                        0 <= i < available_mounts@.len() ==> v.deep_view()[i]
                            == available_mounts@[i].1),
                },
                Err(e) => match opt_string_view(mount_point) {
                    Some(t) => assoc_get(available_mounts@, t) is None && e@
                        == ErrorV::MountNotFound(t),
                    None => false,
                },
            },
    {
        match mount_point {
            Some(target) => {
                match available_mounts.get(target.as_str()) {
                    Some(m) => {
                        let mut v: Vec<NFSMount> = Vec::new();
                        v.push(m.duplicate());
                        Ok(v)
                    },
                    None => Err(NfsGazeError::MountNotFound(target)),
                }
            },
            None => {
                let n: usize = available_mounts.len();
                let mut v: Vec<NFSMount> = Vec::new();
                let mut i: usize = 0;
                while i < n
                    invariant
                        i <= n,
                        n == available_mounts@.len(),
                        v.deep_view().len() == i,
                        forall|j: int|
                            0 <= j < i ==> v.deep_view()[j] == available_mounts@[j].1,
                    decreases n - i,
                {
                    let ghost pre_dv = v.deep_view();
                    v.push(available_mounts.value_at(i).duplicate());
                    proof {
                        assert(v.deep_view() =~= pre_dv.push(available_mounts@[i as int].1));
                    }
                    i = i + 1;
                }
                Ok(v)
            },
        }
    }
}

/// One summary line per watched mount: two spaces, the device string, an
/// arrow, the mount path, and a line break.
pub open spec fn mount_lines(mounts: Seq<MountV>) -> Seq<char>
    decreases mounts.len(),
{
    if mounts.len() == 0 {
        Seq::empty()
    } else {
        mount_lines(mounts.drop_last()) + ("  "@ + mounts.last().device + " -> "@
            + mounts.last().mount_point + "\n"@)
    }
}

/// The filtered operation names, each quoted, separated by commas.
pub open spec fn filter_items(names: Seq<Seq<char>>) -> Seq<char>
    decreases names.len(),
{
    if names.len() == 0 {
        Seq::empty()
    } else if names.len() == 1 {
        "\""@ + names[0] + "\""@
    } else {
        filter_items(names.drop_last()) + (", \""@ + names.last() + "\""@)
    }
}

/// The full startup summary: a banner; either the watched mount path or
/// the count of watched mounts with one line per mount; and, when a filter
/// is set, its names in braces.
pub open spec fn spec_initial_summary(
    mount_point: Option<Seq<char>>,
    mounts: Seq<MountV>,
    filter: Seq<Seq<char>>,
) -> Seq<char> {
    let head = "NFS I/O Statistics Monitor\n==========================\n\n"@;
    let mid = match mount_point {
        Some(mp) => "Monitoring mount point: "@ + mp + "\n"@,
        None => ("Monitoring "@ + dec_digits(mounts.len() as int) + " NFS mount(s):\n"@)
            + mount_lines(mounts),
    };
    let ftr = if filter.len() > 0 {
        "Filtering operations: {"@ + filter_items(filter) + "}\n"@
    } else {
        Seq::empty()
    };
    head + mid + ftr + "\n"@
}

fn summary_mid(mount_point: &Option<String>, mounts: &Vec<NFSMount>) -> (r: String)
    ensures
        r@ == (match opt_string_view(*mount_point) {
            Some(mp) => "Monitoring mount point: "@ + mp + "\n"@,
            None => ("Monitoring "@ + dec_digits(mounts.deep_view().len() as int)
                + " NFS mount(s):\n"@) + mount_lines(mounts.deep_view()),
        }),
{
    match mount_point {
        Some(mp) => {
            let mut r = String::from_str("Monitoring mount point: ");
            r.append(mp.as_str());
            r.append("\n");
            r
        },
        None => {
            let mut r = String::from_str("Monitoring ");
            let count = usize_to_string(mounts.len());
            r.append(count.as_str());
            r.append(" NFS mount(s):\n");
            let ghost head = r@;
            let n: usize = mounts.len();
            let mut i: usize = 0;
            proof {
                assert(mounts.deep_view().subrange(0, 0) =~= Seq::<MountV>::empty());
            }
            while i < n
                invariant
                    i <= n,
                    n == mounts.deep_view().len(),
                    n == mounts@.len(),
                    r@ == head + mount_lines(mounts.deep_view().subrange(0, i as int)),
                decreases n - i,
            {
                proof {
                    assert(mounts.deep_view()[i as int] == mounts@[i as int]@);
                    let pre_seq = mounts.deep_view().subrange(0, i as int);
                    let post_seq = mounts.deep_view().subrange(0, i + 1 as int);
                    assert(post_seq.drop_last() =~= pre_seq);
                    assert(post_seq.last() == mounts.deep_view()[i as int]);
                }
                let m: &NFSMount = &mounts[i];
                let mut line = String::from_str("  ");
                line.append(m.device.as_str());
                line.append(" -> ");
                line.append(m.mount_point.as_str());
                line.append("\n");
                r.append(line.as_str());
                proof {
                    assert(r@ =~= head + mount_lines(
                        mounts.deep_view().subrange(0, i + 1 as int),
                    ));
                }
                i = i + 1;
            }
            proof {
                assert(mounts.deep_view().subrange(0, n as int) =~= mounts.deep_view());
            }
            r
        },
    }
}

fn summary_filter_items(filter: &OpFilter) -> (r: String)
    ensures
        r@ == filter_items(filter@),
{
    let n: usize = filter.len();
    let mut r = String::new();
    let mut i: usize = 0;
    proof {
        assert(filter@.subrange(0, 0) =~= Seq::<Seq<char>>::empty());
        assert(r@ =~= filter_items(filter@.subrange(0, 0)));
    }
    while i < n
        invariant
            i <= n,
            n == filter@.len(),
            r@ == filter_items(filter@.subrange(0, i as int)),
        decreases n - i,
    {
        proof {
            let pre_seq = filter@.subrange(0, i as int);
            let post_seq = filter@.subrange(0, i + 1 as int);
            assert(post_seq.drop_last() =~= pre_seq);
            assert(post_seq.last() == filter@[i as int]);
        }
        let name: &String = filter.name_at(i);
        let mut piece = if i == 0 {
            String::from_str("\"")
        } else {
            String::from_str(", \"")
        };
        piece.append(name.as_str());
        piece.append("\"");
        r.append(piece.as_str());
        proof {
            assert(r@ =~= filter_items(filter@.subrange(0, i + 1 as int)));
        }
        i = i + 1;
    }
    proof {
        assert(filter@.subrange(0, n as int) =~= filter@);
    }
    r
}

impl Monitor {
    /// Build the startup summary text: exactly `spec_initial_summary` of
    /// the watched mount path, the watched mounts, and the filter.
    pub fn print_initial_summary(
        mount_point: &Option<String>,
        mounts: &Vec<NFSMount>,
        operations_filter: &OpFilter,
    ) -> (r: String)
        ensures
            r@ == spec_initial_summary(
                opt_string_view(*mount_point),
                mounts.deep_view(),
                operations_filter@,
            ),
    {
        let mut r = String::from_str("NFS I/O Statistics Monitor\n==========================\n\n");
        let mid = summary_mid(mount_point, mounts);
        r.append(mid.as_str());
        if operations_filter.len() > 0 {
            let mut ftr = String::from_str("Filtering operations: {");
            let items = summary_filter_items(operations_filter);
            ftr.append(items.as_str());
            ftr.append("}\n");
            r.append(ftr.as_str());
        } else {
            proof {
                assert(r@ + Seq::<char>::empty() =~= r@);
            }
        }
        r.append("\n");
        r
    }
}

} // verus!
