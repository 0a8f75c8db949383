//! Command-line pieces of the library: the parsed option record with its
//! flag grammar, and the operation allow-set built from a comma-separated
//! list.

use vstd::prelude::*;
use crate::numeric::parse_i64;
use crate::numeric::spec_parse_i64;
use crate::text::spec_trim;
use crate::text::str_eq;
use crate::text::trim;

verus! {

/// An allow-set of operation names, kept in first-appearance order with
/// no duplicates. Empty means "no filter".
#[derive(Debug, PartialEq)]
pub struct OpFilter {
    names: Vec<String>,
}

impl View for OpFilter {
    type V = Seq<Seq<char>>;

    closed spec fn view(&self) -> Seq<Seq<char>> {
        Seq::new(self.names@.len(), |i: int| self.names@[i]@)
    }
}

impl OpFilter {
    /// Names are distinct in every value of this type.
    #[verifier::type_invariant]
    pub open spec fn wf(self) -> bool {
        forall|i: int, j: int| 0 <= i < j < self@.len() ==> self@[i] != self@[j]
    }

    /// The empty set: no filtering.
    pub fn new() -> (r: Self)
        ensures
            r@ == Seq::<Seq<char>>::empty(),
    {
        let names: Vec<String> = Vec::new();
        let r = OpFilter { names };
        proof {
            assert(r@ =~= Seq::<Seq<char>>::empty());
        }
        r
    }

    /// Number of names in the set.
    pub fn len(&self) -> (r: usize)
        ensures
            r == self@.len(),
    {
        self.names.len()
    }

    /// The set is empty, meaning no filtering.
    pub fn is_empty(&self) -> (r: bool)
        ensures
            r == (self@.len() == 0),
    {
        self.names.len() == 0
    }

    /// Exact, case-sensitive membership.
    pub fn contains(&self, name: &str) -> (r: bool)
        ensures
            r == self@.contains(name@),
    {
        let n: usize = self.names.len();
        let mut i: usize = 0;
        while i < n
            invariant
                i <= n,
                n == self@.len(),
                n == self.names@.len(),
                forall|j: int| 0 <= j < i ==> self@[j] != name@,
            decreases n - i,
        {
            if str_eq(self.names[i].as_str(), name) {
                assert(self@[i as int] == name@);
                return true;
            }
            assert(self@[i as int] != name@);
            i = i + 1;
        }
        proof {
            assert(!self@.contains(name@));
        }
        false
    }

    /// Add a name; a name already present is not added again.
    pub fn insert(&mut self, name: String)
        ensures
            final (self)@ == (if old(self)@.contains(name@) {
                old(self)@
            } else {
                old(self)@.push(name@)
            }),
    {
        proof {
            use_type_invariant(&*self);
        }
        let ghost pre = self@;
        if self.contains(name.as_str()) {
            return ;
        }
        let empty_names: Vec<String> = Vec::new();
        proof {
            let empty_view = Seq::new(empty_names@.len(), |i: int| empty_names@[i]@);
            assert(empty_view =~= Seq::<Seq<char>>::empty());
        }
        let mut tmp = OpFilter { names: empty_names };
        core::mem::swap(self, &mut tmp);
        let OpFilter { mut names } = tmp;
        names.push(name);
        proof {
            let new_view = Seq::new(names@.len(), |i: int| names@[i]@);
            assert(new_view =~= pre.push(name@));
        }
        *self = OpFilter { names };
    }

    /// The name at position `i`, in first-appearance order.
    pub fn name_at(&self, i: usize) -> (r: &String)
        requires
            i < self@.len(),
        ensures
            r@ == self@[i as int],
    {
        &self.names[i]
    }
}

/// Pieces of `s` between occurrences of `sep`, with `cur` the piece open so
/// far; empty pieces are kept.
pub open spec fn split_char_acc(s: Seq<char>, sep: char, cur: Seq<char>) -> Seq<Seq<char>>
    decreases s.len(),
{
    if s.len() == 0 {
        seq![cur]
    } else if s[0] == sep {
        seq![cur] + split_char_acc(s.drop_first(), sep, Seq::empty())
    } else {
        split_char_acc(s.drop_first(), sep, cur.push(s[0]))
    }
}

/// The comma-separated pieces of `s`, empty pieces included.
pub open spec fn split_commas(s: Seq<char>) -> Seq<Seq<char>> {
    split_char_acc(s, ',', Seq::empty())
}

fn split_commas_owned(s: &str) -> (r: Vec<String>)
    ensures
        r.deep_view() == split_commas(s@),
{
    let n: usize = s.unicode_len();
    let mut out: Vec<String> = Vec::new();
    let mut st: usize = 0;
    let mut i: usize = 0;
    proof {
        assert(s@.skip(0) =~= s@);
        assert(s@.subrange(0, 0) =~= Seq::<char>::empty());
        assert(out.deep_view() =~= Seq::<Seq<char>>::empty());
        assert(out.deep_view() + split_char_acc(s@, ',', Seq::empty()) =~= split_commas(s@));
    }
    while i < n
        invariant
            st <= i <= n,
            n == s@.len(),
            out.deep_view() + split_char_acc(s@.skip(i as int), ',', s@.subrange(st as int, i as int))
                == split_commas(s@),
        decreases n - i,
    {
        let c: char = s.get_char(i);
        proof {
            let t = s@.skip(i as int);
            assert(t[0] == s@[i as int]);
            assert(t.drop_first() =~= s@.skip(i + 1 as int));
        }
        if c == ',' {
            let piece = String::from_str(s.substring_char(st, i));
            let ghost pre_dv = out.deep_view();
            out.push(piece);
            proof {
                assert(out.deep_view() =~= pre_dv.push(s@.subrange(st as int, i as int)));
                assert(out.deep_view() + split_char_acc(
                    s@.skip(i + 1 as int),
                    ',',
                    Seq::<char>::empty(),
                ) =~= split_commas(s@));
                assert(s@.subrange(i + 1 as int, i + 1 as int) =~= Seq::<char>::empty());
            }
            st = i + 1;
        } else {
            proof {
                assert(s@.subrange(st as int, i as int).push(s@[i as int]) =~= s@.subrange(
                    st as int,
                    i + 1 as int,
                ));
            }
        }
        i = i + 1;
    }
    let piece = String::from_str(s.substring_char(st, n));
    let ghost pre_dv = out.deep_view();
    out.push(piece);
    proof {
        assert(s@.skip(n as int).len() == 0);
        assert(out.deep_view() =~= pre_dv.push(s@.subrange(st as int, n as int)));
        assert(out.deep_view() =~= split_commas(s@));
    }
    out
}

/// Trim each piece and drop the empty ones, keeping order.
pub open spec fn clean_tokens(pieces: Seq<Seq<char>>) -> Seq<Seq<char>>
    decreases pieces.len(),
{
    if pieces.len() == 0 {
        Seq::empty()
    } else {
        let rest = clean_tokens(pieces.drop_last());
        let t = spec_trim(pieces.last());
        if t.len() > 0 {
            rest.push(t)
        } else {
            rest
        }
    }
}

/// Remove repeated names, keeping each name's first appearance.
pub open spec fn dedup_keep_first(ts: Seq<Seq<char>>) -> Seq<Seq<char>>
    decreases ts.len(),
{
    if ts.len() == 0 {
        Seq::empty()
    } else {
        let rest = dedup_keep_first(ts.drop_last());
        if rest.contains(ts.last()) {
            rest
        } else {
            rest.push(ts.last())
        }
    }
}

/// The allow-set named by an optional comma-separated list: each piece is
/// trimmed, empty pieces are dropped, and repeats keep their first
/// appearance. A missing or all-whitespace list means no filter.
pub open spec fn ops_filter_spec(operations: Option<Seq<char>>) -> Seq<Seq<char>> {
    match operations {
        None => Seq::empty(),
        Some(s) => if spec_trim(s).len() == 0 {
            Seq::empty()
        } else {
            dedup_keep_first(clean_tokens(split_commas(s)))
        },
    }
}

/// View of the optional list argument.
pub open spec fn opt_string_view(operations: Option<String>) -> Option<Seq<char>> {
    match operations {
        None => None,
        Some(s) => Some(s@),
    }
}

/// Build the operation allow-set from an optional comma-separated list.
pub fn parse_operations_filter(operations: Option<String>) -> (r: OpFilter)
    ensures
        r@ == ops_filter_spec(opt_string_view(operations)),
{
    match &operations {
        None => OpFilter::new(),
        Some(s) => {
            let t = trim(s.as_str());
            if t.is_empty() {
                OpFilter::new()
            } else {
                let pieces = split_commas_owned(s.as_str());
                let np: usize = pieces.len();
                let mut f = OpFilter::new();
                let mut i: usize = 0;
                proof {
                    assert(pieces.deep_view().subrange(0, 0) =~= Seq::<Seq<char>>::empty());
                    assert(f@ =~= dedup_keep_first(
                        clean_tokens(pieces.deep_view().subrange(0, 0)),
                    ));
                }
                while i < np
                    invariant
                        i <= np,
                        np == pieces.deep_view().len(),
                        np == pieces@.len(),
                        f@ == dedup_keep_first(
                            clean_tokens(pieces.deep_view().subrange(0, i as int)),
                        ),
                    decreases np - i,
                {
                    proof {
                        let pre_seq = pieces.deep_view().subrange(0, i as int);
                        let post_seq = pieces.deep_view().subrange(0, i + 1 as int);
                        assert(post_seq.drop_last() =~= pre_seq);
                        assert(post_seq.last() == pieces.deep_view()[i as int]);
                        assert(pieces.deep_view()[i as int] == pieces@[i as int]@);
                    }
                    let tk: &str = trim(pieces[i].as_str());
                    if !tk.is_empty() {
                        let ghost pre_clean = clean_tokens(
                            pieces.deep_view().subrange(0, i as int),
                        );
                        proof {
                            assert(pre_clean.push(tk@).drop_last() =~= pre_clean);
                        }
                        f.insert(String::from_str(tk));
                    }
                    i = i + 1;
                }
                proof {
                    assert(pieces.deep_view().subrange(0, np as int) =~= pieces.deep_view());
                }
                f
            }
        },
    }
}

/// Parsed command-line options, with their defaults.
#[derive(Debug, PartialEq)]
pub struct Args {
    /// Mount point to report on; all mounts when absent.
    pub mount_point: Option<String>,
    /// Comma-separated list of operations of interest.
    pub operations: Option<String>,
    /// Update interval in seconds.
    pub interval: u64,
    /// Number of iterations; zero means unbounded.
    pub count: usize,
    /// Show attribute cache statistics.
    pub show_attr: bool,
    /// Show bandwidth statistics.
    pub show_bandwidth: bool,
    /// Clear the screen between iterations.
    pub clear_screen: bool,
    /// Path of the mount statistics report.
    pub mountstats_path: String,
}

/// Mathematical view of `Args`.
#[verifier::ext_equal]
pub ghost struct ArgsV {
    pub mount_point: Option<Seq<char>>,
    pub operations: Option<Seq<char>>,
    pub interval: u64,
    pub count: usize,
    pub show_attr: bool,
    pub show_bandwidth: bool,
    pub clear_screen: bool,
    pub mountstats_path: Seq<char>,
}

impl View for Args {
    type V = ArgsV;

    open spec fn view(&self) -> ArgsV {
        ArgsV {
            mount_point: opt_string_view(self.mount_point),
            operations: opt_string_view(self.operations),
            interval: self.interval,
            count: self.count,
            show_attr: self.show_attr,
            show_bandwidth: self.show_bandwidth,
            clear_screen: self.clear_screen,
            mountstats_path: self.mountstats_path@,
        }
    }
}

/// The options before any flag is read: one-second interval, unbounded
/// iterations, everything off, the kernel's own report path.
pub open spec fn default_args() -> ArgsV {
    ArgsV {
        mount_point: None,
        operations: None,
        interval: 1,
        count: 0,
        show_attr: false,
        show_bandwidth: false,
        clear_screen: false,
        mountstats_path: "/proc/self/mountstats"@,
    }
}

/// A flag that takes a value in the following token.
pub open spec fn is_value_flag(tok: Seq<char>) -> bool {
    ||| tok == "-m"@
    ||| tok == "--mount-point"@
    ||| tok == "--ops"@
    ||| tok == "-i"@
    ||| tok == "--interval"@
    ||| tok == "-c"@
    ||| tok == "--count"@
    ||| tok == "-f"@
    ||| tok == "--mountstats-path"@
}

/// Largest accepted value for the iteration count.
pub open spec fn count_limit() -> int {
    0xFFFF_FFFF
}

/// How one flag and its value change the options so far.
pub open spec fn spec_apply_flag(acc: ArgsV, tok: Seq<char>, val: Seq<char>) -> Result<
    ArgsV,
    Seq<char>,
> {
    if tok == "-m"@ || tok == "--mount-point"@ {
        Ok(ArgsV { mount_point: Some(val), ..acc })
    } else if tok == "--ops"@ {
        Ok(ArgsV { operations: Some(val), ..acc })
    } else if tok == "-i"@ || tok == "--interval"@ {
        match spec_parse_i64(val) {
            Ok(v) => if v >= 0 {
                Ok(ArgsV { interval: v as u64, ..acc })
            } else {
                Err("invalid value for "@ + tok)
            },
            Err(_) => Err("invalid value for "@ + tok),
        }
    } else if tok == "-c"@ || tok == "--count"@ {
        match spec_parse_i64(val) {
            Ok(v) => if 0 <= v <= count_limit() {
                Ok(ArgsV { count: v as usize, ..acc })
            } else {
                Err("invalid value for "@ + tok)
            },
            Err(_) => Err("invalid value for "@ + tok),
        }
    } else {
        Ok(ArgsV { mountstats_path: val, ..acc })
    }
}

/// Folding the flag grammar over the remaining tokens.
pub open spec fn spec_parse_args_from(acc: ArgsV, rest: Seq<Seq<char>>) -> Result<ArgsV, Seq<char>>
    decreases rest.len(),
{
    if rest.len() == 0 {
        Ok(acc)
    } else {
        let tok = rest[0];
        if is_value_flag(tok) {
            if rest.len() < 2 {
                Err("missing value for "@ + tok)
            } else {
                match spec_apply_flag(acc, tok, rest[1]) {
                    Ok(acc2) => spec_parse_args_from(acc2, rest.skip(2)),
                    Err(e) => Err(e),
                }
            }
        } else if tok == "--attr"@ {
            spec_parse_args_from(ArgsV { show_attr: true, ..acc }, rest.skip(1))
        } else if tok == "--bw"@ {
            spec_parse_args_from(ArgsV { show_bandwidth: true, ..acc }, rest.skip(1))
        } else if tok == "--clear"@ {
            spec_parse_args_from(ArgsV { clear_screen: true, ..acc }, rest.skip(1))
        } else {
            Err("unexpected argument: "@ + tok)
        }
    }
}

/// What parsing a full argument vector yields. The first token is the
/// program name and is skipped; an empty vector yields the defaults.
pub open spec fn spec_parse_args(args: Seq<Seq<char>>) -> Result<ArgsV, Seq<char>> {
    if args.len() == 0 {
        Ok(default_args())
    } else {
        spec_parse_args_from(default_args(), args.skip(1))
    }
}

impl Args {
    /// Parse an argument vector, program name first, against the flag
    /// grammar: `-m`/`--mount-point`, `--ops`, `-i`/`--interval`,
    /// `-c`/`--count`, `-f`/`--mountstats-path` each take the next token as
    /// value; `--attr`, `--bw` and `--clear` stand alone. Unknown tokens,
    /// missing values and non-numeric counts are errors naming the token.
    pub fn try_parse_from(args: &Vec<String>) -> (r: Result<Args, String>)
        ensures
            match r {
                Ok(a) => spec_parse_args(args.deep_view()) == Ok::<ArgsV, Seq<char>>(a@),
                Err(e) => spec_parse_args(args.deep_view()) == Err::<ArgsV, Seq<char>>(e@),
            },
    {
        let mut a = Args {
            mount_point: None,
            operations: None,
            interval: 1,
            count: 0,
            show_attr: false,
            show_bandwidth: false,
            clear_screen: false,
            mountstats_path: String::from_str("/proc/self/mountstats"),
        };
        proof {
            assert(a@ =~= default_args());
        }
        let n: usize = args.len();
        if n == 0 {
            return Ok(a);
        }
        let mut i: usize = 1;
        while i < n
            invariant
                1 <= i <= n,
                n == args.deep_view().len(),
                n == args@.len(),
                spec_parse_args(args.deep_view()) == spec_parse_args_from(
                    a@,
                    args.deep_view().skip(i as int),
                ),
            decreases n - i,
        {
            let ghost accv = a@;
            let ghost rest = args.deep_view().skip(i as int);
            proof {
                assert(rest[0] == args.deep_view()[i as int]);
                assert(args.deep_view()[i as int] == args@[i as int]@);
                assert(rest.drop_first() =~= args.deep_view().skip(i + 1 as int));
            }
            let tok: &str = args[i].as_str();
            let takes_value: bool = str_eq(tok, "-m") || str_eq(tok, "--mount-point") || str_eq(
                tok,
                "--ops",
            ) || str_eq(tok, "-i") || str_eq(tok, "--interval") || str_eq(tok, "-c") || str_eq(
                tok,
                "--count",
            ) || str_eq(tok, "-f") || str_eq(tok, "--mountstats-path");
            if takes_value {
                if i + 1 >= n {
                    let mut msg = String::from_str("missing value for ");
                    msg.append(tok);
                    return Err(msg);
                }
                proof {
                    assert(rest[1] == args.deep_view()[i + 1 as int]);
                    assert(args.deep_view()[i + 1 as int] == args@[i + 1 as int]@);
                    assert(rest.skip(2) =~= args.deep_view().skip(i + 2 as int));
                }
                let val: &String = &args[i + 1];
                if str_eq(tok, "-m") || str_eq(tok, "--mount-point") {
                    a.mount_point = Some(val.clone());
                    proof {
                        assert(a@ =~= (ArgsV { mount_point: Some(val@), ..accv }));
                    }
                } else if str_eq(tok, "--ops") {
                    a.operations = Some(val.clone());
                    proof {
                        assert(a@ =~= (ArgsV { operations: Some(val@), ..accv }));
                    }
                } else if str_eq(tok, "-i") || str_eq(tok, "--interval") {
                    let parsed = parse_i64(val.as_str());
                    match parsed {
                        Ok(v) => {
                            if v >= 0 {
                                a.interval = v as u64;
                                proof {
                                    assert(a@ =~= (ArgsV { interval: v as u64, ..accv }));
                                }
                            } else {
                                let mut msg = String::from_str("invalid value for ");
                                msg.append(tok);
                                return Err(msg);
                            }
                        },
                        Err(_) => {
                            let mut msg = String::from_str("invalid value for ");
                            msg.append(tok);
                            return Err(msg);
                        },
                    }
                } else if str_eq(tok, "-c") || str_eq(tok, "--count") {
                    let parsed = parse_i64(val.as_str());
                    match parsed {
                        Ok(v) => {
                            if 0 <= v && v <= 0xFFFF_FFFFi64 {
                                a.count = v as usize;
                                proof {
                                    assert(a@ =~= (ArgsV { count: v as usize, ..accv }));
                                }
                            } else {
                                let mut msg = String::from_str("invalid value for ");
                                msg.append(tok);
                                return Err(msg);
                            }
                        },
                        Err(_) => {
                            let mut msg = String::from_str("invalid value for ");
                            msg.append(tok);
                            return Err(msg);
                        },
                    }
                } else {
                    a.mountstats_path = val.clone();
                    proof {
                        assert(a@ =~= (ArgsV { mountstats_path: val@, ..accv }));
                    }
                }
                proof {
                    assert(spec_apply_flag(accv, tok@, val@) == Ok::<ArgsV, Seq<char>>(a@));
                }
                i = i + 2;
            } else if str_eq(tok, "--attr") {
                a.show_attr = true;
                proof {
                    assert(a@ =~= (ArgsV { show_attr: true, ..accv }));
                }
                i = i + 1;
            } else if str_eq(tok, "--bw") {
                a.show_bandwidth = true;
                proof {
                    assert(a@ =~= (ArgsV { show_bandwidth: true, ..accv }));
                }
                i = i + 1;
            } else if str_eq(tok, "--clear") {
                a.clear_screen = true;
                proof {
                    assert(a@ =~= (ArgsV { clear_screen: true, ..accv }));
                }
                i = i + 1;
            } else {
                let mut msg = String::from_str("unexpected argument: ");
                msg.append(tok);
                return Err(msg);
            }
        }
        proof {
            assert(args.deep_view().skip(n as int).len() == 0);
        }
        Ok(a)
    }
}

} // verus!
