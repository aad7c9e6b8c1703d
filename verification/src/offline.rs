//! Offline provisioning: the directory names of previous installations are
//! the database.
//!
//! A directory written by a past install is named
//! `mpls_<major>.<minor>.<patch>_<os>_<arch>`. This module parses such a
//! name back into its version triple — exactly when the name has that shape
//! for the current platform — and selects the highest installed version.
use vstd::prelude::*;

use vstd::assert_by_contradiction;

use crate::decimal::digits_val;
use crate::decimal::fmt_u64;
use crate::decimal::is_digit;
use crate::decimal::is_digit_seq;
use crate::decimal::spec_dec;
use crate::names::executable_path;
use crate::names::spec_executable_path;
use crate::names::spec_unarchived_name;
use crate::names::unarchived_name;
use crate::platform::Platform;
use crate::resolver::Error;

verus! {

/// The version numeral a triple writes into names: the three components in
/// canonical decimal, joined by dots.
pub open spec fn spec_triple_version(t: (u64, u64, u64)) -> Seq<char> {
    spec_dec(t.0 as nat) + "."@ + spec_dec(t.1 as nat) + "."@ + spec_dec(t.2 as nat)
}

/// An installed directory name assembled from three digit runs.
pub open spec fn spec_dir_name(d1: Seq<char>, d2: Seq<char>, d3: Seq<char>, p: Platform) -> Seq<
    char,
> {
    spec_unarchived_name(d1 + "."@ + d2 + "."@ + d3, p)
}

/// Whether `name` is an installed directory name for platform `p` whose
/// three digit runs are worth the components of `t`.
pub open spec fn parses_to(name: Seq<char>, p: Platform, t: (u64, u64, u64)) -> bool {
    exists|d1: Seq<char>, d2: Seq<char>, d3: Seq<char>|
        {
            &&& is_digit_seq(d1)
            &&& is_digit_seq(d2)
            &&& is_digit_seq(d3)
            &&& name == #[trigger] spec_dir_name(d1, d2, d3, p)
            &&& digits_val(d1) == t.0
            &&& digits_val(d2) == t.1
            &&& digits_val(d3) == t.2
        }
}

/// Whether `name` is an installed directory name for platform `p` at all.
pub open spec fn name_matches(name: Seq<char>, p: Platform) -> bool {
    exists|t: (u64, u64, u64)| parses_to(name, p, t)
}

/// The value of a run of digits is never negative.
pub proof fn lemma_digits_val_nonneg(s: Seq<char>)
    requires
        forall|i: int| 0 <= i < s.len() ==> is_digit(s[i]),
    ensures
        digits_val(s) >= 0,
    decreases s.len(),
{
    if s.len() > 0 {
        lemma_digits_val_nonneg(s.drop_last());
    }
}

/// Extending a run of digits to the right never lowers its value.
pub proof fn lemma_digits_val_prefix(s: Seq<char>, j: int)
    requires
        0 <= j <= s.len(),
        forall|i: int| 0 <= i < s.len() ==> is_digit(s[i]),
    ensures
        digits_val(s.subrange(0, j)) <= digits_val(s),
    decreases s.len() - j,
{
    if j == s.len() {
        assert(s.subrange(0, j) =~= s);
    } else {
        lemma_digits_val_prefix(s, j + 1);
        let a = s.subrange(0, j);
        let b = s.subrange(0, j + 1);
        assert(b.drop_last() =~= a);
        assert(b.last() == s[j]);
        lemma_digits_val_nonneg(a);
    }
}

/// The platform suffix of an installed directory name.
pub open spec fn spec_platform_suffix(p: Platform) -> Seq<char> {
    "_"@ + crate::platform::spec_os_token(p.os) + "_"@ + crate::platform::spec_arch_token(p.arch)
}

/// Where each part of an installed directory name stands: the tool prefix,
/// the three digit runs, the two dots, and the platform suffix.
proof fn lemma_dir_name_facts(name: Seq<char>, p: Platform, d1: Seq<char>, d2: Seq<char>, d3: Seq<
    char,
>)
    requires
        name == spec_dir_name(d1, d2, d3, p),
    ensures
        ({
            let b1 = 5 + d1.len() as int;
            let b2 = b1 + 1 + d2.len() as int;
            let b3 = b2 + 1 + d3.len() as int;
            let suffix = spec_platform_suffix(p);
            &&& name.len() == b3 + suffix.len()
            &&& suffix.len() >= 12
            &&& name.subrange(0, 5) == "mpls_"@
            &&& name.subrange(5, b1) == d1
            &&& name[b1] == '.'
            &&& name.subrange(b1 + 1, b2) == d2
            &&& name[b2] == '.'
            &&& name.subrange(b2 + 1, b3) == d3
            &&& name.subrange(b3, name.len() as int) == suffix
            &&& name[b3] == '_'
        }),
{
    reveal_strlit("mpls_");
    reveal_strlit(".");
    reveal_strlit("_");
    reveal_strlit("linux");
    reveal_strlit("darwin");
    reveal_strlit("windows");
    reveal_strlit("arm64");
    reveal_strlit("amd64");
    let b1: int = 5 + d1.len() as int;
    let b2: int = b1 + 1 + d2.len() as int;
    let b3: int = b2 + 1 + d3.len() as int;
    let suffix = spec_platform_suffix(p);
    match p.os {
        crate::platform::Os::Linux => assert(crate::platform::spec_os_token(p.os).len() == 5),
        crate::platform::Os::Mac => assert(crate::platform::spec_os_token(p.os).len() == 6),
        crate::platform::Os::Windows => assert(crate::platform::spec_os_token(p.os).len() == 7),
    }
    match p.arch {
        crate::platform::PlatformArch::Arm64 => assert(crate::platform::spec_arch_token(
            p.arch,
        ).len() == 5),
        crate::platform::PlatformArch::Amd64 => assert(crate::platform::spec_arch_token(
            p.arch,
        ).len() == 5),
    }
    assert(name.subrange(0, 5) =~= "mpls_"@);
    assert(name.subrange(5, b1) =~= d1);
    assert(name[b1] == '.');
    assert(name.subrange(b1 + 1, b2) =~= d2);
    assert(name[b2] == '.');
    assert(name.subrange(b2 + 1, b3) =~= d3);
    assert(name.subrange(b3, name.len() as int) =~= suffix);
    assert(name[b3] == '_');
}

/// A maximal scan of digits ends exactly where a digit run of a
/// decomposition ends, since the character after the run is no digit.
proof fn lemma_run_forced(name: Seq<char>, lo: int, d: Seq<char>, e: int)
    requires
        is_digit_seq(d),
        0 <= lo,
        lo + d.len() < name.len(),
        name.subrange(lo, lo + d.len()) == d,
        !is_digit(name[lo + d.len()]),
        lo <= e <= name.len(),
        forall|i: int| lo <= i < e ==> is_digit(name[i]),
        e == name.len() || !is_digit(name[e]),
    ensures
        e == lo + d.len(),
        name.subrange(lo, e) == d,
{
    if e < lo + d.len() {
        assert(name.subrange(lo, lo + d.len())[e - lo] == name[e]);
        assert(is_digit(d[e - lo]));
        assert(false);
    }
    if e > lo + d.len() {
        assert(is_digit(name[lo + d.len()]));
        assert(false);
    }
}

/// The end of the maximal run of digits starting at `start`.
fn scan_digits(name: &str, start: usize) -> (end: usize)
    requires
        start <= name@.len(),
    ensures
        start <= end <= name@.len(),
        forall|i: int| start <= i < end ==> is_digit(name@[i]),
        end < name@.len() ==> !is_digit(name@[end as int]),
{
    let n = name.unicode_len();
    let mut i: usize = start;
    while i < n
        invariant
            start <= i <= n == name@.len(),
            forall|k: int| start <= k < i ==> is_digit(name@[k]),
        decreases n - i,
    {
        let c = name.get_char(i);
        let u = c as u32;
        if !(48 <= u && u <= 57) {
            return i;
        }
        i += 1;
    }
    i
}

/// Reads a run of digits as a decimal number, refusing a value above
/// `u64::MAX`.
fn digits_to_u64(name: &str, start: usize, end: usize) -> (r: Option<u64>)
    requires
        start <= end <= name@.len(),
        forall|i: int| start <= i < end ==> is_digit(name@[i]),
    ensures
        ({
            let run = name@.subrange(start as int, end as int);
            match r {
                Some(v) => v as int == digits_val(run),
                None => digits_val(run) > u64::MAX,
            }
        }),
{
    let mut acc: u64 = 0;
    let mut i: usize = start;
    while i < end
        invariant
            start <= i <= end <= name@.len(),
            forall|k: int| start <= k < end ==> is_digit(name@[k]),
            acc as int == digits_val(name@.subrange(start as int, i as int)),
        decreases end - i,
    {
        proof {
            let cur = name@.subrange(start as int, i + 1);
            assert(cur.drop_last() =~= name@.subrange(start as int, i as int));
            assert(cur.last() == name@[i as int]);
        }
        let c = name.get_char(i);
        let d: u64 = (c as u32 - 48) as u64;
        let wide: u128 = acc as u128 * 10 + d as u128;
        if wide > u64::MAX as u128 {
            proof {
                let run = name@.subrange(start as int, end as int);
                let cur = name@.subrange(start as int, i + 1);
                assert(run.subrange(0, i + 1 - start) =~= cur);
                assert(forall|k: int| 0 <= k < run.len() ==> is_digit(run[k]));
                lemma_digits_val_prefix(run, i + 1 - start);
            }
            return None;
        }
        acc = wide as u64;
        i += 1;
    }
    proof {
        assert(name@.subrange(start as int, i as int) =~= name@.subrange(
            start as int,
            end as int,
        ));
    }
    Some(acc)
}

/// Parses a directory name as an installed-executable directory for
/// platform `p`: accepted exactly when the name is the tool prefix, three
/// non-empty digit runs joined by dots, and the platform's own suffix, with
/// each run's value fitting in a `u64`.
#[verifier::rlimit(100)]
pub fn parse_install_dir(name: &String, p: Platform) -> (r: Option<(u64, u64, u64)>)
    ensures
        match r {
            Some(t) => parses_to(name@, p, t) && forall|t2: (u64, u64, u64)|
                parses_to(name@, p, t2) ==> t2 == t,
            None => !name_matches(name@, p),
        },
{
    let s = name.as_str();
    let n = s.unicode_len();
    if n < 5 {
        proof {
            assert_by_contradiction!(!name_matches(name@, p), {
                let t0 = choose|t: (u64, u64, u64)| parses_to(name@, p, t);
                let (d1, d2, d3) = choose|d1: Seq<char>, d2: Seq<char>, d3: Seq<char>|
                    {
                        &&& is_digit_seq(d1)
                        &&& is_digit_seq(d2)
                        &&& is_digit_seq(d3)
                        &&& name@ == #[trigger] spec_dir_name(d1, d2, d3, p)
                        &&& digits_val(d1) == t0.0
                        &&& digits_val(d2) == t0.1
                        &&& digits_val(d3) == t0.2
                    };
                lemma_dir_name_facts(name@, p, d1, d2, d3);
            });
        }
        return None;
    }
    let e1 = scan_digits(s, 5);
    let s2 = if e1 < n {
        e1 + 1
    } else {
        n
    };
    let e2 = scan_digits(s, s2);
    let s3 = if e2 < n {
        e2 + 1
    } else {
        n
    };
    let e3 = scan_digits(s, s3);

    let mut ver = String::from_str(s.substring_char(5, e1));
    ver.append(".");
    let mid = s.substring_char(s2, e2);
    ver.append(mid);
    ver.append(".");
    let pat = s.substring_char(s3, e3);
    ver.append(pat);
    let rebuilt = unarchived_name(ver.as_str(), p);

    let v1 = digits_to_u64(s, 5, e1);
    let v2 = digits_to_u64(s, s2, e2);
    let v3 = digits_to_u64(s, s3, e3);

    let shape_ok = e1 > 5 && e1 < n && e2 > s2 && e2 < n && e3 > s3 && rebuilt.eq(name);
    let all_ok = shape_ok && v1.is_some() && v2.is_some() && v3.is_some();
    if !all_ok {
        proof {
            assert_by_contradiction!(!name_matches(name@, p), {
                let t0 = choose|t: (u64, u64, u64)| parses_to(name@, p, t);
                let (d1, d2, d3) = choose|d1: Seq<char>, d2: Seq<char>, d3: Seq<char>|
                    {
                        &&& is_digit_seq(d1)
                        &&& is_digit_seq(d2)
                        &&& is_digit_seq(d3)
                        &&& name@ == #[trigger] spec_dir_name(d1, d2, d3, p)
                        &&& digits_val(d1) == t0.0
                        &&& digits_val(d2) == t0.1
                        &&& digits_val(d3) == t0.2
                    };
                lemma_dir_name_facts(name@, p, d1, d2, d3);
                let b1: int = 5 + d1.len() as int;
                let b2: int = b1 + 1 + d2.len() as int;
                let b3: int = b2 + 1 + d3.len() as int;
                lemma_run_forced(name@, 5, d1, e1 as int);
                assert(e1 == b1 && e1 < n);
                lemma_run_forced(name@, b1 + 1, d2, e2 as int);
                assert(e2 == b2 && e2 < n);
                lemma_run_forced(name@, b2 + 1, d3, e3 as int);
                assert(e3 == b3);
                assert(name@.subrange(5, e1 as int) == d1);
                assert(name@.subrange(s2 as int, e2 as int) == d2);
                assert(name@.subrange(s3 as int, e3 as int) == d3);
                assert(ver@ == d1 + "."@ + d2 + "."@ + d3);
                assert(rebuilt@ == name@);
                assert(v1 is Some && v2 is Some && v3 is Some);
                assert(all_ok);
            });
        }
        return None;
    }
    let t = (v1.unwrap(), v2.unwrap(), v3.unwrap());
    proof {
        let sub1 = name@.subrange(5, e1 as int);
        let sub2 = name@.subrange(s2 as int, e2 as int);
        let sub3 = name@.subrange(s3 as int, e3 as int);
        assert(is_digit_seq(sub1) && is_digit_seq(sub2) && is_digit_seq(sub3));
        assert(ver@ == sub1 + "."@ + sub2 + "."@ + sub3);
        assert(name@ == spec_dir_name(sub1, sub2, sub3, p));
        assert(parses_to(name@, p, t));
        assert forall|t2: (u64, u64, u64)| parses_to(name@, p, t2) implies t2 == t by {
            let (d1, d2, d3) = choose|d1: Seq<char>, d2: Seq<char>, d3: Seq<char>|
                {
                    &&& is_digit_seq(d1)
                    &&& is_digit_seq(d2)
                    &&& is_digit_seq(d3)
                    &&& name@ == #[trigger] spec_dir_name(d1, d2, d3, p)
                    &&& digits_val(d1) == t2.0
                    &&& digits_val(d2) == t2.1
                    &&& digits_val(d3) == t2.2
                };
            lemma_dir_name_facts(name@, p, d1, d2, d3);
            let b1: int = 5 + d1.len() as int;
            let b2: int = b1 + 1 + d2.len() as int;
            lemma_run_forced(name@, 5, d1, e1 as int);
            lemma_run_forced(name@, b1 + 1, d2, e2 as int);
            lemma_run_forced(name@, b2 + 1, d3, e3 as int);
            assert(d1 == sub1 && d2 == sub2 && d3 == sub3);
        }
    }
    Some(t)
}

/// Lexicographic order on version triples.
pub open spec fn spec_triple_le(a: (u64, u64, u64), b: (u64, u64, u64)) -> bool {
    ||| a.0 < b.0
    ||| (a.0 == b.0 && a.1 < b.1)
    ||| (a.0 == b.0 && a.1 == b.1 && a.2 <= b.2)
}

fn triple_lt(a: (u64, u64, u64), b: (u64, u64, u64)) -> (r: bool)
    ensures
        r == (spec_triple_le(a, b) && a != b),
{
    a.0 < b.0 || (a.0 == b.0 && (a.1 < b.1 || (a.1 == b.1 && a.2 < b.2)))
}

/// Some scanned directory parses to `t`.
pub open spec fn some_name_parses_to(names: Seq<String>, p: Platform, t: (u64, u64, u64)) -> bool {
    exists|i: int| 0 <= i < names.len() && parses_to(names[i]@, p, t)
}

/// `t` is the highest version among the scanned directories that match.
pub open spec fn offline_best(names: Seq<String>, p: Platform, t: (u64, u64, u64)) -> bool {
    &&& some_name_parses_to(names, p, t)
    &&& forall|t2: (u64, u64, u64)| some_name_parses_to(names, p, t2) ==> spec_triple_le(t2, t)
}

/// The executable path below an installed directory of version `t`.
pub fn installed_executable_path(t: (u64, u64, u64), p: Platform) -> (r: String)
    ensures
        r@ == spec_executable_path(spec_triple_version(t), p),
{
    let mut ver = fmt_u64(t.0);
    ver.append(".");
    let minor = fmt_u64(t.1);
    ver.append(minor.as_str());
    ver.append(".");
    let patch = fmt_u64(t.2);
    ver.append(patch.as_str());
    executable_path(ver.as_str(), p)
}

/// Offline provisioning's decision: among the entries of the working
/// directory, keep those named as installed directories for this platform,
/// pick the highest version, and name its executable; fail when nothing
/// matches, since without connectivity nothing can be fetched either.
pub fn select_offline(names: &Vec<String>, p: Platform) -> (r: Result<String, Error>)
    ensures
        match r {
            Ok(path) => exists|t: (u64, u64, u64)| #[trigger]
                offline_best(names@, p, t) && path@ == spec_executable_path(
                    spec_triple_version(t),
                    p,
                ),
            Err(e) => e == Error::NoInstallationFound && forall|i: int|
                0 <= i < names@.len() ==> !name_matches(names@[i]@, p),
        },
{
    let mut best: Option<(u64, u64, u64)> = None;
    let mut k: usize = 0;
    while k < names.len()
        invariant
            k <= names@.len(),
            match best {
                None => forall|i: int| 0 <= i < k ==> !name_matches(names@[i]@, p),
                Some(tb) => {
                    &&& exists|i: int| 0 <= i < k && parses_to(names@[i]@, p, tb)
                    &&& forall|i: int, t2: (u64, u64, u64)|
                        0 <= i < k && parses_to(names@[i]@, p, t2) ==> spec_triple_le(t2, tb)
                },
            },
        decreases names@.len() - k,
    {
        match parse_install_dir(&names[k], p) {
            Some(t) => {
                proof {
                    assert(name_matches(names@[k as int]@, p));
                }
                let take = match best {
                    None => true,
                    Some(tb) => triple_lt(tb, t),
                };
                if take {
                    best = Some(t);
                }
            },
            None => {},
        }
        k += 1;
    }
    match best {
        Some(tb) => {
            proof {
                assert(offline_best(names@, p, tb));
            }
            Ok(installed_executable_path(tb, p))
        },
        None => Err(Error::NoInstallationFound),
    }
}


/// An install written under the canonical directory name for version `t` on
/// platform `p` — the name the online provisioner unpacks into — is
/// recognized by the offline parser as exactly `t`.
pub proof fn lemma_install_dir_round_trip(t: (u64, u64, u64), p: Platform)
    ensures
        parses_to(spec_unarchived_name(spec_triple_version(t), p), p, t),
{
    let d1 = spec_dec(t.0 as nat);
    let d2 = spec_dec(t.1 as nat);
    let d3 = spec_dec(t.2 as nat);
    crate::decimal::lemma_spec_dec_digits(t.0 as nat);
    crate::decimal::lemma_spec_dec_digits(t.1 as nat);
    crate::decimal::lemma_spec_dec_digits(t.2 as nat);
    assert(spec_unarchived_name(spec_triple_version(t), p) == spec_dir_name(d1, d2, d3, p));
}

} // verus!
