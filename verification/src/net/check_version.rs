//! Telling the user that a newer release exists.
use vstd::prelude::*;
use crate::text::{chars_of, push_str, string_of};

verus! {

/// What the release service reports about the latest release.
#[derive(Debug, PartialEq, Eq)]
pub struct LatestVersionInfo {
    pub version: String,
    pub url: String,
}

/// Whether `a` comes after `b` in the order of `str`: the first differing
/// character decides, and a proper extension comes after its prefix. Among
/// digit strings of one length this is the order of the numbers.
pub open spec fn text_after(a: Seq<char>, b: Seq<char>) -> bool
    decreases a.len(),
{
    if a.len() == 0 {
        false
    } else if b.len() == 0 {
        true
    } else if a[0] != b[0] {
        (a[0] as u32) > (b[0] as u32)
    } else {
        text_after(a.drop_first(), b.drop_first())
    }
}

/// Whether `c` is a decimal digit.
pub open spec fn is_digit(c: char) -> bool {
    '0' <= c && c <= '9'
}

/// Reading `s` for its runs of digits: the runs ended so far and the run
/// being read.
pub open spec fn runs_state(s: Seq<char>) -> (Seq<Seq<char>>, Seq<char>)
    decreases s.len(),
{
    if s.len() == 0 {
        (Seq::empty(), Seq::empty())
    } else {
        let (runs, cur) = runs_state(s.drop_last());
        let c = s.last();
        if is_digit(c) {
            (runs, cur.push(c))
        } else if cur.len() > 0 {
            (runs.push(cur), Seq::empty())
        } else {
            (runs, cur)
        }
    }
}

/// The numbers written in `s`, as their runs of digits, in order: "v10.2.0"
/// holds "10", "2" and "0".
pub open spec fn digit_runs(s: Seq<char>) -> Seq<Seq<char>> {
    let (runs, cur) = runs_state(s);
    if cur.len() > 0 {
        runs.push(cur)
    } else {
        runs
    }
}

/// The digits `d` without their leading zeros.
pub open spec fn strip_zeros(d: Seq<char>) -> Seq<char>
    decreases d.len(),
{
    if d.len() > 0 && d[0] == '0' {
        strip_zeros(d.drop_first())
    } else {
        d
    }
}

/// Whether the number written with the digits `a` is larger than the one
/// written `b`: without leading zeros, more digits make a larger number,
/// and among as many digits the first that differs decides.
pub open spec fn number_after(a: Seq<char>, b: Seq<char>) -> bool {
    let x = strip_zeros(a);
    let y = strip_zeros(b);
    x.len() > y.len() || (x.len() == y.len() && text_after(x, y))
}

/// Whether the version numbers `a` come after `b`: the first number that
/// differs decides, and more numbers after equal ones come after.
pub open spec fn runs_after(a: Seq<Seq<char>>, b: Seq<Seq<char>>) -> bool
    decreases a.len(),
{
    if a.len() == 0 {
        false
    } else if b.len() == 0 {
        true
    } else if number_after(a[0], b[0]) {
        true
    } else if number_after(b[0], a[0]) {
        false
    } else {
        runs_after(a.drop_first(), b.drop_first())
    }
}

/// Whether version `a` is newer than version `b`, number by number.
pub open spec fn version_after(a: Seq<char>, b: Seq<char>) -> bool {
    runs_after(digit_runs(a), digit_runs(b))
}

/// The views of some character vectors.
pub open spec fn run_views(v: Seq<Vec<char>>) -> Seq<Seq<char>> {
    v.map_values(|x: Vec<char>| x@)
}

/// The runs of digits in `s` (see `digit_runs`).
fn digit_runs_of(s: &Vec<char>) -> (r: Vec<Vec<char>>)
    ensures
        run_views(r@) == digit_runs(s@),
{
    let mut runs: Vec<Vec<char>> = Vec::new();
    let mut cur: Vec<char> = Vec::new();
    let mut i: usize = 0;
    assert(s@.take(0) =~= Seq::<char>::empty());
    assert(run_views(runs@) =~= Seq::<Seq<char>>::empty());
    while i < s.len()
        invariant
            i <= s@.len(),
            (run_views(runs@), cur@) == runs_state(s@.take(i as int)),
        decreases s@.len() - i,
    {
        let c = s[i];
        assert(s@.take(i + 1).drop_last() =~= s@.take(i as int));
        assert(s@.take(i + 1).last() == c);
        if '0' <= c && c <= '9' {
            cur.push(c);
        } else if cur.len() > 0 {
            let ghost before = run_views(runs@);
            let ghost cv = cur@;
            runs.push(cur);
            cur = Vec::new();
            assert(run_views(runs@) =~= before.push(cv));
        }
        i += 1;
    }
    assert(s@.take(s@.len() as int) =~= s@);
    if cur.len() > 0 {
        let ghost before = run_views(runs@);
        let ghost cv = cur@;
        runs.push(cur);
        assert(run_views(runs@) =~= before.push(cv));
    }
    runs
}

/// Where the digits `d` start once their leading zeros are passed.
fn leading_zeros(d: &Vec<char>) -> (k: usize)
    ensures
        k <= d@.len(),
        strip_zeros(d@) == d@.skip(k as int),
{
    let mut k: usize = 0;
    assert(d@.skip(0) =~= d@);
    while k < d.len() && d[k] == '0'
        invariant
            k <= d@.len(),
            strip_zeros(d@) == strip_zeros(d@.skip(k as int)),
        decreases d@.len() - k,
    {
        assert(d@.skip(k as int).drop_first() =~= d@.skip(k + 1));
        k += 1;
    }
    k
}

/// Whether `a[i..]` comes after `b[j..]` in the order of `text_after`.
fn text_after_from(a: &Vec<char>, i: usize, b: &Vec<char>, j: usize) -> (r: bool)
    requires
        i <= a@.len(),
        j <= b@.len(),
    ensures
        r == text_after(a@.skip(i as int), b@.skip(j as int)),
{
    let mut x: usize = i;
    let mut y: usize = j;
    while x < a.len() && y < b.len() && a[x] == b[y]
        invariant
            i <= x <= a@.len(),
            j <= y <= b@.len(),
            x - i == y - j,
            text_after(a@.skip(i as int), b@.skip(j as int)) == text_after(
                a@.skip(x as int),
                b@.skip(y as int),
            ),
        decreases a@.len() - x,
    {
        assert(a@.skip(x as int).drop_first() =~= a@.skip(x + 1));
        assert(b@.skip(y as int).drop_first() =~= b@.skip(y + 1));
        x += 1;
        y += 1;
    }
    if x == a.len() {
        false
    } else if y == b.len() {
        true
    } else {
        (a[x] as u32) > (b[y] as u32)
    }
}

/// Whether the number written `a` is larger than the one written `b`.
fn number_is_after(a: &Vec<char>, b: &Vec<char>) -> (r: bool)
    ensures
        r == number_after(a@, b@),
{
    let ka = leading_zeros(a);
    let kb = leading_zeros(b);
    let la = a.len() - ka;
    let lb = b.len() - kb;
    if la > lb {
        true
    } else if la == lb {
        text_after_from(a, ka, b, kb)
    } else {
        false
    }
}

/// Whether version `a` is newer than version `b` (see `version_after`).
pub fn is_newer(a: &str, b: &str) -> (r: bool)
    ensures
        r == version_after(a@, b@),
{
    let ra = digit_runs_of(&chars_of(a));
    let rb = digit_runs_of(&chars_of(b));
    let ghost x = run_views(ra@);
    let ghost y = run_views(rb@);
    let mut k: usize = 0;
    assert(x.skip(0) =~= x);
    assert(y.skip(0) =~= y);
    while k < ra.len() && k < rb.len()
        invariant
            x == run_views(ra@),
            y == run_views(rb@),
            k <= ra@.len(),
            k <= rb@.len(),
            version_after(a@, b@) == runs_after(x.skip(k as int), y.skip(k as int)),
        decreases ra@.len() - k,
    {
        assert(x.skip(k as int)[0] == ra@[k as int]@);
        assert(y.skip(k as int)[0] == rb@[k as int]@);
        if number_is_after(&ra[k], &rb[k]) {
            return true;
        }
        if number_is_after(&rb[k], &ra[k]) {
            return false;
        }
        assert(x.skip(k as int).drop_first() =~= x.skip(k + 1));
        assert(y.skip(k as int).drop_first() =~= y.skip(k + 1));
        k += 1;
    }
    k < ra.len()
}

/// The notice shown when `new` is newer than `current`.
pub open spec fn newer_notice(current: Seq<char>, new: Seq<char>) -> Seq<char> {
    "There is a newer version of Blightmud available. (current: "@ + current + ", new: "@ + new
        + ")"@
}

/// The hint on where to get the newer release.
pub open spec fn upgrade_hint(url: Seq<char>) -> Seq<char> {
    "Visit "@ + url + " to upgrade to latest version"@
}

/// The messages for the user, given the running version and what the
/// release service reported (`None` when it could not be asked): two
/// messages when the reported version is newer than the running one (see
/// `version_after`), none otherwise.
pub fn run(current: &str, latest: Option<LatestVersionInfo>) -> (r: Vec<String>)
    ensures
        match latest {
            Some(info) => if version_after(info.version@, current@) {
                r@.len() == 2 && r@[0]@ == newer_notice(current@, info.version@) && r@[1]@
                    == upgrade_hint(info.url@)
            } else {
                r@.len() == 0
            },
            None => r@.len() == 0,
        },
{
    let mut out: Vec<String> = Vec::new();
    if let Some(info) = latest {
        if is_newer(info.version.as_str(), current) {
            let mut first: Vec<char> = Vec::new();
            push_str(&mut first, "There is a newer version of Blightmud available. (current: ");
            push_str(&mut first, current);
            push_str(&mut first, ", new: ");
            push_str(&mut first, info.version.as_str());
            push_str(&mut first, ")");
            let mut second: Vec<char> = Vec::new();
            push_str(&mut second, "Visit ");
            push_str(&mut second, info.url.as_str());
            push_str(&mut second, " to upgrade to latest version");
            out.push(string_of(first.as_slice()));
            out.push(string_of(second.as_slice()));
        }
    }
    out
}

} // verus!
