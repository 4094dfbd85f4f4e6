//! Report presentation: classification and ordering.
//!
//! The HTML and text renderers group reports into successes, failures
//! (ran but exited non-zero) and bugs (never ran), each sorted by
//! display name ascending and version descending.  The renderer itself
//! is a pure function of the results document and lives outside the
//! library; this module computes the grouping and ordering it consumes,
//! as index lists into the report table.

use vstd::prelude::*;

use crate::results::{is_bug, is_failure, is_success, Report};
use crate::strutil::str_eq;

verus! {

/// Code-point order on character sequences.
pub open spec fn lex_le(a: Seq<char>, b: Seq<char>) -> bool
    decreases a.len(),
{
    if a.len() == 0 {
        true
    } else if b.len() == 0 {
        false
    } else if (a[0] as u32) < (b[0] as u32) {
        true
    } else if (a[0] as u32) > (b[0] as u32) {
        false
    } else {
        lex_le(a.subrange(1, a.len() as int), b.subrange(1, b.len() as int))
    }
}

pub proof fn lemma_lex_le_total(a: Seq<char>, b: Seq<char>)
    ensures
        lex_le(a, b) || lex_le(b, a),
    decreases a.len(),
{
    if a.len() > 0 && b.len() > 0 && (a[0] as u32) == (b[0] as u32) {
        lemma_lex_le_total(a.subrange(1, a.len() as int), b.subrange(1, b.len() as int));
    }
}

/// Distinct characters have distinct code points.
proof fn char_cast_probe(c1: char, c2: char)
    requires
        (c1 as u32) == (c2 as u32),
    ensures
        c1 == c2,
{
}

pub proof fn lemma_lex_le_antisymmetric(a: Seq<char>, b: Seq<char>)
    requires
        lex_le(a, b),
        lex_le(b, a),
    ensures
        a == b,
    decreases a.len(),
{
    if a.len() == 0 {
        assert(b.len() == 0);
        assert(a =~= b);
    } else {
        assert(b.len() > 0);
        assert((a[0] as u32) == (b[0] as u32));
        char_cast_probe(a[0], b[0]);
        assert(a[0] == b[0]);
        lemma_lex_le_antisymmetric(
            a.subrange(1, a.len() as int),
            b.subrange(1, b.len() as int),
        );
        assert(a.subrange(1, a.len() as int).len() == a.len() - 1);
        assert(b.subrange(1, b.len() as int).len() == b.len() - 1);
        assert(a.len() == b.len());
        assert forall|k: int| 0 <= k < a.len() implies a[k] == b[k] by {
            if k > 0 {
                assert(a.subrange(1, a.len() as int)[k - 1] == a[k]);
                assert(b.subrange(1, b.len() as int)[k - 1] == b[k]);
            }
        }
        assert(a =~= b);
    }
}

pub proof fn lemma_lex_le_transitive(a: Seq<char>, b: Seq<char>, c: Seq<char>)
    requires
        lex_le(a, b),
        lex_le(b, c),
    ensures
        lex_le(a, c),
    decreases a.len(),
{
    if a.len() > 0 && b.len() > 0 && c.len() > 0 && (a[0] as u32) == (b[0] as u32) && (b[0]
        as u32) == (c[0] as u32) {
        lemma_lex_le_transitive(
            a.subrange(1, a.len() as int),
            b.subrange(1, b.len() as int),
            c.subrange(1, c.len() as int),
        );
    }
}

/// Report order for presentation: display name ascending, then version
/// descending.
pub open spec fn report_le(a: Report, b: Report) -> bool {
    if a.display_name@ == b.display_name@ {
        lex_le(b.package_version.version@, a.package_version.version@)
    } else {
        lex_le(a.display_name@, b.display_name@)
    }
}

pub proof fn lemma_report_le_total(a: Report, b: Report)
    ensures
        report_le(a, b) || report_le(b, a),
{
    if a.display_name@ == b.display_name@ {
        lemma_lex_le_total(b.package_version.version@, a.package_version.version@);
    } else {
        lemma_lex_le_total(a.display_name@, b.display_name@);
    }
}

pub proof fn lemma_report_le_transitive(a: Report, b: Report, c: Report)
    requires
        report_le(a, b),
        report_le(b, c),
    ensures
        report_le(a, c),
{
    if a.display_name@ == b.display_name@ && b.display_name@ == c.display_name@ {
        lemma_lex_le_transitive(
            c.package_version.version@,
            b.package_version.version@,
            a.package_version.version@,
        );
    } else if a.display_name@ != b.display_name@ && b.display_name@ != c.display_name@ {
        lemma_lex_le_transitive(a.display_name@, b.display_name@, c.display_name@);
        if a.display_name@ == c.display_name@ {
            lemma_lex_le_antisymmetric(a.display_name@, b.display_name@);
        }
    }
}

/// If two sequences agree on a prefix, their order is the order of the
/// suffixes after it.
proof fn lemma_lex_le_common_prefix(a: Seq<char>, b: Seq<char>, i: int)
    requires
        0 <= i <= a.len(),
        i <= b.len(),
        forall|k: int| 0 <= k < i ==> a[k] == b[k],
    ensures
        lex_le(a, b) == lex_le(
            a.subrange(i, a.len() as int),
            b.subrange(i, b.len() as int),
        ),
    decreases i,
{
    if i > 0 {
        assert(a.len() > 0 && b.len() > 0 && a[0] == b[0]);
        assert((a[0] as u32) == (b[0] as u32));
        let ta = a.subrange(1, a.len() as int);
        let tb = b.subrange(1, b.len() as int);
        lemma_lex_le_common_prefix(ta, tb, i - 1);
        assert(ta.subrange(i - 1, ta.len() as int) =~= a.subrange(i, a.len() as int));
        assert(tb.subrange(i - 1, tb.len() as int) =~= b.subrange(i, b.len() as int));
    } else {
        assert(a.subrange(0, a.len() as int) =~= a);
        assert(b.subrange(0, b.len() as int) =~= b);
    }
}

/// Executable code-point comparison.
pub fn lex_le_exec(a: &str, b: &str) -> (r: bool)
    ensures
        r == lex_le(a@, b@),
{
    let a_len = a.unicode_len();
    let b_len = b.unicode_len();
    let min: usize = if a_len < b_len {
        a_len
    } else {
        b_len
    };
    let mut i: usize = 0;
    while i < min
        invariant
            a_len == a@.len(),
            b_len == b@.len(),
            min <= a_len,
            min <= b_len,
            0 <= i <= min,
            forall|k: int| 0 <= k < i ==> a@[k] == b@[k],
        decreases min - i,
    {
        let ca = a.get_char(i);
        let cb = b.get_char(i);
        if ca != cb {
            proof {
                lemma_lex_le_common_prefix(a@, b@, i as int);
                let sa = a@.subrange(i as int, a_len as int);
                let sb = b@.subrange(i as int, b_len as int);
                assert(sa[0] == ca && sb[0] == cb);
            }
            return (ca as u32) < (cb as u32);
        }
        i += 1;
    }
    proof {
        lemma_lex_le_common_prefix(a@, b@, min as int);
        let sa = a@.subrange(min as int, a_len as int);
        let sb = b@.subrange(min as int, b_len as int);
        if a_len <= b_len {
            assert(sa.len() == 0);
        } else {
            assert(sa.len() > 0 && sb.len() == 0);
        }
    }
    a_len <= b_len
}

/// Executable report comparison.
pub fn report_le_exec(a: &Report, b: &Report) -> (r: bool)
    ensures
        r == report_le(*a, *b),
{
    if str_eq(a.display_name.as_str(), b.display_name.as_str()) {
        lex_le_exec(
            b.package_version.version.as_str(),
            a.package_version.version.as_str(),
        )
    } else {
        lex_le_exec(a.display_name.as_str(), b.display_name.as_str())
    }
}

/// `idx` lists positions of `reports` in presentation order.
pub open spec fn order_sorted(reports: Seq<Report>, idx: Seq<usize>) -> bool {
    forall|x: int, y: int|
        0 <= x < y < idx.len() && idx[x] < reports.len() && idx[y] < reports.len()
            ==> report_le(reports[#[trigger] idx[x] as int], reports[#[trigger] idx[y] as int])
}

/// Sort a list of report positions by presentation order.  The result
/// holds exactly the given positions: same members, no duplicates
/// introduced.
pub fn sort_indices(reports: &Vec<Report>, input: Vec<usize>) -> (r: Vec<usize>)
    requires
        forall|k: int| 0 <= k < input@.len() ==> input@[k] < reports@.len(),
        forall|x: int, y: int| 0 <= x < y < input@.len() ==> input@[x] != input@[y],
    ensures
        r@.len() == input@.len(),
        forall|k: int| 0 <= k < r@.len() ==> r@[k] < reports@.len(),
        forall|x: usize| r@.contains(x) <==> input@.contains(x),
        forall|x: int, y: int| 0 <= x < y < r@.len() ==> r@[x] != r@[y],
        order_sorted(reports@, r@),
{
    let mut out: Vec<usize> = Vec::new();
    let mut t: usize = 0;
    while t < input.len()
        invariant
            0 <= t <= input@.len(),
            forall|k: int| 0 <= k < input@.len() ==> input@[k] < reports@.len(),
            forall|x: int, y: int| 0 <= x < y < input@.len() ==> input@[x] != input@[y],
            out@.len() == t,
            forall|k: int| 0 <= k < out@.len() ==> out@[k] < reports@.len(),
            forall|x: usize|
                out@.contains(x) <==> exists|k: int| 0 <= k < t && input@[k] == x,
            forall|x: int, y: int| 0 <= x < y < out@.len() ==> out@[x] != out@[y],
            order_sorted(reports@, out@),
        decreases input@.len() - t,
    {
        let next = input[t];
        // find the first position whose report must come after `next`
        let mut p: usize = 0;
        while p < out.len()
            invariant
                out@.len() == t,
                next == input@[t as int],
                next < reports@.len(),
                forall|k: int| 0 <= k < out@.len() ==> out@[k] < reports@.len(),
                0 <= p <= out@.len(),
                forall|k: int|
                    0 <= k < p ==> report_le(
                        reports@[#[trigger] out@[k] as int],
                        reports@[next as int],
                    ),
            ensures
                p == out@.len() || (p < out@.len() && !report_le(
                    reports@[out@[p as int] as int],
                    reports@[next as int],
                )),
            decreases out@.len() - p,
        {
            if report_le_exec(&reports[out[p]], &reports[next]) {
                p += 1;
            } else {
                break ;
            }
        }
        proof {
            if p < out@.len() {
                lemma_report_le_total(reports@[out@[p as int] as int], reports@[next as int]);
            }
        }
        let ghost out_pre = out@;
        out.insert(p, next);
        proof {
            out_pre.insert_ensures(p as int, next);
            // membership: the new list holds exactly the old members plus `next`
            assert forall|x: usize| out@.contains(x) implies (exists|k: int|
                0 <= k < t + 1 && input@[k] == x) by {
                let w = choose|w: int| 0 <= w < out@.len() && out@[w] == x;
                if w < p {
                    assert(out_pre[w] == x);
                    assert(out_pre.contains(x));
                } else if w == p {
                    assert(input@[t as int] == x);
                } else {
                    assert(out_pre[w - 1] == x);
                    assert(out_pre.contains(x));
                }
            }
            assert forall|x: usize| (exists|k: int| 0 <= k < t + 1 && input@[k] == x) implies
                out@.contains(x) by {
                let k = choose|k: int| 0 <= k < t + 1 && input@[k] == x;
                if k < t {
                    assert(out_pre.contains(x));
                    let w = choose|w: int| 0 <= w < out_pre.len() && out_pre[w] == x;
                    if w < p {
                        assert(out@[w] == x);
                    } else {
                        assert(out@[w + 1] == x);
                    }
                } else {
                    assert(out@[p as int] == x);
                }
            }
            // distinctness: `next` was not present before
            assert(!out_pre.contains(next));
            assert forall|x: int, y: int| 0 <= x < y < out@.len() implies out@[x] != out@[y] by {
                if y < p {
                    assert(out@[x] == out_pre[x] && out@[y] == out_pre[y]);
                } else if x > p {
                    assert(out@[x] == out_pre[x - 1] && out@[y] == out_pre[y - 1]);
                } else if x < p && y > p {
                    assert(out@[x] == out_pre[x] && out@[y] == out_pre[y - 1]);
                } else if x == p {
                    assert(out@[y] == out_pre[y - 1]);
                    assert(out_pre[y - 1] != next) by {
                        if out_pre[y - 1] == next {
                            assert(out_pre.contains(next));
                        }
                    }
                } else {
                    assert(y == p);
                    assert(out@[x] == out_pre[x]);
                    assert(out_pre[x] != next) by {
                        if out_pre[x] == next {
                            assert(out_pre.contains(next));
                        }
                    }
                }
            }
            // sortedness
            assert forall|x: int, y: int|
                0 <= x < y < out@.len() && out@[x] < reports@.len() && out@[y]
                    < reports@.len() implies report_le(
                reports@[out@[x] as int],
                reports@[out@[y] as int],
            ) by {
                if y < p {
                    assert(out@[x] == out_pre[x] && out@[y] == out_pre[y]);
                } else if x > p {
                    assert(out@[x] == out_pre[x - 1] && out@[y] == out_pre[y - 1]);
                } else if x < p && y > p {
                    assert(out@[x] == out_pre[x] && out@[y] == out_pre[y - 1]);
                } else if x == p {
                    // next, then an element at or after the insertion point
                    assert(out@[x] == next && out@[y] == out_pre[y - 1]);
                    assert(!report_le(reports@[out_pre[p as int] as int], reports@[next as int]));
                    assert(report_le(reports@[next as int], reports@[out_pre[p as int] as int]));
                    if y - 1 > p {
                        assert(report_le(
                            reports@[out_pre[p as int] as int],
                            reports@[out_pre[y - 1] as int],
                        ));
                        lemma_report_le_transitive(
                            reports@[next as int],
                            reports@[out_pre[p as int] as int],
                            reports@[out_pre[y - 1] as int],
                        );
                    }
                } else {
                    // an element of the sorted prefix, then next
                    assert(y == p);
                    assert(out@[x] == out_pre[x] && out@[y] == next);
                    assert(report_le(reports@[out_pre[x] as int], reports@[next as int]));
                }
            }
        }
        t += 1;
    }
    out
}

/// Positions of every report, in report order.
fn all_indices(reports: &Vec<Report>) -> (r: Vec<usize>)
    ensures
        r@.len() == reports@.len(),
        forall|k: int| 0 <= k < r@.len() ==> r@[k] == k,
{
    let mut out: Vec<usize> = Vec::new();
    let mut i: usize = 0;
    while i < reports.len()
        invariant
            0 <= i <= reports@.len(),
            out@.len() == i,
            forall|k: int| 0 <= k < i ==> out@[k] == k,
        decreases reports@.len() - i,
    {
        out.push(i);
        i += 1;
    }
    out
}

/// Which presentation class a report belongs to.
#[derive(Debug, Clone, Copy, PartialEq, Eq, Structural)]
pub enum ReportClass {
    Success,
    Failure,
    Bug,
}

/// The class a report belongs to; every report has exactly one.
pub open spec fn class_of(r: Report) -> ReportClass {
    if is_success(r) {
        ReportClass::Success
    } else if is_failure(r) {
        ReportClass::Failure
    } else {
        ReportClass::Bug
    }
}

/// Positions of the reports of one class, in report order.
fn class_indices(reports: &Vec<Report>, class: ReportClass) -> (r: Vec<usize>)
    ensures
        forall|k: int| 0 <= k < r@.len() ==> r@[k] < reports@.len(),
        forall|x: int, y: int| 0 <= x < y < r@.len() ==> r@[x] < r@[y],
        forall|j: usize|
            r@.contains(j) <==> j < reports@.len() && class_of(reports@[j as int]) == class,
{
    let mut out: Vec<usize> = Vec::new();
    let mut i: usize = 0;
    while i < reports.len()
        invariant
            0 <= i <= reports@.len(),
            forall|k: int| 0 <= k < out@.len() ==> out@[k] < i,
            forall|x: int, y: int| 0 <= x < y < out@.len() ==> out@[x] < out@[y],
            forall|j: usize|
                out@.contains(j) <==> j < i && class_of(reports@[j as int]) == class,
        decreases reports@.len() - i,
    {
        let ghost out_pre = out@;
        let matches_class = match class {
            ReportClass::Success => match &reports[i].outcome {
                crate::results::Outcome::Completed { status, .. } => status.success,
                _ => false,
            },
            ReportClass::Failure => match &reports[i].outcome {
                crate::results::Outcome::Completed { status, .. } => !status.success,
                _ => false,
            },
            ReportClass::Bug => match &reports[i].outcome {
                crate::results::Outcome::Completed { .. } => false,
                _ => true,
            },
        };
        proof {
            assert(matches_class == (class_of(reports@[i as int]) == class));
        }
        if matches_class {
            out.push(i);
        }
        proof {
            assert forall|j: usize| out@.contains(j) implies (j < i + 1 && class_of(
                reports@[j as int],
            ) == class) by {
                let w = choose|w: int| 0 <= w < out@.len() && out@[w] == j;
                if w < out_pre.len() {
                    assert(out_pre[w] == j);
                    assert(out_pre.contains(j));
                }
            }
            assert forall|j: usize| (j < i + 1 && class_of(reports@[j as int]) == class) implies
                out@.contains(j) by {
                if j < i {
                    assert(out_pre.contains(j));
                    let w = choose|w: int| 0 <= w < out_pre.len() && out_pre[w] == j;
                    assert(out@[w] == j);
                } else {
                    assert(matches_class);
                    assert(out@[out@.len() - 1] == j);
                }
            }
        }
        i += 1;
    }
    out
}

/// The reports grouped for presentation, as positions into the report
/// table, each group sorted by display name ascending and version
/// descending.
#[derive(Debug, PartialEq, Eq)]
pub struct ReportCategories {
    /// Cases the pipeline could not run.
    pub bugs: Vec<usize>,
    /// Cases that ran and exited successfully.
    pub success: Vec<usize>,
    /// Cases that ran but exited non-zero.
    pub failures: Vec<usize>,
    /// Every case.
    pub all: Vec<usize>,
    pub total: usize,
}

/// One index list is the sorted positions of one class.
pub open spec fn category_ok(
    reports: Seq<Report>,
    idx: Seq<usize>,
    class: ReportClass,
) -> bool {
    &&& forall|k: int| 0 <= k < idx.len() ==> idx[k] < reports.len()
    &&& forall|x: int, y: int| 0 <= x < y < idx.len() ==> idx[x] != idx[y]
    &&& forall|j: usize| idx.contains(j) <==> j < reports.len() && class_of(reports[j as int])
        == class
    &&& order_sorted(reports, idx)
}

impl ReportCategories {
    /// Group and order the reports.  Every report lands in `all` and in
    /// exactly one of the three classes, each list sorted for
    /// presentation.
    pub fn new(reports: &Vec<Report>) -> (r: ReportCategories)
        ensures
            r.total == reports@.len(),
            r.all@.len() == reports@.len(),
            forall|k: int| 0 <= k < r.all@.len() ==> r.all@[k] < reports@.len(),
            forall|x: int, y: int| 0 <= x < y < r.all@.len() ==> r.all@[x] != r.all@[y],
            order_sorted(reports@, r.all@),
            category_ok(reports@, r.success@, ReportClass::Success),
            category_ok(reports@, r.failures@, ReportClass::Failure),
            category_ok(reports@, r.bugs@, ReportClass::Bug),
    {
        let everything = all_indices(reports);
        proof {
            assert forall|x: int, y: int|
                0 <= x < y < everything@.len() implies everything@[x] != everything@[y] by {}
        }
        let all = sort_indices(reports, everything);
        let success = sort_indices(reports, class_indices(reports, ReportClass::Success));
        let failures = sort_indices(reports, class_indices(reports, ReportClass::Failure));
        let bugs = sort_indices(reports, class_indices(reports, ReportClass::Bug));
        let total = reports.len();
        ReportCategories { bugs, success, failures, all, total }
    }
}

} // verus!
