use vstd::prelude::*;
use crate::error::PairError;
use crate::execution::{Outcome, outcomes_nonempty};
use crate::stats::{Statistics, mean_of, mean_of_prefix};

verus! {

/// The outcome of one (test, tool) pair, under the names of both.
#[derive(Debug)]
pub struct PairResult {
    pub test: String,
    pub tool: String,
    pub outcome: Outcome,
}

/// Every pair's outcome, and the tool that ratios are computed against, if one
/// is configured.
#[derive(Debug)]
pub struct BenchifyResults {
    pub results: Vec<PairResult>,
    pub main_tool: Option<String>,
}

/// The key that a result is grouped under: its tool's name when grouping by
/// tool, its test's name otherwise.
pub open spec fn key_of(r: PairResult, by_tool: bool) -> Seq<char> {
    if by_tool {
        r.tool@
    } else {
        r.test@
    }
}

/// The distinct members of `s`, in the order of their first occurrence.
pub open spec fn distinct_names(s: Seq<Seq<char>>) -> Seq<Seq<char>>
    decreases s.len(),
{
    if s.len() == 0 {
        Seq::empty()
    } else {
        let d = distinct_names(s.drop_last());
        if d.contains(s.last()) {
            d
        } else {
            d.push(s.last())
        }
    }
}

/// The keys of the results, in order.
pub open spec fn all_keys(rs: Seq<PairResult>, by_tool: bool) -> Seq<Seq<char>> {
    rs.map_values(|r: PairResult| key_of(r, by_tool))
}

/// Whether a result belongs to the group of `key`: grouping by tool keeps only
/// the pairs that have a sample set.
pub open spec fn in_group(r: PairResult, by_tool: bool, key: Seq<char>) -> bool {
    key_of(r, by_tool) == key && (by_tool ==> r.outcome is Ok)
}

/// The indices, in order, of the results among the first `n` that belong to the
/// group of `key`.
pub open spec fn selected(rs: Seq<PairResult>, by_tool: bool, key: Seq<char>, n: int) -> Seq<int>
    decreases n,
{
    if n <= 0 {
        Seq::empty()
    } else {
        let m = selected(rs, by_tool, key, n - 1);
        if in_group(rs[n - 1], by_tool, key) {
            m.push(n - 1)
        } else {
            m
        }
    }
}

/// The keys among the first `n` of `ks` whose group is not empty.
pub open spec fn kept(rs: Seq<PairResult>, by_tool: bool, ks: Seq<Seq<char>>, n: int) -> Seq<
    Seq<char>,
>
    decreases n,
{
    if n <= 0 {
        Seq::empty()
    } else {
        let k = kept(rs, by_tool, ks, n - 1);
        if selected(rs, by_tool, ks[n - 1], rs.len() as int).len() > 0 {
            k.push(ks[n - 1])
        } else {
            k
        }
    }
}

/// The keys of the grouped view: each key once, by first occurrence, when its
/// group is not empty.
pub open spec fn group_keys(rs: Seq<PairResult>, by_tool: bool) -> Seq<Seq<char>> {
    let d = distinct_names(all_keys(rs, by_tool));
    kept(rs, by_tool, d, d.len() as int)
}

/// One group of a grouped view: the key, then for each member the other name of
/// its pair and its outcome.
pub type Group<'a> = (&'a String, Vec<(&'a String, &'a Outcome)>);

/// `g` is the grouped view of `rs` (by tool or by test).
pub open spec fn is_grouping(g: Seq<Group>, rs: Seq<PairResult>, by_tool: bool) -> bool {
    let ks = group_keys(rs, by_tool);
    &&& g.len() == ks.len()
    &&& forall|i: int|
        0 <= i < g.len() ==> {
            let sel = selected(rs, by_tool, ks[i], rs.len() as int);
            &&& (#[trigger] g[i]).0@ == ks[i]
            &&& g[i].1@.len() == sel.len()
            &&& forall|e: int|
                0 <= e < sel.len() ==> {
                    let r = rs[sel[e]];
                    &&& (*(#[trigger] g[i].1@[e]).0)@ == key_of(r, !by_tool)
                    &&& *g[i].1@[e].1 == r.outcome
                }
        }
}

impl BenchifyResults {
    /// Every sample set holds at least one duration.
    pub open spec fn wf(&self) -> bool {
        outcomes_nonempty(self.results@.map_values(|r: PairResult| r.outcome))
    }

    fn group_by(&self, by_tool: bool) -> (r: Vec<Group<'_>>)
        ensures
            is_grouping(r@, self.results@, by_tool),
    {
        let ghost rs = self.results@;
        let ghost keys = all_keys(rs, by_tool);
        // Index of the first result that carries each distinct key.
        let mut firsts: Vec<usize> = Vec::new();
        let mut i: usize = 0;
        while i < self.results.len()
            invariant
                rs == self.results@,
                keys == all_keys(rs, by_tool),
                0 <= i <= rs.len(),
                firsts@.len() == distinct_names(keys.take(i as int)).len(),
                forall|j: int|
                    0 <= j < firsts@.len() ==> #[trigger] firsts@[j] < rs.len() && key_of(
                        rs[firsts@[j] as int],
                        by_tool,
                    ) == distinct_names(keys.take(i as int))[j],
            decreases rs.len() - i,
        {
            let key = if by_tool {
                &self.results[i].tool
            } else {
                &self.results[i].test
            };
            let ghost d = distinct_names(keys.take(i as int));
            proof {
                assert(keys.take(i + 1).drop_last() == keys.take(i as int));
                assert(keys.take(i + 1).last() == key@);
            }
            let mut j: usize = 0;
            let mut found = false;
            while j < firsts.len()
                invariant
                    rs == self.results@,
                    0 <= j <= firsts@.len(),
                    firsts@.len() == d.len(),
                    forall|t: int|
                        0 <= t < firsts@.len() ==> #[trigger] firsts@[t] < rs.len() && key_of(
                            rs[firsts@[t] as int],
                            by_tool,
                        ) == d[t],
                    found ==> d.contains(key@),
                    !found ==> forall|t: int| 0 <= t < j ==> d[t] != key@,
                decreases firsts@.len() - j,
            {
                let f = firsts[j];
                let other = if by_tool {
                    &self.results[f].tool
                } else {
                    &self.results[f].test
                };
                if *other == *key {
                    found = true;
                    proof {
                        assert(d[j as int] == key@);
                    }
                }
                j = j + 1;
            }
            if !found {
                proof {
                    assert(!d.contains(key@));
                }
                firsts.push(i);
            }
            i = i + 1;
        }
        proof {
            assert(keys.take(rs.len() as int) == keys);
        }
        let ghost d = distinct_names(keys);
        let mut groups: Vec<Group<'_>> = Vec::new();
        let mut j: usize = 0;
        while j < firsts.len()
            invariant
                rs == self.results@,
                d == distinct_names(all_keys(rs, by_tool)),
                firsts@.len() == d.len(),
                forall|t: int|
                    0 <= t < firsts@.len() ==> #[trigger] firsts@[t] < rs.len() && key_of(
                        rs[firsts@[t] as int],
                        by_tool,
                    ) == d[t],
                0 <= j <= firsts@.len(),
                groups@.len() == kept(rs, by_tool, d, j as int).len(),
                forall|g: int|
                    0 <= g < groups@.len() ==> {
                        let ks = kept(rs, by_tool, d, j as int);
                        let sel = selected(rs, by_tool, ks[g], rs.len() as int);
                        &&& (#[trigger] groups@[g]).0@ == ks[g]
                        &&& groups@[g].1@.len() == sel.len()
                        &&& forall|e: int|
                            0 <= e < sel.len() ==> {
                                let r = rs[sel[e]];
                                &&& (*(#[trigger] groups@[g].1@[e]).0)@ == key_of(r, !by_tool)
                                &&& *groups@[g].1@[e].1 == r.outcome
                            }
                    },
            decreases firsts@.len() - j,
        {
            let f = firsts[j];
            let key = if by_tool {
                &self.results[f].tool
            } else {
                &self.results[f].test
            };
            let mut entries: Vec<(&String, &Outcome)> = Vec::new();
            let mut n: usize = 0;
            while n < self.results.len()
                invariant
                    rs == self.results@,
                    0 <= n <= rs.len(),
                    entries@.len() == selected(rs, by_tool, key@, n as int).len(),
                    forall|e: int|
                        0 <= e < entries@.len() ==> {
                            let r = rs[selected(rs, by_tool, key@, n as int)[e]];
                            &&& (*(#[trigger] entries@[e]).0)@ == key_of(r, !by_tool)
                            &&& *entries@[e].1 == r.outcome
                        },
                decreases rs.len() - n,
            {
                let r = &self.results[n];
                let k = if by_tool {
                    &r.tool
                } else {
                    &r.test
                };
                let ok = match &r.outcome {
                    Ok(_) => true,
                    Err(_) => false,
                };
                if *k == *key && (!by_tool || ok) {
                    let other = if by_tool {
                        &r.test
                    } else {
                        &r.tool
                    };
                    entries.push((other, &r.outcome));
                }
                n = n + 1;
            }
            let ghost ks_old = kept(rs, by_tool, d, j as int);
            if entries.len() > 0 {
                groups.push((key, entries));
            }
            proof {
                let ks = kept(rs, by_tool, d, j + 1);
                assert(forall|g: int| 0 <= g < ks_old.len() ==> ks[g] == ks_old[g]);
            }
            j = j + 1;
        }
        groups
    }

    /// The outcomes grouped by test, tests in order of first appearance; each group
    /// lists, in order, the tool and outcome of every pair of that test.
    pub fn results_by_test(&self) -> (r: Vec<Group<'_>>)
        ensures
            is_grouping(r@, self.results@, false),
    {
        self.group_by(false)
    }

    /// The sample sets grouped by tool, tools in order of first appearance; each
    /// group lists, in order, the test and outcome of every pair of that tool that
    /// has a sample set. Failed pairs are left out, and so is a tool without any
    /// sample set.
    pub fn results_by_executor(&self) -> (r: Vec<Group<'_>>)
        ensures
            is_grouping(r@, self.results@, true),
    {
        self.group_by(true)
    }
}

/// The members of one group of a grouped view: a name and an outcome each.
pub type Entries<'a> = Vec<(&'a String, &'a Outcome)>;

/// Every sample set among the entries holds at least one duration.
pub open spec fn entries_wf(es: Seq<(&String, &Outcome)>) -> bool {
    forall|e: int| 0 <= e < es.len() && (#[trigger] es[e]).1 is Ok ==> es[e].1->Ok_0@.len() > 0
}

/// The mean of an entry's sample set.
pub open spec fn entry_mean(es: Seq<(&String, &Outcome)>, e: int) -> int {
    mean_of(es[e].1->Ok_0@)
}

/// The first among the first `n` entries named `m`, if any.
pub open spec fn first_named(es: Seq<(&String, &Outcome)>, m: Seq<char>, n: int) -> Option<int>
    decreases n,
{
    if n <= 0 {
        None
    } else {
        match first_named(es, m, n - 1) {
            Some(i) => Some(i),
            None => if (*es[n - 1].0)@ == m {
                Some(n - 1)
            } else {
                None
            },
        }
    }
}

/// Among the first `n` entries with a sample set, the first one of least mean.
pub open spec fn fastest(es: Seq<(&String, &Outcome)>, n: int) -> Option<int>
    decreases n,
{
    if n <= 0 {
        None
    } else {
        let b = fastest(es, n - 1);
        if es[n - 1].1 is Ok && (b is None || entry_mean(es, n - 1) < entry_mean(es, b->Some_0)) {
            Some(n - 1)
        } else {
            b
        }
    }
}

/// The entry that ratios are computed against: the main tool when one is named
/// (provided it has a sample set), else the fastest. `None` when there is none.
pub open spec fn comparison_point_spec(main: Option<Seq<char>>, es: Seq<(&String, &Outcome)>) -> Option<int> {
    match main {
        Some(m) => match first_named(es, m, es.len() as int) {
            Some(i) => if es[i].1 is Ok {
                Some(i)
            } else {
                None
            },
            None => None,
        },
        None => fastest(es, es.len() as int),
    }
}

/// `mean / base` in thousandths, rounded half up.
pub open spec fn ratio_milli_spec(mean: int, base: int) -> int {
    (mean * 1000 + base / 2) / base
}

/// The comparison point's own ratio is exactly one (1000 thousandths).
pub proof fn lemma_baseline_ratio_is_one(mean: int)
    requires
        mean > 0,
    ensures
        ratio_milli_spec(mean, mean) == 1000,
{
    assert((mean * 1000 + mean / 2) / mean == 1000) by (nonlinear_arith)
        requires mean > 0;
}

proof fn lemma_fastest_bounds(es: Seq<(&String, &Outcome)>, n: int)
    requires
        0 <= n <= es.len(),
    ensures
        fastest(es, n) is Some ==> 0 <= fastest(es, n)->Some_0 < n && es[fastest(es, n)->Some_0].1 is Ok,
        fastest(es, n) is None ==> forall|e: int| 0 <= e < n ==> (#[trigger] es[e]).1 is Err,
        fastest(es, n) is Some ==> forall|e: int|
            0 <= e < n && (#[trigger] es[e]).1 is Ok ==> entry_mean(es, fastest(es, n)->Some_0)
                <= entry_mean(es, e),
    decreases n,
{
    if n > 0 {
        lemma_fastest_bounds(es, n - 1);
    }
}

proof fn lemma_first_named_bounds(es: Seq<(&String, &Outcome)>, m: Seq<char>, n: int)
    requires
        0 <= n <= es.len(),
    ensures
        first_named(es, m, n) is Some ==> 0 <= first_named(es, m, n)->Some_0 < n,
    decreases n,
{
    if n > 0 {
        lemma_first_named_bounds(es, m, n - 1);
    }
}

/// The mean of a sample set that holds at least one duration.
fn outcome_mean(o: &Outcome) -> (r: u64)
    requires
        o is Ok,
        o->Ok_0@.len() > 0,
    ensures
        r == mean_of(o->Ok_0@),
{
    match o {
        Ok(v) => {
            proof {
                assert(v@.take(v@.len() as int) == v@);
            }
            mean_of_prefix(v, v.len())
        },
        Err(_) => 0,
    }
}

/// The name that `main` holds, if any.
pub open spec fn name_view(main: Option<&String>) -> Option<Seq<char>> {
    match main {
        Some(m) => Some(m@),
        None => None,
    }
}

/// An optional index as an optional integer.
pub open spec fn opt_index(r: Option<usize>) -> Option<int> {
    match r {
        Some(i) => Some(i as int),
        None => None,
    }
}

/// The index of the entry that ratios are computed against, if any.
pub fn comparison_point(main: Option<&String>, es: &Entries) -> (r: Option<usize>)
    requires
        entries_wf(es@),
    ensures
        opt_index(r) == comparison_point_spec(name_view(main), es@),
{
    match main {
        Some(m) => {
            let mut i: usize = 0;
            while i < es.len()
                invariant
                    main == Some(m),
                    0 <= i <= es@.len(),
                    first_named(es@, m@, i as int) is None,
                decreases es@.len() - i,
            {
                if *es[i].0 == *m {
                    proof {
                        assert(first_named(es@, m@, i + 1) == Some(i as int));
                        lemma_first_named_extends(es@, m@, i + 1);
                    }
                    return match es[i].1 {
                        Ok(_) => Some(i),
                        Err(_) => None,
                    };
                }
                i = i + 1;
            }
            None
        },
        None => {
            let mut best: Option<usize> = None;
            let mut best_mean: u64 = 0;
            let mut i: usize = 0;
            while i < es.len()
                invariant
                    entries_wf(es@),
                    0 <= i <= es@.len(),
                    opt_index(best) == fastest(es@, i as int),
                    best is Some ==> best_mean == entry_mean(es@, best->Some_0 as int),
                decreases es@.len() - i,
            {
                proof {
                    lemma_fastest_bounds(es@, i as int);
                }
                let o = es[i].1;
                match o {
                    Ok(_) => {
                        proof {
                            assert(es@[i as int].1 is Ok);
                        }
                        let m = outcome_mean(o);
                        let better = match best {
                            None => true,
                            Some(_) => m < best_mean,
                        };
                        if better {
                            best = Some(i);
                            best_mean = m;
                        }
                    },
                    Err(_) => {},
                }
                i = i + 1;
            }
            proof {
                lemma_fastest_bounds(es@, i as int);
            }
            best
        },
    }
}

proof fn lemma_first_named_extends(es: Seq<(&String, &Outcome)>, m: Seq<char>, n: int)
    requires
        0 <= n <= es.len(),
        first_named(es, m, n) is Some,
    ensures
        first_named(es, m, es.len() as int) == first_named(es, m, n),
    decreases es.len() - n,
{
    if n < es.len() {
        assert(first_named(es, m, n + 1) == first_named(es, m, n));
        lemma_first_named_extends(es, m, n + 1);
    }
}

/// `mean / base` in thousandths, rounded half up.
pub fn ratio_milli(mean: u64, base: u64) -> (r: u128)
    requires
        base > 0,
    ensures
        r == ratio_milli_spec(mean as int, base as int),
{
    assert(mean * 1000 + base / 2 <= u128::MAX) by (nonlinear_arith)
        requires mean <= u64::MAX, base <= u64::MAX;
    ((mean as u128) * 1000 + (base as u128) / 2) / (base as u128)
}

/// One row of a test's summary: the tool, whether it is the comparison point,
/// the statistics of its sample set or why it has none, and its mean against the
/// comparison point's in thousandths (when there is one with a non-zero mean).
#[derive(Debug)]
pub struct SummaryRow<'a> {
    pub name: &'a String,
    pub is_baseline: bool,
    pub stats: Result<Statistics, &'a PairError>,
    pub ratio_milli: Option<u128>,
}

/// `row` summarises entry `e` of `es` against the comparison point `b`.
pub open spec fn summarises(row: SummaryRow, es: Seq<(&String, &Outcome)>, e: int, b: Option<int>) -> bool {
    let o = *es[e].1;
    &&& row.name == es[e].0
    &&& row.is_baseline == (b == Some(e))
    &&& match o {
        Ok(v) => {
            &&& row.stats is Ok
            &&& row.stats->Ok_0.describes(v@)
            &&& row.ratio_milli == match b {
                Some(i) => if entry_mean(es, i) > 0 {
                    Some(ratio_milli_spec(mean_of(v@), entry_mean(es, i)) as u128)
                } else {
                    None::<u128>
                },
                None => None::<u128>,
            }
        },
        Err(err) => row.stats == Err::<Statistics, &PairError>(&err) && row.ratio_milli is None,
    }
}

/// The rows of a test's summary, one per entry and in order, with the ratio of
/// each mean to the comparison point's.
pub fn format_summary<'a>(main: Option<&String>, es: &Entries<'a>) -> (r: Vec<SummaryRow<'a>>)
    requires
        entries_wf(es@),
    ensures
        r@.len() == es@.len(),
        forall|e: int|
            0 <= e < es@.len() ==> summarises(
                #[trigger] r@[e],
                es@,
                e,
                comparison_point_spec(name_view(main), es@),
            ),
{
    let b = comparison_point(main, es);
    let ghost gb = comparison_point_spec(name_view(main), es@);
    proof {
        lemma_fastest_bounds(es@, es@.len() as int);
        if main is Some {
            lemma_first_named_bounds(es@, main->Some_0@, es@.len() as int);
        }
        assert(gb is Some ==> 0 <= gb->Some_0 < es@.len() && es@[gb->Some_0].1 is Ok);
    }
    let base: u64 = match b {
        Some(i) => {
            outcome_mean(es[i].1)
        },
        None => 0,
    };
    let mut rows: Vec<SummaryRow<'a>> = Vec::new();
    let mut e: usize = 0;
    while e < es.len()
        invariant
            entries_wf(es@),
            0 <= e <= es@.len(),
            gb is Some ==> 0 <= gb->Some_0 < es@.len() && es@[gb->Some_0].1 is Ok,
            opt_index(b) == gb,
            b is Some ==> base == entry_mean(es@, gb->Some_0),
            rows@.len() == e,
            forall|k: int| 0 <= k < e ==> summarises(#[trigger] rows@[k], es@, k, gb),
        decreases es@.len() - e,
    {
        let (name, o) = es[e];
        let is_baseline = match b {
            Some(i) => i == e,
            None => false,
        };
        let row = match o {
            Ok(v) => {
                proof {
                    assert(es@[e as int].1 is Ok);
                }
                let st = Statistics::new(v);
                let ratio = match b {
                    Some(_) => if base > 0 {
                        Some(ratio_milli(st.mean, base))
                    } else {
                        None
                    },
                    None => None,
                };
                SummaryRow { name, is_baseline, stats: Ok(st), ratio_milli: ratio }
            },
            Err(err) => SummaryRow { name, is_baseline, stats: Err(err), ratio_milli: None },
        };
        rows.push(row);
        e = e + 1;
    }
    rows
}

} // verus!
