//! The aggregator: findings of many packages merged into one report.

use vstd::prelude::*;
use crate::analyzer::{findings, views, Insight, InsightView, Severity};
use crate::cli::FailLevel;
use crate::metadata::{Date, FetchError, PackageMeta};

verus! {

broadcast use vstd::seq_lib::group_seq_properties, vstd::set::group_set_axioms;

/// The number of findings of severity `sev` in `s`.
pub open spec fn count_of(s: Seq<InsightView>, sev: Severity) -> nat
    decreases s.len(),
{
    if s.len() == 0 {
        0
    } else {
        count_of(s.drop_last(), sev) + if s.last().severity == sev {
            1nat
        } else {
            0nat
        }
    }
}

/// The packages that the findings `s` are about.
pub open spec fn packages_of(s: Seq<InsightView>) -> Set<Seq<char>> {
    s.map_values(|i: InsightView| i.package).to_set()
}

pub open spec fn names(s: Seq<String>) -> Seq<Seq<char>> {
    s.map_values(|x: String| x@)
}

/// The mathematical value of a `Report`.
pub ghost struct ReportView {
    /// Every finding, in the order of merging.
    pub insights: Seq<InsightView>,
    /// The packages whose metadata was had and evaluated.
    pub scanned: Set<Seq<char>>,
    /// The packages with at least one finding.
    pub issues: Set<Seq<char>>,
}

/// The report after merging a package that gave no finding.
pub open spec fn merge_clean(r: ReportView, package: Seq<char>) -> ReportView {
    ReportView { scanned: r.scanned.insert(package), ..r }
}

/// The report after merging the findings `fs`.
pub open spec fn merge_findings(r: ReportView, fs: Seq<InsightView>) -> ReportView {
    ReportView {
        insights: r.insights + fs,
        scanned: r.scanned + packages_of(fs),
        issues: r.issues + packages_of(fs),
    }
}

/// The report after merging the outcome of evaluating `package`: clean, or the findings `fs`.
pub open spec fn merge_outcome(r: ReportView, package: Seq<char>, fs: Seq<InsightView>) -> ReportView {
    if fs.len() == 0 {
        merge_clean(r, package)
    } else {
        merge_findings(r, fs)
    }
}

/// Whether a report holds a finding of severity `sev` or worse.
pub open spec fn reaches(r: ReportView, sev: Severity) -> bool {
    (count_of(r.insights, Severity::Critical) > 0)
        || (sev.rank() <= 1 && count_of(r.insights, Severity::Warning) > 0)
        || (sev.rank() == 0 && count_of(r.insights, Severity::Info) > 0)
}

/// Whether a report counts as failed under the threshold `level`.
pub open spec fn fails(r: ReportView, level: FailLevel) -> bool {
    match level {
        FailLevel::Never => false,
        FailLevel::Warn => reaches(r, Severity::Warning),
        FailLevel::Crit => reaches(r, Severity::Critical),
    }
}

/// The findings of a run with counts per severity and the sets of scanned packages
/// and of packages with issues.
pub struct Report {
    pub insights: Vec<Insight>,
    pub info_count: usize,
    pub warning_count: usize,
    pub critical_count: usize,
    pub packages_scanned: Vec<String>,
    pub packages_with_issues: Vec<String>,
}

impl View for Report {
    type V = ReportView;

    open spec fn view(&self) -> ReportView {
        ReportView {
            insights: views(self.insights@),
            scanned: names(self.packages_scanned@).to_set(),
            issues: names(self.packages_with_issues@).to_set(),
        }
    }
}

proof fn lemma_count_le_len(s: Seq<InsightView>, sev: Severity)
    ensures
        count_of(s, sev) <= s.len(),
    decreases s.len(),
{
    if s.len() > 0 {
        lemma_count_le_len(s.drop_last(), sev);
    }
}

proof fn lemma_count_push(s: Seq<InsightView>, x: InsightView, sev: Severity)
    ensures
        count_of(s.push(x), sev) == count_of(s, sev) + if x.severity == sev {
            1nat
        } else {
            0nat
        },
{
    assert(s.push(x).drop_last() =~= s);
}

/// A single finding counts once, under its own severity.
pub proof fn lemma_count_one(x: InsightView, sev: Severity)
    ensures
        count_of(seq![x], sev) == if x.severity == sev {
            1nat
        } else {
            0nat
        },
{
    assert(seq![x].drop_last() =~= Seq::<InsightView>::empty());
    assert(seq![x].last() == x);
    assert(count_of(Seq::<InsightView>::empty(), sev) == 0);
}

/// Counting distributes over concatenation.
pub proof fn lemma_count_add(a: Seq<InsightView>, b: Seq<InsightView>, sev: Severity)
    ensures
        count_of(a + b, sev) == count_of(a, sev) + count_of(b, sev),
    decreases b.len(),
{
    if b.len() == 0 {
        assert(a + b =~= a);
    } else {
        lemma_count_add(a, b.drop_last(), sev);
        assert((a + b).drop_last() =~= a + b.drop_last());
    }
}

proof fn lemma_packages_push(s: Seq<InsightView>, x: InsightView)
    ensures
        packages_of(s.push(x)) == packages_of(s).insert(x.package),
{
    let f = |i: InsightView| i.package;
    assert(s.push(x).map_values(f) =~= s.map_values(f).push(x.package));
    s.map_values(f).lemma_push_to_set_commute(x.package);
}

proof fn lemma_names_push(s: Seq<String>, x: String)
    ensures
        names(s.push(x)) == names(s).push(x@),
{
    assert(names(s.push(x)) =~= names(s).push(x@));
}

/// Two reports agree on everything but the order of their findings: the same counts
/// per severity and the same sets of scanned packages and of packages with issues.
pub open spec fn same_totals(a: ReportView, b: ReportView) -> bool {
    &&& a.scanned == b.scanned
    &&& a.issues == b.issues
    &&& forall|sev: Severity| count_of(a.insights, sev) == count_of(b.insights, sev)
}

/// The report after merging the outcomes `outs` in order, each a package and its findings.
pub open spec fn merge_all(r: ReportView, outs: Seq<(Seq<char>, Seq<InsightView>)>) -> ReportView
    decreases outs.len(),
{
    if outs.len() == 0 {
        r
    } else {
        merge_outcome(merge_all(r, outs.drop_last()), outs.last().0, outs.last().1)
    }
}

/// The report that a run starts from.
pub open spec fn empty_report() -> ReportView {
    ReportView {
        insights: Seq::empty(),
        scanned: Set::empty(),
        issues: Set::empty(),
    }
}

/// Merging never loses the inclusion of the packages with issues in the scanned ones,
/// and each severity's count grows by the number of merged findings of that severity.
pub proof fn merge_outcome_counts(r: ReportView, package: Seq<char>, fs: Seq<InsightView>)
    ensures
        r.issues.subset_of(r.scanned) ==> merge_outcome(r, package, fs).issues.subset_of(
            merge_outcome(r, package, fs).scanned,
        ),
        forall|sev: Severity|
            count_of(#[trigger] merge_outcome(r, package, fs).insights, sev) == count_of(r.insights, sev)
                + count_of(fs, sev),
{
    assert forall|sev: Severity|
        count_of(#[trigger] merge_outcome(r, package, fs).insights, sev) == count_of(r.insights, sev)
            + count_of(fs, sev) by {
        lemma_count_add(r.insights, fs, sev);
        if fs.len() == 0 {
            assert(r.insights + fs =~= r.insights);
        }
    }
}

/// Merging two package outcomes in either order gives the same counts and package sets.
pub proof fn merge_order_irrelevant(
    r: ReportView,
    p1: Seq<char>,
    f1: Seq<InsightView>,
    p2: Seq<char>,
    f2: Seq<InsightView>,
)
    ensures
        same_totals(
            merge_outcome(merge_outcome(r, p1, f1), p2, f2),
            merge_outcome(merge_outcome(r, p2, f2), p1, f1),
        ),
{
    let a = merge_outcome(merge_outcome(r, p1, f1), p2, f2);
    let b = merge_outcome(merge_outcome(r, p2, f2), p1, f1);
    merge_outcome_counts(r, p1, f1);
    merge_outcome_counts(r, p2, f2);
    merge_outcome_counts(merge_outcome(r, p1, f1), p2, f2);
    merge_outcome_counts(merge_outcome(r, p2, f2), p1, f1);
    assert(a.scanned =~= b.scanned);
    assert(a.issues =~= b.issues);
}

/// Merging the same outcome into reports with the same totals keeps their totals equal.
pub proof fn merge_keeps_same_totals(
    a: ReportView,
    b: ReportView,
    package: Seq<char>,
    fs: Seq<InsightView>,
)
    requires
        same_totals(a, b),
    ensures
        same_totals(merge_outcome(a, package, fs), merge_outcome(b, package, fs)),
{
    merge_outcome_counts(a, package, fs);
    merge_outcome_counts(b, package, fs);
}

/// Swapping two neighbouring outcomes anywhere in a run leaves its totals as they were;
/// so every order of the same outcomes gives the same counts and package sets.
pub proof fn merge_all_swap_irrelevant(
    r: ReportView,
    outs: Seq<(Seq<char>, Seq<InsightView>)>,
    i: int,
)
    requires
        0 <= i,
        i + 1 < outs.len(),
    ensures
        same_totals(
            merge_all(r, outs),
            merge_all(r, outs.update(i, outs[i + 1]).update(i + 1, outs[i])),
        ),
    decreases outs.len(),
{
    let swapped = outs.update(i, outs[i + 1]).update(i + 1, outs[i]);
    if i + 2 == outs.len() {
        let base = outs.drop_last().drop_last();
        assert(swapped.drop_last().drop_last() =~= base);
        assert(outs.drop_last().drop_last() =~= base);
        assert(outs.drop_last().last() == outs[i]);
        assert(swapped.drop_last().last() == outs[i + 1]);
        assert(swapped.last() == outs[i]);
        assert(outs.last() == outs[i + 1]);
        assert(merge_all(r, outs.drop_last()) == merge_outcome(merge_all(r, base), outs[i].0, outs[i].1));
        assert(merge_all(r, swapped.drop_last()) == merge_outcome(
            merge_all(r, base),
            outs[i + 1].0,
            outs[i + 1].1,
        ));
        merge_order_irrelevant(merge_all(r, base), outs[i].0, outs[i].1, outs[i + 1].0, outs[i + 1].1);
    } else {
        merge_all_swap_irrelevant(r, outs.drop_last(), i);
        assert(swapped.drop_last() =~= outs.drop_last().update(i, outs[i + 1]).update(i + 1, outs[i]));
        assert(swapped.last() == outs.last());
        merge_keeps_same_totals(
            merge_all(r, outs.drop_last()),
            merge_all(r, swapped.drop_last()),
            outs.last().0,
            outs.last().1,
        );
    }
}

/// The total number of findings of severity `sev` over the outcomes `outs`.
pub open spec fn outcome_count(outs: Seq<(Seq<char>, Seq<InsightView>)>, sev: Severity) -> nat
    decreases outs.len(),
{
    if outs.len() == 0 {
        0
    } else {
        outcome_count(outs.drop_last(), sev) + count_of(outs.last().1, sev)
    }
}

/// The packages of the outcomes `outs`.
pub open spec fn outcome_packages(outs: Seq<(Seq<char>, Seq<InsightView>)>) -> Set<Seq<char>> {
    outs.map_values(|o: (Seq<char>, Seq<InsightView>)| o.0).to_set()
}

/// A run from the empty report, where each outcome's findings are about its own package:
/// the scanned packages are exactly the outcomes' packages, those with issues are among
/// them, and each severity's count is the number of findings of that severity.
pub proof fn merge_all_totals(outs: Seq<(Seq<char>, Seq<InsightView>)>)
    requires
        forall|i: int, j: int|
            0 <= i < outs.len() && 0 <= j < outs[i].1.len() ==> (#[trigger] outs[i].1[j]).package
                == outs[i].0,
    ensures
        merge_all(empty_report(), outs).scanned == outcome_packages(outs),
        merge_all(empty_report(), outs).issues.subset_of(merge_all(empty_report(), outs).scanned),
        forall|sev: Severity|
            count_of(#[trigger] merge_all(empty_report(), outs).insights, sev) == outcome_count(outs, sev),
    decreases outs.len(),
{
    let f = |o: (Seq<char>, Seq<InsightView>)| o.0;
    if outs.len() == 0 {
        assert(outs.map_values(f) =~= Seq::<Seq<char>>::empty());
        assert(outcome_packages(outs) =~= Set::<Seq<char>>::empty());
        assert(empty_report().issues =~= Set::<Seq<char>>::empty());
        assert forall|sev: Severity|
            count_of(#[trigger] merge_all(empty_report(), outs).insights, sev) == outcome_count(outs, sev) by {}
    } else {
        let prev = outs.drop_last();
        let (p, fs) = outs.last();
        assert forall|i: int, j: int|
            0 <= i < prev.len() && 0 <= j < prev[i].1.len() implies (#[trigger] prev[i].1[j]).package
                == prev[i].0 by {
            assert(prev[i] == outs[i]);
        }
        merge_all_totals(prev);
        let r = merge_all(empty_report(), prev);
        merge_outcome_counts(r, p, fs);
        assert(outs.map_values(f) =~= prev.map_values(f).push(p));
        prev.map_values(f).lemma_push_to_set_commute(p);
        if fs.len() > 0 {
            let g = |i: InsightView| i.package;
            assert forall|q: Seq<char>| packages_of(fs).contains(q) implies q == p by {
                let k = choose|k: int| 0 <= k < fs.map_values(g).len() && fs.map_values(g)[k] == q;
                assert(outs[outs.len() - 1].1[k].package == p);
            }
            assert(fs.map_values(g)[0] == fs[0].package);
            assert(fs.map_values(g).contains(fs[0].package));
            assert(packages_of(fs) =~= set![p]);
        }
        assert(merge_all(empty_report(), outs).scanned =~= outcome_packages(outs));
        assert forall|sev: Severity|
            count_of(#[trigger] merge_all(empty_report(), outs).insights, sev) == outcome_count(outs, sev) by {
            assert(count_of(r.insights, sev) == outcome_count(prev, sev));
        }
    }
}

/// Appends `p` to `v` unless `v` already holds it.
fn insert_name(v: &mut Vec<String>, p: &String)
    requires
        names(old(v)@).no_duplicates(),
    ensures
        names(final(v)@).no_duplicates(),
        names(final(v)@).to_set() == names(old(v)@).to_set().insert(p@),
{
    let mut i: usize = 0;
    let mut found = false;
    while i < v.len() && !found
        invariant
            i <= v@.len(),
            v@ == old(v)@,
            found ==> 0 < i && v@[i - 1]@ == p@,
            !found ==> forall|j: int| 0 <= j < i ==> v@[j]@ != p@,
        decreases v@.len() - i,
    {
        if v[i] == *p {
            found = true;
        }
        i = i + 1;
    }
    if found {
        proof {
            assert(names(v@)[i - 1] == p@);
            assert(names(v@).to_set() =~= names(v@).to_set().insert(p@));
        }
    } else {
        let ghost before = v@;
        v.push(p.clone());
        proof {
            lemma_names_push(before, v@.last());
            names(before).lemma_push_to_set_commute(p@);
            assert(!names(before).contains(p@));
        }
    }
}

impl Report {
    /// The report's invariant: no name twice in either list, every package with issues
    /// scanned, the packages with issues exactly those of the findings, and the counts
    /// those of the findings.
    pub open spec fn wf(&self) -> bool {
        &&& names(self.packages_scanned@).no_duplicates()
        &&& names(self.packages_with_issues@).no_duplicates()
        &&& self@.issues.subset_of(self@.scanned)
        &&& self@.issues == packages_of(self@.insights)
        &&& self.info_count == count_of(self@.insights, Severity::Info)
        &&& self.warning_count == count_of(self@.insights, Severity::Warning)
        &&& self.critical_count == count_of(self@.insights, Severity::Critical)
    }

    /// An empty report.
    pub fn new() -> (r: Report)
        ensures
            r.wf(),
            r@.insights == Seq::<InsightView>::empty(),
            r@.scanned == Set::<Seq<char>>::empty(),
            r@.issues == Set::<Seq<char>>::empty(),
    {
        let r = Report {
            insights: Vec::new(),
            info_count: 0,
            warning_count: 0,
            critical_count: 0,
            packages_scanned: Vec::new(),
            packages_with_issues: Vec::new(),
        };
        assert(names(r.packages_scanned@) =~= Seq::<Seq<char>>::empty());
        assert(names(r.packages_with_issues@) =~= Seq::<Seq<char>>::empty());
        assert(views(r.insights@) =~= Seq::<InsightView>::empty());
        assert(r@.insights.map_values(|i: InsightView| i.package) =~= Seq::<Seq<char>>::empty());
        r
    }

    /// Merges a package that was evaluated and gave no finding.
    pub fn record_clean(&mut self, package: &String)
        requires
            old(self).wf(),
        ensures
            final(self).wf(),
            final(self)@ == merge_clean(old(self)@, package@),
    {
        insert_name(&mut self.packages_scanned, package);
        assert(self@ =~= merge_clean(old(self)@, package@));
    }

    /// Merges one finding: its package counts as scanned and as having issues.
    pub fn add(&mut self, insight: Insight)
        requires
            old(self).wf(),
            old(self).insights@.len() < usize::MAX,
        ensures
            final(self).wf(),
            final(self)@ == merge_findings(old(self)@, seq![insight@]),
    {
        let ghost old_view = self@;
        proof {
            lemma_count_le_len(old_view.insights, Severity::Info);
            lemma_count_le_len(old_view.insights, Severity::Warning);
            lemma_count_le_len(old_view.insights, Severity::Critical);
            lemma_count_push(old_view.insights, insight@, Severity::Info);
            lemma_count_push(old_view.insights, insight@, Severity::Warning);
            lemma_count_push(old_view.insights, insight@, Severity::Critical);
            lemma_packages_push(old_view.insights, insight@);
            assert(packages_of(seq![insight@]) =~= set![insight.package@]) by {
                assert(seq![insight@].map_values(|i: InsightView| i.package) =~= seq![insight.package@]);
            }
        }
        insert_name(&mut self.packages_with_issues, &insight.package);
        insert_name(&mut self.packages_scanned, &insight.package);
        match insight.severity {
            Severity::Info => self.info_count = self.info_count + 1,
            Severity::Warning => self.warning_count = self.warning_count + 1,
            Severity::Critical => self.critical_count = self.critical_count + 1,
        }
        self.insights.push(insight);
        assert(views(self.insights@) =~= old_view.insights.push(insight@));
        assert(old_view.insights.push(insight@) =~= old_view.insights + seq![insight@]);
        assert(self@.scanned =~= old_view.scanned + packages_of(seq![insight@]));
        assert(self@.issues =~= old_view.issues + packages_of(seq![insight@]));
    }

    /// Merges the findings of one package, in their order.
    pub fn record_findings(&mut self, findings: Vec<Insight>)
        requires
            old(self).wf(),
            old(self).insights@.len() + findings@.len() <= usize::MAX,
        ensures
            final(self).wf(),
            final(self)@ == merge_findings(old(self)@, views(findings@)),
    {
        let ghost all = findings@;
        let mut rest = findings;
        let ghost mut k: int = 0;
        proof {
            assert(all.subrange(0, 0) =~= Seq::<Insight>::empty());
            assert(views(all.subrange(0, 0)) =~= Seq::<InsightView>::empty());
            assert(packages_of(Seq::<InsightView>::empty()) =~= Set::<Seq<char>>::empty()) by {
                assert(Seq::<InsightView>::empty().map_values(|i: InsightView| i.package) =~= Seq::<Seq<char>>::empty());
            }
            let m = merge_findings(old(self)@, views(all.subrange(0, 0)));
            assert(m.insights =~= self@.insights);
            assert(m.scanned =~= self@.scanned);
            assert(m.issues =~= self@.issues);
        }
        while rest.len() > 0
            invariant
                self.wf(),
                0 <= k <= all.len(),
                rest@ == all.subrange(k, all.len() as int),
                self.insights@.len() == old(self).insights@.len() + k,
                old(self).insights@.len() + all.len() <= usize::MAX,
                self@ == merge_findings(old(self)@, views(all.subrange(0, k))),
            decreases rest@.len(),
        {
            let x = rest.remove(0);
            proof {
                assert(x == all[k]);
                let a = views(all.subrange(0, k));
                assert(views(all.subrange(0, k + 1)) =~= a.push(x@));
                lemma_packages_push(a, x@);
                assert(seq![x@].map_values(|i: InsightView| i.package) =~= seq![x.package@]);
                assert(packages_of(seq![x@]) =~= set![x.package@]);
                assert(old(self)@.insights + a + seq![x@] =~= old(self)@.insights + a.push(x@));
            }
            self.add(x);
            proof {
                let a = views(all.subrange(0, k));
                k = k + 1;
                let m = merge_findings(old(self)@, views(all.subrange(0, k)));
                assert(m.insights =~= self@.insights);
                assert(m.scanned =~= self@.scanned);
                assert(m.issues =~= self@.issues);
                assert(rest@ =~= all.subrange(k, all.len() as int));
            }
        }
        assert(all.subrange(0, k) =~= all);
    }

    /// Merges the outcome of evaluating `package`: clean where `findings` is empty.
    pub fn record_outcome(&mut self, package: &String, findings: Vec<Insight>)
        requires
            old(self).wf(),
            old(self).insights@.len() + findings@.len() <= usize::MAX,
        ensures
            final(self).wf(),
            final(self)@ == merge_outcome(old(self)@, package@, views(findings@)),
    {
        if findings.len() == 0 {
            self.record_clean(package);
        } else {
            self.record_findings(findings);
        }
    }

    /// The number of findings of severity `sev`.
    pub fn count(&self, sev: Severity) -> (r: usize)
        requires
            self.wf(),
        ensures
            r == count_of(self@.insights, sev),
    {
        match sev {
            Severity::Info => self.info_count,
            Severity::Warning => self.warning_count,
            Severity::Critical => self.critical_count,
        }
    }

    /// The number of scanned packages.
    pub fn total(&self) -> (r: usize)
        requires
            self.wf(),
        ensures
            r == self@.scanned.len(),
    {
        proof {
            names(self.packages_scanned@).unique_seq_to_set();
        }
        self.packages_scanned.len()
    }

    /// The number of scanned packages without any finding.
    pub fn clean_count(&self) -> (r: usize)
        requires
            self.wf(),
        ensures
            r == self@.scanned.difference(self@.issues).len(),
    {
        proof {
            names(self.packages_scanned@).unique_seq_to_set();
            names(self.packages_with_issues@).unique_seq_to_set();
            vstd::set_lib::lemma_set_difference_len(self@.scanned, self@.issues);
            assert(self@.scanned.intersect(self@.issues) =~= self@.issues);
        }
        self.packages_scanned.len() - self.packages_with_issues.len()
    }

    /// Whether the report holds a finding of severity `sev` or worse.
    pub fn has_at_least(&self, sev: Severity) -> (r: bool)
        requires
            self.wf(),
        ensures
            r == reaches(self@, sev),
    {
        match sev {
            Severity::Critical => self.critical_count > 0,
            Severity::Warning => self.critical_count > 0 || self.warning_count > 0,
            Severity::Info => self.critical_count > 0 || self.warning_count > 0 || self.info_count > 0,
        }
    }

    /// Whether the run counts as failed under the threshold `level`.
    pub fn is_failure(&self, level: &FailLevel) -> (r: bool)
        requires
            self.wf(),
        ensures
            r == fails(self@, *level),
    {
        match level {
            FailLevel::Never => false,
            FailLevel::Warn => self.has_at_least(Severity::Warning),
            FailLevel::Crit => self.has_at_least(Severity::Critical),
        }
    }
}

} // verus!
