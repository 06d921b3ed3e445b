use vstd::prelude::*;

use crate::counters::add_fits;
use crate::counters::cov_totals;
use crate::counters::spec_add;
use crate::counters::spec_zero;
use crate::counters::t6_add;
use crate::counters::AggregatedCoverage;
use crate::tested_root::RootView;
use crate::tested_root::TestedRoot;

verus! {

/// A container merging several independently rooted coverage trees; it has no
/// leaf records of its own and its total is the sum of its children's totals.
pub struct MultiReport {
    pub name: String,
    pub reports: Vec<TestedRoot>,
    pub aggregated: AggregatedCoverage,
}

/// The mathematical shape of a multi-report.
#[verifier::ext_equal]
pub struct MultiReportView {
    pub name: Seq<char>,
    pub reports: Seq<RootView>,
    pub aggregated: AggregatedCoverage,
}

/// The views of a sequence of roots.
pub open spec fn roots_view(s: Seq<TestedRoot>) -> Seq<RootView>
    decreases s,
{
    if s.len() == 0 {
        Seq::empty()
    } else {
        roots_view(s.drop_last()).push(s.last()@)
    }
}

pub proof fn lemma_roots_view(s: Seq<TestedRoot>)
    ensures
        roots_view(s).len() == s.len(),
        forall|i: int| 0 <= i < s.len() ==> roots_view(s)[i] == s[i]@,
    decreases s.len(),
{
    if s.len() > 0 {
        lemma_roots_view(s.drop_last());
        assert(forall|i: int| 0 <= i < s.len() - 1 ==> s.drop_last()[i] == s[i]);
    }
}

impl View for MultiReport {
    type V = MultiReportView;

    open spec fn view(&self) -> MultiReportView {
        MultiReportView {
            name: self.name@,
            reports: roots_view(self.reports@),
            aggregated: self.aggregated,
        }
    }
}

/// The summed totals of the children's stored aggregates.
pub open spec fn reports_totals(s: Seq<RootView>) -> (int, int, int, int, int, int)
    decreases s.len(),
{
    if s.len() == 0 {
        crate::counters::t6_zero()
    } else {
        t6_add(reports_totals(s.drop_last()), cov_totals(s.last().aggregated))
    }
}

/// Well-formedness of a multi-report: its total is the sum of its children's
/// totals.
pub open spec fn multi_report_wf(m: MultiReportView) -> bool {
    cov_totals(m.aggregated) == reports_totals(m.reports)
}

impl MultiReport {
    /// An empty multi-report with the given display name.
    pub fn new(name: &str) -> (r: Self)
        ensures
            r@.name == name@,
            r@.reports == Seq::<RootView>::empty(),
            r@.aggregated == spec_zero(),
            multi_report_wf(r@),
    {
        let r = MultiReport {
            name: String::from_str(name),
            reports: Vec::new(),
            aggregated: AggregatedCoverage::default(),
        };
        proof {
            assert(roots_view(r.reports@) =~= Seq::<RootView>::empty());
        }
        r
    }

    /// Appends one root tree; the total is updated on append.
    pub fn add_report(&mut self, report: TestedRoot)
        requires
            add_fits(old(self)@.aggregated, report@.aggregated),
        ensures
            final(self)@.name == old(self)@.name,
            final(self)@.reports == old(self)@.reports.push(report@),
            final(self)@.aggregated == spec_add(old(self)@.aggregated, report@.aggregated),
            multi_report_wf(old(self)@) ==> multi_report_wf(final(self)@),
    {
        let ghost old_reports = self.reports@;
        let report_agg = report.aggregated;
        self.aggregated.add(&report_agg);
        self.reports.push(report);
        proof {
            assert(self.reports@.drop_last() =~= old_reports);
            assert(roots_view(self.reports@) =~= roots_view(old_reports).push(
                self.reports@.last()@,
            ));
            let nv = roots_view(self.reports@);
            assert(nv.drop_last() =~= roots_view(old_reports));
            assert(reports_totals(nv) == t6_add(
                reports_totals(roots_view(old_reports)),
                cov_totals(nv.last().aggregated),
            ));
        }
    }

    pub fn get_multi_report_name(&self) -> (r: &String)
        ensures
            r@ == self@.name,
    {
        &self.name
    }

    pub fn get_aggregated_coverage(&self) -> (r: &AggregatedCoverage)
        ensures
            *r == self@.aggregated,
    {
        &self.aggregated
    }

    /// The display name used for the container itself.
    pub fn get_name(&self) -> (r: &'static str)
        ensures
            r@ == "MultiReport"@,
    {
        "MultiReport"
    }

    /// A multi-report sits at the output root.
    pub fn get_path_string(&self) -> (r: String)
        ensures
            r@ == Seq::<char>::empty(),
    {
        String::new()
    }

    /// A multi-report is directory-like.
    pub fn is_dir(&self) -> (r: bool)
        ensures
            r == true,
    {
        true
    }

    /// The node's position for link computation: the container sits at the
    /// output root.
    pub fn location(&self) -> (r: crate::links::NodeLocation)
        ensures
            r@.name == "MultiReport"@,
            r@.path == Seq::<char>::empty(),
            r@.is_dir == true,
    {
        let r = crate::links::NodeLocation::new("MultiReport", "", true);
        proof {
            reveal_strlit("");
            assert(r@.path =~= Seq::<char>::empty());
        }
        r
    }

    /// The child root at an index.
    pub fn get_report_at(&self, i: usize) -> (r: &TestedRoot)
        requires
            i < self@.reports.len(),
        ensures
            r@ == self@.reports[i as int],
    {
        proof {
            lemma_roots_view(self.reports@);
        }
        &self.reports[i]
    }
}

} // verus!
