use vstd::prelude::*;

use crate::colors::get_percentage_class;
use crate::colors::percentage_class;
use crate::colors::percentage_text;
use crate::colors::render_optional_percentage;
use crate::components::div_html;
use crate::components::Div;
use crate::components::ToHtml;
use crate::counters::spec_percentage_hundredths;
use crate::counters::AggregatedCoverage;
use crate::counters::AggregatedCoverageCounters;
use crate::escape::encoded_text;
use crate::text::dec_str;
use crate::text::u64_to_dec_string;

verus! {

/// A compact chip showing one metric: its name with covered over counted on
/// the left, the percentage on the right, both tinted by the percentage.
pub struct CoverageChip {
    pub name: String,
    pub counter: AggregatedCoverageCounters,
}

/// The chip's left label: the metric name, covered count, a slash, the
/// counted total.
pub open spec fn chip_label(name: Seq<char>, c: AggregatedCoverageCounters) -> Seq<char> {
    name + seq![' '] + dec_str(c.covered_count as nat) + seq!['/'] + dec_str(c.count as nat)
}

/// The chip's whole fragment.
pub open spec fn chip_html(name: Seq<char>, c: AggregatedCoverageCounters) -> Seq<char> {
    let pct = spec_percentage_hundredths(c.covered_count as nat, c.count as nat);
    div_html(
        seq!["coverage-stats-chip"@, percentage_class("border"@, pct)],
        div_html(seq!["coverage-stats-chip-left"@], encoded_text(chip_label(name, c))) + div_html(
            seq!["coverage-stats-chip-right"@, percentage_class("bg"@, pct)],
            encoded_text(percentage_text(pct)),
        ),
    )
}

impl CoverageChip {
    pub fn new(name: &str, counter: &AggregatedCoverageCounters) -> (r: Self)
        ensures
            r.name@ == name@,
            r.counter == *counter,
    {
        CoverageChip { name: String::from_str(name), counter: *counter }
    }
}

impl ToHtml for CoverageChip {
    open spec fn html(&self) -> Seq<char> {
        chip_html(self.name@, self.counter)
    }

    fn to_html(&self) -> (r: String)
        ensures
            r@ == self.html(),
    {
        let percentage = self.counter.percentage_hundredths();
        let percentage_class_name = get_percentage_class("bg", &percentage);
        let percentage_chip_class = get_percentage_class("border", &percentage);

        let mut label = self.name.clone();
        label.append(" ");
        label.append(u64_to_dec_string(self.counter.covered_count as u64).as_str());
        label.append("/");
        label.append(u64_to_dec_string(self.counter.count as u64).as_str());
        proof {
            reveal_strlit(" ");
            reveal_strlit("/");
            assert(label@ =~= chip_label(self.name@, self.counter));
        }

        let left = Div::new().with_class("coverage-stats-chip-left").with_text(label.as_str());
        let right = Div::new().with_class("coverage-stats-chip-right").with_class(
            percentage_class_name.as_str(),
        ).with_text(render_optional_percentage(percentage).as_str());
        let outer = Div::new().with_class("coverage-stats-chip").with_class(
            percentage_chip_class.as_str(),
        ).with_child(left).with_child(right);
        let r = outer.to_html();
        proof {
            reveal_strlit("coverage-stats-chip");
            reveal_strlit("coverage-stats-chip-left");
            reveal_strlit("coverage-stats-chip-right");
            let pct = spec_percentage_hundredths(
                self.counter.covered_count as nat,
                self.counter.count as nat,
            );
            assert(Seq::<Seq<char>>::empty().push("coverage-stats-chip-left"@)
                =~= seq!["coverage-stats-chip-left"@]);
            assert(Seq::<Seq<char>>::empty().push("coverage-stats-chip-right"@).push(
                percentage_class("bg"@, pct),
            ) =~= seq!["coverage-stats-chip-right"@, percentage_class("bg"@, pct)]);
            assert(Seq::<Seq<char>>::empty().push("coverage-stats-chip"@).push(
                percentage_class("border"@, pct),
            ) =~= seq!["coverage-stats-chip"@, percentage_class("border"@, pct)]);
            assert(r@ =~= self.html());
        }
        r
    }
}

/// One chip per metric: lines, functions and branches, in that order.
pub fn render_aggregated_coverage_chips(coverage: &AggregatedCoverage) -> (r: Vec<CoverageChip>)
    ensures
        r@.len() == 3,
        r@[0].name@ == "Lines"@ && r@[0].counter == coverage.lines,
        r@[1].name@ == "Functions"@ && r@[1].counter == coverage.functions,
        r@[2].name@ == "Branches"@ && r@[2].counter == coverage.branches,
{
    let mut r: Vec<CoverageChip> = Vec::new();
    r.push(CoverageChip::new("Lines", &coverage.lines));
    r.push(CoverageChip::new("Functions", &coverage.functions));
    r.push(CoverageChip::new("Branches", &coverage.branches));
    r
}

} // verus!
