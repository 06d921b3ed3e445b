use vstd::prelude::*;

use crate::colors::get_percentage_class;
use crate::colors::percentage_class;
use crate::colors::percentage_text;
use crate::colors::render_optional_percentage;
use crate::components::div_html;
use crate::components::Div;
use crate::components::ToHtml;
use crate::counters::spec_percentage_hundredths;
use crate::counters::AggregatedCoverage;
use crate::counters::AggregatedCoverageCounters;
use crate::text::dec_digit;
use crate::text::dec_str;
use crate::text::u64_to_dec_string;

verus! {

/// A dial showing one percentage, with a caption that may link to a section
/// of the page.
pub struct Gauge {
    pub percentage: Option<u64>,
    pub title: String,
    pub link: Option<String>,
}

/// The dial's rotation: half of the covered share, as turns with two
/// decimals.
pub open spec fn rotate_text(p: Option<u64>) -> Seq<char> {
    let h = (match p {
        Option::Some(bp) => (bp as int + 100) / 200,
        Option::None => 0int,
    });
    dec_str((h / 100) as nat) + seq!['.', dec_digit(((h % 100) / 10) as nat), dec_digit(
        (h % 10) as nat,
    )]
}

/// The whole dial fragment.
pub open spec fn gauge_html(p: Option<u64>, title: Seq<char>, link: Option<Seq<char>>) -> Seq<
    char,
> {
    "<div class=\"gauge\"><div class=\"container\"><div class=\"gauge-a\"></div><div class=\"gauge-b\"></div><div class=\"gauge-c "@
        + percentage_class("bg"@, p) + "\" style=\"transform: rotate("@ + rotate_text(p)
        + "turn)\"></div><div class=\"gauge-data\"><span class=\"percent\">"@ + percentage_text(p)
        + "</span></div></div><div>"@ + (match link {
        Option::Some(l) => "<a href=\""@ + l + "\">"@ + title + "</a>"@,
        Option::None => title,
    }) + "</div></div>"@
}

impl Gauge {
    pub fn new(percentage: Option<u64>, title: &str, link: Option<&str>) -> (r: Self)
        ensures
            r.percentage == percentage,
            r.title@ == title@,
            link matches Some(l) ==> (r.link matches Some(rl) && rl@ == l@),
            link is None ==> r.link is None,
    {
        Gauge {
            percentage,
            title: String::from_str(title),
            link: match link {
                Some(l) => Some(String::from_str(l)),
                None => None,
            },
        }
    }
}

/// Renders the dial's rotation.
fn render_rotate(p: &Option<u64>) -> (r: String)
    ensures
        r@ == rotate_text(*p),
{
    let h: u64 = match p {
        Some(bp) => *bp / 200 + if *bp % 200 >= 100 {
            1
        } else {
            0
        },
        None => 0,
    };
    proof {
        match p {
            Some(bp) => {
                assert(h == (*bp as int + 100) / 200);
            },
            None => {},
        }
    }
    let mut r = u64_to_dec_string(h / 100);
    r.append(".");
    r.append(crate::text::digit_to_str((h % 100) / 10));
    r.append(crate::text::digit_to_str(h % 10));
    proof {
        reveal_strlit(".");
        assert(r@ =~= rotate_text(*p));
    }
    r
}

impl ToHtml for Gauge {
    open spec fn html(&self) -> Seq<char> {
        gauge_html(
            self.percentage,
            self.title@,
            match self.link {
                Option::Some(l) => Option::Some(l@),
                Option::None => Option::None,
            },
        )
    }

    fn to_html(&self) -> (r: String)
        ensures
            r@ == self.html(),
    {
        let mut r = String::from_str(
            "<div class=\"gauge\"><div class=\"container\"><div class=\"gauge-a\"></div><div class=\"gauge-b\"></div><div class=\"gauge-c ",
        );
        r.append(get_percentage_class("bg", &self.percentage).as_str());
        r.append("\" style=\"transform: rotate(");
        r.append(render_rotate(&self.percentage).as_str());
        r.append("turn)\"></div><div class=\"gauge-data\"><span class=\"percent\">");
        r.append(render_optional_percentage(self.percentage).as_str());
        r.append("</span></div></div><div>");
        match &self.link {
            Some(l) => {
                r.append("<a href=\"");
                r.append(l.as_str());
                r.append("\">");
                r.append(self.title.as_str());
                r.append("</a>");
            },
            None => {
                r.append(self.title.as_str());
            },
        }
        r.append("</div></div>");
        proof {
            reveal_strlit(
                "<div class=\"gauge\"><div class=\"container\"><div class=\"gauge-a\"></div><div class=\"gauge-b\"></div><div class=\"gauge-c ",
            );
            reveal_strlit("\" style=\"transform: rotate(");
            reveal_strlit("turn)\"></div><div class=\"gauge-data\"><span class=\"percent\">");
            reveal_strlit("</span></div></div><div>");
            reveal_strlit("<a href=\"");
            reveal_strlit("\">");
            reveal_strlit("</a>");
            reveal_strlit("</div></div>");
            assert(r@ =~= self.html());
        }
        r
    }
}

/// The three dials for an aggregate, the first two linking to their page
/// sections when asked to.
pub struct CoverageGauges {
    pub coverage: AggregatedCoverage,
    pub with_link: bool,
}

/// The caption of one dial: the metric name, covered count, a slash, the
/// counted total.
pub open spec fn gauge_title(name: Seq<char>, c: AggregatedCoverageCounters) -> Seq<char> {
    name + seq![' '] + dec_str(c.covered_count as nat) + seq!['/'] + dec_str(c.count as nat)
}

/// The fragment of the three dials: lines and functions link to their page
/// sections when links are on; branches never link.
pub open spec fn gauges_html(coverage: AggregatedCoverage, with_link: bool) -> Seq<char> {
    let lines_pct = spec_percentage_hundredths(
        coverage.lines.covered_count as nat,
        coverage.lines.count as nat,
    );
    let functions_pct = spec_percentage_hundredths(
        coverage.functions.covered_count as nat,
        coverage.functions.count as nat,
    );
    let branches_pct = spec_percentage_hundredths(
        coverage.branches.covered_count as nat,
        coverage.branches.count as nat,
    );
    div_html(
        seq!["gauges"@],
        gauge_html(
            lines_pct,
            gauge_title("Lines"@, coverage.lines),
            if with_link {
                Option::Some("#lines"@)
            } else {
                Option::None
            },
        ) + gauge_html(
            functions_pct,
            gauge_title("Functions"@, coverage.functions),
            if with_link {
                Option::Some("#functions"@)
            } else {
                Option::None
            },
        ) + gauge_html(branches_pct, gauge_title("Branches"@, coverage.branches), Option::None),
    )
}

impl CoverageGauges {
    pub fn new(coverage: &AggregatedCoverage, with_link: bool) -> (r: Self)
        ensures
            r.coverage == *coverage,
            r.with_link == with_link,
    {
        CoverageGauges { coverage: *coverage, with_link }
    }

    /// One dial for one metric.
    fn render_gauge(counter: &AggregatedCoverageCounters, name: &str, link: Option<&str>) -> (r:
        Gauge)
        ensures
            r.percentage == spec_percentage_hundredths(
                counter.covered_count as nat,
                counter.count as nat,
            ),
            r.title@ == gauge_title(name@, *counter),
            link matches Some(l) ==> (r.link matches Some(rl) && rl@ == l@),
            link is None ==> r.link is None,
    {
        let mut title = String::from_str(name);
        title.append(" ");
        title.append(u64_to_dec_string(counter.covered_count as u64).as_str());
        title.append("/");
        title.append(u64_to_dec_string(counter.count as u64).as_str());
        proof {
            reveal_strlit(" ");
            reveal_strlit("/");
            assert(title@ =~= gauge_title(name@, *counter));
        }
        Gauge::new(counter.percentage_hundredths(), title.as_str(), link)
    }

    /// The three dials, assembled.
    pub fn render_gauges(&self) -> (r: Div)
        ensures
            r.html() == gauges_html(self.coverage, self.with_link),
    {
        let lines_link = if self.with_link {
            Some("#lines")
        } else {
            None
        };
        let functions_link = if self.with_link {
            Some("#functions")
        } else {
            None
        };
        let r = Div::new().with_class("gauges").with_child(
            Self::render_gauge(&self.coverage.lines, "Lines", lines_link),
        ).with_child(Self::render_gauge(&self.coverage.functions, "Functions", functions_link))
            .with_child(Self::render_gauge(&self.coverage.branches, "Branches", None));
        proof {
            reveal_strlit("gauges");
            assert(Seq::<Seq<char>>::empty().push("gauges"@) =~= seq!["gauges"@]);
            assert(r.html() =~= gauges_html(self.coverage, self.with_link));
        }
        r
    }
}

impl ToHtml for CoverageGauges {
    open spec fn html(&self) -> Seq<char> {
        gauges_html(self.coverage, self.with_link)
    }

    fn to_html(&self) -> (r: String)
        ensures
            r@ == self.html(),
    {
        self.render_gauges().to_html()
    }
}

} // verus!
