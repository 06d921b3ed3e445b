use vstd::prelude::*;

use crate::colors::percentage_text;
use crate::colors::render_optional_percentage;
use crate::counters::spec_percentage_hundredths;
use crate::counters::AggregatedCoverage;
use crate::counters::AggregatedCoverageCounters;
use crate::multi_report::MultiReport;
use crate::multi_report::MultiReportView;
use crate::tested_file::FileView;
use crate::tested_module::ModuleView;
use crate::tested_module::TestedModule;
use crate::tested_root::RootView;
use crate::tested_root::TestedRoot;
use crate::text::dec_str;
use crate::text::left_padded;
use crate::text::pad_left;
use crate::text::pad_right;
use crate::text::repeat_str;
use crate::text::repeated;
use crate::text::right_padded;
use crate::text::u64_to_dec_string;

verus! {

/// Renders the whole report as one plain-text summary page.
pub struct TextSinglePageRenderer;

/// One counters cell: covered over counted, right-aligned, then the
/// percentage, right-aligned.
pub open spec fn counters_cell(c: AggregatedCoverageCounters) -> Seq<char> {
    left_padded(dec_str(c.covered_count as nat) + seq!['/'] + dec_str(c.count as nat), 10) + seq![
        ' ',
    ] + left_padded(
        percentage_text(spec_percentage_hundredths(c.covered_count as nat, c.count as nat)),
        8,
    )
}

/// The three counters cells of one aggregate on one line.
pub open spec fn coverage_cells(a: AggregatedCoverage) -> Seq<char> {
    "Lines "@ + counters_cell(a.lines) + "    Functions "@ + counters_cell(a.functions)
        + "    Branches "@ + counters_cell(a.branches)
}

/// One detail line: the name indented by its depth and padded, then the
/// aggregate's cells.
pub open spec fn detail_line(level: nat, name: Seq<char>, a: AggregatedCoverage) -> Seq<char> {
    right_padded(repeated("  "@, level) + name, 50) + seq![' '] + coverage_cells(a) + seq!['\n']
}

/// The detail lines of a module's children: its files first, then each child
/// module's own line followed by that child's subtree.
pub open spec fn module_details(m: ModuleView, level: nat) -> Seq<char>
    decreases m, 1int,
{
    files_details(m.source_files, level) + modules_details(m.modules, level)
}

pub open spec fn files_details(files: Seq<FileView>, level: nat) -> Seq<char>
    decreases files.len(),
{
    if files.len() == 0 {
        Seq::empty()
    } else {
        files_details(files.drop_last(), level) + detail_line(
            level,
            files.last().file_name,
            files.last().aggregated,
        )
    }
}

pub open spec fn modules_details(ms: Seq<ModuleView>, level: nat) -> Seq<char>
    decreases ms, 0int,
{
    if ms.len() == 0 {
        Seq::empty()
    } else {
        modules_details(ms.drop_last(), level) + detail_line(
            level,
            ms.last().name,
            ms.last().aggregated,
        ) + module_details(ms.last(), level + 1)
    }
}

/// The summary header: the name, one line per metric, then the details
/// heading.
pub open spec fn summary_header(name: Seq<char>, a: AggregatedCoverage) -> Seq<char> {
    name + ":\n  - Lines     "@ + counters_cell(a.lines) + "\n  - Functions "@ + counters_cell(
        a.functions,
    ) + "\n  - Branches  "@ + counters_cell(a.branches) + "\n\nDetails:\n"@
}

/// The whole page for a root: its header, a blank line, then every node.
pub open spec fn root_page(r: RootView) -> Seq<char> {
    summary_header(r.name, r.aggregated) + seq!['\n'] + files_details(r.source_files, 1)
        + modules_details(r.modules, 1)
}

/// The whole page for a merged report: its header, a blank line, then each
/// child root as a block.
pub open spec fn multi_page(m: MultiReportView) -> Seq<char> {
    summary_header("MultiReport"@, m.aggregated) + seq!['\n'] + roots_details(m.reports, 1)
}

pub open spec fn roots_details(rs: Seq<RootView>, level: nat) -> Seq<char>
    decreases rs.len(),
{
    if rs.len() == 0 {
        Seq::empty()
    } else {
        roots_details(rs.drop_last(), level) + detail_line(
            level,
            rs.last().name,
            rs.last().aggregated,
        ) + files_details(rs.last().source_files, level + 1) + modules_details(
            rs.last().modules,
            level + 1,
        )
    }
}

/// Renders one counters cell.
fn render_counters_cell(c: &AggregatedCoverageCounters) -> (r: String)
    ensures
        r@ == counters_cell(*c),
{
    let mut counters = u64_to_dec_string(c.covered_count as u64);
    counters.append("/");
    counters.append(u64_to_dec_string(c.count as u64).as_str());
    proof {
        reveal_strlit("/");
        assert(counters@ =~= dec_str(c.covered_count as nat) + seq!['/'] + dec_str(
            c.count as nat,
        ));
    }
    let mut r = pad_left(counters.as_str(), 10);
    r.append(" ");
    r.append(pad_left(render_optional_percentage(c.percentage_hundredths()).as_str(), 8).as_str());
    proof {
        reveal_strlit(" ");
        assert(r@ =~= counters_cell(*c));
    }
    r
}

/// Renders the three cells of one aggregate.
fn render_coverage_cells(a: &AggregatedCoverage) -> (r: String)
    ensures
        r@ == coverage_cells(*a),
{
    let mut r = String::from_str("Lines ");
    r.append(render_counters_cell(&a.lines).as_str());
    r.append("    Functions ");
    r.append(render_counters_cell(&a.functions).as_str());
    r.append("    Branches ");
    r.append(render_counters_cell(&a.branches).as_str());
    proof {
        reveal_strlit("Lines ");
        reveal_strlit("    Functions ");
        reveal_strlit("    Branches ");
        assert(r@ =~= coverage_cells(*a));
    }
    r
}

/// Renders one detail line.
fn render_detail_line(level: usize, name: &str, a: &AggregatedCoverage) -> (r: String)
    ensures
        r@ == detail_line(level as nat, name@, *a),
{
    let mut padded = repeat_str("  ", level);
    padded.append(name);
    let mut r = pad_right(padded.as_str(), 50);
    r.append(" ");
    r.append(render_coverage_cells(a).as_str());
    r.append("\n");
    proof {
        reveal_strlit("  ");
        reveal_strlit(" ");
        reveal_strlit("\n");
        assert(r@ =~= detail_line(level as nat, name@, *a));
    }
    r
}

/// Renders the header block above the details.
fn render_summary_header(name: &str, a: &AggregatedCoverage) -> (r: String)
    ensures
        r@ == summary_header(name@, *a),
{
    let mut r = String::from_str(name);
    r.append(":\n  - Lines     ");
    r.append(render_counters_cell(&a.lines).as_str());
    r.append("\n  - Functions ");
    r.append(render_counters_cell(&a.functions).as_str());
    r.append("\n  - Branches  ");
    r.append(render_counters_cell(&a.branches).as_str());
    r.append("\n\nDetails:\n");
    proof {
        reveal_strlit(":\n  - Lines     ");
        reveal_strlit("\n  - Functions ");
        reveal_strlit("\n  - Branches  ");
        reveal_strlit("\n\nDetails:\n");
        assert(r@ =~= summary_header(name@, *a));
    }
    r
}

/// Renders one module's subtree of detail lines; the indentation string
/// carries the depth, so the recursion needs no counter arithmetic.
#[verifier::rlimit(80)]
fn render_module_details(m: &TestedModule, indent: &str, Ghost(level): Ghost<nat>) -> (r: String)
    requires
        indent@ == repeated("  "@, level),
    ensures
        r@ == module_details(m@, level),
    decreases *m,
{
    let mut r = String::new();
    let ghost files = m@.source_files;
    let mut i: usize = 0;
    proof {
        assert(r@ =~= files_details(files.take(0), level as nat));
    }
    while i < m.source_files.len()
        invariant
            i <= m.source_files@.len(),
            files == m@.source_files,
            files.len() == m.source_files@.len(),
            indent@ == repeated("  "@, level),
            r@ == files_details(files.take(i as int), level),
        decreases m.source_files@.len() - i,
    {
        let f = &m.source_files[i];
        r.append(render_indented_line(indent, Ghost(level), f.file_name.as_str(), &f.aggregated).as_str());
        i = i + 1;
        proof {
            assert(files.take(i as int).drop_last() =~= files.take(i - 1));
            assert(files.take(i as int).last() == files[i - 1]);
            assert(r@ =~= files_details(files.take(i as int), level));
        }
    }
    proof {
        assert(files.take(files.len() as int) =~= files);
    }
    let ghost mods = m@.modules;
    let mut j: usize = 0;
    let mut child_indent = String::from_str(indent);
    child_indent.append("  ");
    proof {
        reveal_strlit("  ");
        crate::tested_module::lemma_modules_view(m.modules@);
        assert(modules_details(mods.take(0), level) =~= Seq::<char>::empty());
        assert(child_indent@ =~= repeated("  "@, level + 1));
    }
    while j < m.modules.len()
        invariant
            j <= m.modules@.len(),
            files == m@.source_files,
            mods == m@.modules,
            mods.len() == m.modules@.len(),
            indent@ == repeated("  "@, level),
            child_indent@ == repeated("  "@, level + 1),
            r@ == files_details(files, level) + modules_details(
                mods.take(j as int),
                level,
            ),
        decreases m.modules@.len() - j,
    {
        let child = &m.modules[j];
        proof {
            crate::tested_module::lemma_modules_view(m.modules@);
            assert(child@ == mods[j as int]);
            assert(decreases_to!(*m => *child));
        }
        r.append(render_indented_line(indent, Ghost(level), child.name.as_str(), &child.aggregated).as_str());
        let sub = render_module_details(child, child_indent.as_str(), Ghost(level + 1));
        r.append(sub.as_str());
        j = j + 1;
        proof {
            assert(mods.take(j as int).drop_last() =~= mods.take(j - 1));
            assert(mods.take(j as int).last() == mods[j - 1]);
            assert(r@ =~= files_details(files, level) + modules_details(
                mods.take(j as int),
                level,
            ));
        }
    }
    proof {
        assert(mods.take(mods.len() as int) =~= mods);
    }
    r
}

/// Renders one detail line with a ready-made indentation string.
fn render_indented_line(indent: &str, Ghost(level): Ghost<nat>, name: &str, a: &AggregatedCoverage) -> (r: String)
    requires
        indent@ == repeated("  "@, level),
    ensures
        r@ == detail_line(level, name@, *a),
{
    let mut padded = String::from_str(indent);
    padded.append(name);
    let mut r = pad_right(padded.as_str(), 50);
    r.append(" ");
    r.append(render_coverage_cells(a).as_str());
    r.append("\n");
    proof {
        reveal_strlit(" ");
        reveal_strlit("\n");
        assert(r@ =~= detail_line(level, name@, *a));
    }
    r
}

impl TextSinglePageRenderer {
    /// Renders the whole page for one root.
    #[verifier::rlimit(100)]
    pub fn render_root_coverage_details(&self, root: &TestedRoot) -> (r: String)
        ensures
            r@ == root_page(root@),
    {
        let mut r = render_summary_header(root.name.as_str(), &root.aggregated);
        r.append("\n");
        let ghost files = root@.source_files;
        let mut i: usize = 0;
        proof {
            reveal_strlit("\n");
            assert(r@ =~= summary_header(root@.name, root@.aggregated) + seq!['\n']
                + files_details(files.take(0), 1));
        }
        while i < root.source_files.len()
            invariant
                i <= root.source_files@.len(),
                files == root@.source_files,
                files.len() == root.source_files@.len(),
                r@ == summary_header(root@.name, root@.aggregated) + seq!['\n'] + files_details(
                    files.take(i as int),
                    1,
                ),
            decreases root.source_files@.len() - i,
        {
            let f = &root.source_files[i];
            r.append(render_detail_line(1, f.file_name.as_str(), &f.aggregated).as_str());
            i = i + 1;
            proof {
                assert(files.take(i as int).drop_last() =~= files.take(i - 1));
                assert(files.take(i as int).last() == files[i - 1]);
                assert(r@ =~= summary_header(root@.name, root@.aggregated) + seq!['\n']
                    + files_details(files.take(i as int), 1));
            }
        }
        proof {
            assert(files.take(files.len() as int) =~= files);
        }
        let ghost mods = root@.modules;
        let mut j: usize = 0;
        proof {
            crate::tested_module::lemma_modules_view(root.modules@);
            assert(modules_details(mods.take(0), 1) =~= Seq::<char>::empty());
        }
        while j < root.modules.len()
            invariant
                j <= root.modules@.len(),
                mods == root@.modules,
                mods.len() == root.modules@.len(),
                files == root@.source_files,
                r@ == summary_header(root@.name, root@.aggregated) + seq!['\n'] + files_details(
                    files,
                    1,
                ) + modules_details(mods.take(j as int), 1),
            decreases root.modules@.len() - j,
        {
            let child = &root.modules[j];
            proof {
                crate::tested_module::lemma_modules_view(root.modules@);
                assert(child@ == mods[j as int]);
            }
            r.append(render_detail_line(1, child.name.as_str(), &child.aggregated).as_str());
            let ghost two: nat = 2;
            proof {
                reveal_strlit("    ");
                reveal_strlit("  ");
                assert(repeated("  "@, 0) =~= Seq::<char>::empty());
                assert("    "@ =~= repeated("  "@, two));
            }
            let sub = render_module_details(child, "    ", Ghost(two));
            r.append(sub.as_str());
            j = j + 1;
            proof {
                assert(mods.take(j as int).drop_last() =~= mods.take(j - 1));
                assert(mods.take(j as int).last() == mods[j - 1]);
                assert(r@ =~= summary_header(root@.name, root@.aggregated) + seq!['\n']
                    + files_details(files, 1) + modules_details(mods.take(j as int), 1));
            }
        }
        proof {
            assert(mods.take(mods.len() as int) =~= mods);
            assert(r@ =~= root_page(root@));
        }
        r
    }

    /// Renders the whole page for a merged report.
    #[verifier::rlimit(100)]
    pub fn render_multi_report_details(&self, multi: &MultiReport) -> (r: String)
        ensures
            r@ == multi_page(multi@),
    {
        let mut r = render_summary_header(multi.get_name(), &multi.aggregated);
        r.append("\n");
        let ghost roots = multi@.reports;
        let mut j: usize = 0;
        proof {
            reveal_strlit("\n");
            crate::multi_report::lemma_roots_view(multi.reports@);
            assert(roots_details(roots.take(0), 1) =~= Seq::<char>::empty());
            assert(r@ =~= summary_header("MultiReport"@, multi@.aggregated) + seq!['\n']
                + roots_details(roots.take(0), 1));
        }
        while j < multi.reports.len()
            invariant
                j <= multi.reports@.len(),
                roots == multi@.reports,
                roots.len() == multi.reports@.len(),
                r@ == summary_header("MultiReport"@, multi@.aggregated) + seq!['\n']
                    + roots_details(roots.take(j as int), 1),
            decreases multi.reports@.len() - j,
        {
            let child = &multi.reports[j];
            proof {
                crate::multi_report::lemma_roots_view(multi.reports@);
                assert(child@ == roots[j as int]);
            }
            r.append(render_detail_line(1, child.name.as_str(), &child.aggregated).as_str());
            let ghost files = child@.source_files;
            let mut i: usize = 0;
            proof {
                assert(files_details(files.take(0), 2) =~= Seq::<char>::empty());
            }
            while i < child.source_files.len()
                invariant
                    i <= child.source_files@.len(),
                    files == child@.source_files,
                    files.len() == child.source_files@.len(),
                    r@ == summary_header("MultiReport"@, multi@.aggregated) + seq!['\n']
                        + roots_details(roots.take(j as int), 1) + detail_line(
                        1,
                        child@.name,
                        child@.aggregated,
                    ) + files_details(files.take(i as int), 2),
                decreases child.source_files@.len() - i,
            {
                let f = &child.source_files[i];
                r.append(render_detail_line(2, f.file_name.as_str(), &f.aggregated).as_str());
                i = i + 1;
                proof {
                    assert(files.take(i as int).drop_last() =~= files.take(i - 1));
                    assert(files.take(i as int).last() == files[i - 1]);
                    assert(r@ =~= summary_header("MultiReport"@, multi@.aggregated) + seq!['\n']
                        + roots_details(roots.take(j as int), 1) + detail_line(
                        1,
                        child@.name,
                        child@.aggregated,
                    ) + files_details(files.take(i as int), 2));
                }
            }
            proof {
                assert(files.take(files.len() as int) =~= files);
            }
            let ghost mods = child@.modules;
            let mut k: usize = 0;
            proof {
                crate::tested_module::lemma_modules_view(child.modules@);
                assert(modules_details(mods.take(0), 2) =~= Seq::<char>::empty());
            }
            while k < child.modules.len()
                invariant
                    k <= child.modules@.len(),
                    mods == child@.modules,
                    mods.len() == child.modules@.len(),
                    files == child@.source_files,
                    r@ == summary_header("MultiReport"@, multi@.aggregated) + seq!['\n']
                        + roots_details(roots.take(j as int), 1) + detail_line(
                        1,
                        child@.name,
                        child@.aggregated,
                    ) + files_details(files, 2) + modules_details(mods.take(k as int), 2),
                decreases child.modules@.len() - k,
            {
                let m = &child.modules[k];
                proof {
                    crate::tested_module::lemma_modules_view(child.modules@);
                    assert(m@ == mods[k as int]);
                }
                r.append(render_detail_line(2, m.name.as_str(), &m.aggregated).as_str());
                let ghost three: nat = 3;
                proof {
                    reveal_strlit("      ");
                    reveal_strlit("  ");
                    assert(repeated("  "@, 0) =~= Seq::<char>::empty());
                    assert("      "@ =~= repeated("  "@, three));
                }
                let sub = render_module_details(m, "      ", Ghost(three));
                r.append(sub.as_str());
                k = k + 1;
                proof {
                    assert(mods.take(k as int).drop_last() =~= mods.take(k - 1));
                    assert(mods.take(k as int).last() == mods[k - 1]);
                    assert(r@ =~= summary_header("MultiReport"@, multi@.aggregated) + seq!['\n']
                        + roots_details(roots.take(j as int), 1) + detail_line(
                        1,
                        child@.name,
                        child@.aggregated,
                    ) + files_details(files, 2) + modules_details(mods.take(k as int), 2));
                }
            }
            j = j + 1;
            proof {
                assert(mods.take(mods.len() as int) =~= mods);
                assert(roots.take(j as int).drop_last() =~= roots.take(j - 1));
                assert(roots.take(j as int).last() == roots[j - 1]);
                assert(r@ =~= summary_header("MultiReport"@, multi@.aggregated) + seq!['\n']
                    + roots_details(roots.take(j as int), 1));
            }
        }
        proof {
            assert(roots.take(roots.len() as int) =~= roots);
            assert(r@ =~= multi_page(multi@));
        }
        r
    }
}

} // verus!
