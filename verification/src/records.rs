use vstd::prelude::*;

use crate::counters::AggregatedCoverage;
use crate::counters::AggregatedCoverageCounters;

verus! {

/// One source file's raw coverage data, as plain values: per-line hit counts,
/// per-function hit counts, and per-branch taken counts (absent when the
/// branch was never evaluated).
#[derive(Debug, Clone, PartialEq)]
pub struct FileRecord {
    pub path: String,
    pub lines: Vec<(u32, u64)>,
    pub functions: Vec<(String, u64)>,
    pub branches: Vec<Option<u64>>,
}

/// Relies on `lcov::report::Report`: the parsed form of an LCOV tracefile.
#[verifier::external_type_specification]
#[verifier::external_body]
pub struct ExReport(lcov::report::Report);

/// Relies on `lcov::report::section::Key`: the per-source-file key of a
/// report section.
#[verifier::external_type_specification]
#[verifier::external_body]
pub struct ExSectionKey(lcov::report::section::Key);

/// Relies on `lcov::report::section::Value`: the line, function and branch
/// maps of a report section.
#[verifier::external_type_specification]
#[verifier::external_body]
pub struct ExSectionValue(lcov::report::section::Value);

/// The source-file path held by a section key, as characters.
pub uninterp spec fn section_path(key: lcov::report::section::Key) -> Seq<char>;

/// The (line number, hit count) pairs held by a section's line map, in
/// ascending line order.
pub uninterp spec fn section_lines(value: lcov::report::section::Value) -> Seq<(u32, u64)>;

/// The (function name, hit count) pairs held by a section's function map, in
/// ascending name order.
pub uninterp spec fn section_functions(value: lcov::report::section::Value) -> Seq<
    (Seq<char>, u64),
>;

/// The taken counts held by a section's branch map, in ascending key order.
pub uninterp spec fn section_branches(value: lcov::report::section::Value) -> Seq<Option<u64>>;

/// The per-file records held by a report's section map, in ascending section
/// key order.
pub uninterp spec fn report_sections(report: lcov::report::Report) -> Seq<
    (Seq<char>, Seq<(u32, u64)>, Seq<(Seq<char>, u64)>, Seq<Option<u64>>),
>;

/// Relies on the public `source_file` field of `lcov::report::section::Key`,
/// read as a string (any non-Unicode byte is replaced, never a panic).
#[verifier::external_body]
pub fn section_file_path(key: &lcov::report::section::Key) -> (r: String)
    ensures
        r@ == section_path(*key),
{
    key.source_file.to_string_lossy().into_owned()
}

/// Relies on the public `lines`, `functions` and `branches` maps of
/// `lcov::report::section::Value`; each entry is converted to a plain pair,
/// in the maps' own (ascending) iteration order.
#[verifier::external_body]
pub fn section_data(value: &lcov::report::section::Value) -> (r: (
    Vec<(u32, u64)>,
    Vec<(String, u64)>,
    Vec<Option<u64>>,
))
    ensures
        r.0.deep_view() == section_lines(*value),
        r.1.deep_view() == section_functions(*value),
        r.2.deep_view() == section_branches(*value),
{
    (
        value.lines.iter().map(|(k, v)| (k.line, v.count)).collect(),
        value.functions.iter().map(|(k, v)| (k.name.clone(), v.count)).collect(),
        value.branches.iter().map(|(_, v)| v.taken).collect(),
    )
}

/// Relies on the public `sections` map of `lcov::report::Report`; each
/// section is converted to a plain record, in the map's own (ascending)
/// iteration order.
#[verifier::external_body]
pub fn report_records(report: &lcov::report::Report) -> (r: Vec<FileRecord>)
    ensures
        r.deep_view().len() == report_sections(*report).len(),
        forall|i: int|
            0 <= i < r.deep_view().len() ==> {
                &&& (#[trigger] r.deep_view()[i]).0 == report_sections(*report)[i].0
                &&& r.deep_view()[i].1 == report_sections(*report)[i].1
                &&& r.deep_view()[i].2 == report_sections(*report)[i].2
                &&& r.deep_view()[i].3 == report_sections(*report)[i].3
            },
{
    report.sections.iter().map(|(k, v)| FileRecord {
        path: k.source_file.to_string_lossy().into_owned(),
        lines: v.lines.iter().map(|(lk, lv)| (lk.line, lv.count)).collect(),
        functions: v.functions.iter().map(|(fk, fv)| (fk.name.clone(), fv.count)).collect(),
        branches: v.branches.iter().map(|(_, bv)| bv.taken).collect(),
    }).collect()
}

impl DeepView for FileRecord {
    type V = (Seq<char>, Seq<(u32, u64)>, Seq<(Seq<char>, u64)>, Seq<Option<u64>>);

    open spec fn deep_view(&self) -> Self::V {
        (self.path@, self.lines.deep_view(), self.functions.deep_view(), self.branches.deep_view())
    }
}

/// How many lines were hit at least once.
pub open spec fn covered_lines(s: Seq<(u32, u64)>) -> nat
    decreases s.len(),
{
    if s.len() == 0 {
        0
    } else {
        covered_lines(s.drop_last()) + if s.last().1 > 0 {
            1nat
        } else {
            0nat
        }
    }
}

/// How many functions were called at least once.
pub open spec fn covered_functions(s: Seq<(Seq<char>, u64)>) -> nat
    decreases s.len(),
{
    if s.len() == 0 {
        0
    } else {
        covered_functions(s.drop_last()) + if s.last().1 > 0 {
            1nat
        } else {
            0nat
        }
    }
}

/// How many branches have a taken count that is present and positive.
pub open spec fn covered_branches(s: Seq<Option<u64>>) -> nat
    decreases s.len(),
{
    if s.len() == 0 {
        0
    } else {
        covered_branches(s.drop_last()) + if s.last() matches Some(t) && t > 0 {
            1nat
        } else {
            0nat
        }
    }
}

/// No more lines are covered than exist: the counter invariant holds of
/// every record's aggregate.
pub proof fn lemma_covered_lines_le(s: Seq<(u32, u64)>)
    ensures
        covered_lines(s) <= s.len(),
    decreases s.len(),
{
    if s.len() > 0 {
        lemma_covered_lines_le(s.drop_last());
    }
}

/// No more functions are covered than exist.
pub proof fn lemma_covered_functions_le(s: Seq<(Seq<char>, u64)>)
    ensures
        covered_functions(s) <= s.len(),
    decreases s.len(),
{
    if s.len() > 0 {
        lemma_covered_functions_le(s.drop_last());
    }
}

/// No more branches are covered than exist.
pub proof fn lemma_covered_branches_le(s: Seq<Option<u64>>)
    ensures
        covered_branches(s) <= s.len(),
    decreases s.len(),
{
    if s.len() > 0 {
        lemma_covered_branches_le(s.drop_last());
    }
}

/// A natural number clipped to the counter range.
pub open spec fn sat32(n: nat) -> u32 {
    if n > u32::MAX {
        u32::MAX
    } else {
        n as u32
    }
}

/// The aggregate of one record: per metric, how many items it holds and how
/// many of them count as covered. Lines and functions are covered when their
/// hit count is positive; a branch is covered when its taken count is present
/// and positive. Counts are clipped to the counter range.
pub open spec fn record_aggregate(
    lines: Seq<(u32, u64)>,
    functions: Seq<(Seq<char>, u64)>,
    branches: Seq<Option<u64>>,
) -> AggregatedCoverage {
    AggregatedCoverage {
        lines: AggregatedCoverageCounters {
            count: sat32(lines.len()),
            covered_count: sat32(covered_lines(lines)),
        },
        functions: AggregatedCoverageCounters {
            count: sat32(functions.len()),
            covered_count: sat32(covered_functions(functions)),
        },
        branches: AggregatedCoverageCounters {
            count: sat32(branches.len()),
            covered_count: sat32(covered_branches(branches)),
        },
    }
}

fn sat_u32(n: usize) -> (r: u32)
    ensures
        r == sat32(n as nat),
{
    if n > u32::MAX as usize {
        u32::MAX
    } else {
        n as u32
    }
}

fn count_covered_lines(lines: &Vec<(u32, u64)>) -> (r: usize)
    ensures
        r == covered_lines(lines.deep_view()),
{
    let mut covered: usize = 0;
    let mut i: usize = 0;
    proof {
        assert(lines.deep_view().take(0) =~= Seq::<(u32, u64)>::empty());
    }
    while i < lines.len()
        invariant
            i <= lines.len(),
            lines.deep_view().len() == lines.len(),
            covered == covered_lines(lines.deep_view().take(i as int)),
            covered <= i,
        decreases lines.len() - i,
    {
        proof {
            assert(lines.deep_view().take(i + 1).drop_last() =~= lines.deep_view().take(i as int));
            assert(lines.deep_view().take(i + 1).last() == lines.deep_view()[i as int]);
        }
        if lines[i].1 > 0 {
            covered = covered + 1;
        }
        i = i + 1;
    }
    proof {
        assert(lines.deep_view().take(lines.len() as int) =~= lines.deep_view());
    }
    covered
}

fn count_covered_functions(functions: &Vec<(String, u64)>) -> (r: usize)
    ensures
        r == covered_functions(functions.deep_view()),
{
    let mut covered: usize = 0;
    let mut i: usize = 0;
    proof {
        assert(functions.deep_view().take(0) =~= Seq::<(Seq<char>, u64)>::empty());
    }
    while i < functions.len()
        invariant
            i <= functions.len(),
            functions.deep_view().len() == functions.len(),
            covered == covered_functions(functions.deep_view().take(i as int)),
            covered <= i,
        decreases functions.len() - i,
    {
        proof {
            assert(functions.deep_view().take(i + 1).drop_last() =~= functions.deep_view().take(
                i as int,
            ));
            assert(functions.deep_view().take(i + 1).last() == functions.deep_view()[i as int]);
        }
        if functions[i].1 > 0 {
            covered = covered + 1;
        }
        i = i + 1;
    }
    proof {
        assert(functions.deep_view().take(functions.len() as int) =~= functions.deep_view());
    }
    covered
}

fn count_covered_branches(branches: &Vec<Option<u64>>) -> (r: usize)
    ensures
        r == covered_branches(branches.deep_view()),
{
    let mut covered: usize = 0;
    let mut i: usize = 0;
    proof {
        assert(branches.deep_view().take(0) =~= Seq::<Option<u64>>::empty());
    }
    while i < branches.len()
        invariant
            i <= branches.len(),
            branches.deep_view().len() == branches.len(),
            covered == covered_branches(branches.deep_view().take(i as int)),
            covered <= i,
        decreases branches.len() - i,
    {
        proof {
            assert(branches.deep_view().take(i + 1).drop_last() =~= branches.deep_view().take(
                i as int,
            ));
            assert(branches.deep_view().take(i + 1).last() == branches.deep_view()[i as int]);
        }
        let covered_branch = match branches[i] {
            Some(taken) => taken > 0,
            None => false,
        };
        if covered_branch {
            covered = covered + 1;
        }
        i = i + 1;
    }
    proof {
        assert(branches.deep_view().take(branches.len() as int) =~= branches.deep_view());
    }
    covered
}

impl AggregatedCoverage {
    /// The aggregate of one record's raw hit data. This is the only layer
    /// that interprets raw hit semantics; everything above only sees counter
    /// pairs.
    pub fn from_record(record: &FileRecord) -> (r: Self)
        ensures
            r == record_aggregate(
                record.lines.deep_view(),
                record.functions.deep_view(),
                record.branches.deep_view(),
            ),
    {
        AggregatedCoverage {
            lines: AggregatedCoverageCounters {
                count: sat_u32(record.lines.len()),
                covered_count: sat_u32(count_covered_lines(&record.lines)),
            },
            functions: AggregatedCoverageCounters {
                count: sat_u32(record.functions.len()),
                covered_count: sat_u32(count_covered_functions(&record.functions)),
            },
            branches: AggregatedCoverageCounters {
                count: sat_u32(record.branches.len()),
                covered_count: sat_u32(count_covered_branches(&record.branches)),
            },
        }
    }

    /// The aggregate of one report section.
    pub fn from_section(value: &lcov::report::section::Value) -> (r: Self)
        ensures
            r == record_aggregate(
                section_lines(*value),
                section_functions(*value),
                section_branches(*value),
            ),
    {
        let (lines, functions, branches) = section_data(value);
        let record = FileRecord { path: String::new(), lines, functions, branches };
        Self::from_record(&record)
    }
}

} // verus!
