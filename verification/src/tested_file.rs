use vstd::prelude::*;

use crate::counters::AggregatedCoverage;
use crate::paths::components;
use crate::paths::joined;
use crate::paths::join_path;
use crate::paths::split_path;
use crate::records::record_aggregate;
use crate::records::section_branches;
use crate::records::section_data;
use crate::records::section_file_path;
use crate::records::section_functions;
use crate::records::section_lines;
use crate::records::section_path;
use crate::records::FileRecord;

verus! {

/// One tested source file: its display name, original path, path relative to
/// the owning root's prefix, aggregated counters, and the raw per-line and
/// per-function hit counts. Built once from one record, read-only afterward.
#[derive(Debug, Clone, PartialEq)]
pub struct TestedCodeFile {
    pub file_name: String,
    pub path: String,
    pub path_relative_to_prefix: String,
    pub aggregated: AggregatedCoverage,
    pub lines: Vec<(u32, u64)>,
    pub functions: Vec<(String, u64)>,
}

/// The mathematical shape of a leaf record.
#[verifier::ext_equal]
pub struct FileView {
    pub file_name: Seq<char>,
    pub path: Seq<char>,
    pub path_relative_to_prefix: Seq<char>,
    pub aggregated: AggregatedCoverage,
    pub lines: Seq<(u32, u64)>,
    pub functions: Seq<(Seq<char>, u64)>,
}

impl View for TestedCodeFile {
    type V = FileView;

    open spec fn view(&self) -> FileView {
        FileView {
            file_name: self.file_name@,
            path: self.path@,
            path_relative_to_prefix: self.path_relative_to_prefix@,
            aggregated: self.aggregated,
            lines: self.lines.deep_view(),
            functions: self.functions.deep_view(),
        }
    }
}

impl DeepView for TestedCodeFile {
    type V = FileView;

    open spec fn deep_view(&self) -> FileView {
        self.view()
    }
}

/// The last component of a path, or the empty sequence for a path without
/// components.
pub open spec fn file_name_of(path: Seq<char>) -> Seq<char> {
    if components(path).len() == 0 {
        Seq::empty()
    } else {
        components(path).last()
    }
}

/// The components of a record's path once the root prefix is stripped, placed
/// under the root's key: the key's components, then the path's components
/// past the prefix length.
pub open spec fn stripped_under_key(
    path: Seq<char>,
    prefix_len: nat,
    key: Seq<char>,
) -> Seq<Seq<char>> {
    components(key) + if prefix_len <= components(path).len() {
        components(path).skip(prefix_len as int)
    } else {
        Seq::empty()
    }
}

impl TestedCodeFile {
    /// A leaf with the given paths and no coverage data.
    pub fn new(path: &str, file_name: &str) -> (r: Self)
        ensures
            r.file_name@ == file_name@,
            r.path@ == path@,
            r.path_relative_to_prefix@ == path@,
            r.aggregated == crate::counters::spec_zero(),
            r.lines.deep_view() =~= Seq::<(u32, u64)>::empty(),
            r.functions.deep_view() =~= Seq::<(Seq<char>, u64)>::empty(),
    {
        TestedCodeFile {
            file_name: String::from_str(file_name),
            path: String::from_str(path),
            path_relative_to_prefix: String::from_str(path),
            aggregated: AggregatedCoverage::default(),
            lines: Vec::new(),
            functions: Vec::new(),
        }
    }

    /// A leaf with the given paths and aggregate, and no raw data.
    pub fn with_aggregated(path: &str, file_name: &str, aggregated: AggregatedCoverage) -> (r:
        Self)
        ensures
            r.file_name@ == file_name@,
            r.path@ == path@,
            r.path_relative_to_prefix@ == path@,
            r.aggregated == aggregated,
            r.lines.deep_view() =~= Seq::<(u32, u64)>::empty(),
            r.functions.deep_view() =~= Seq::<(Seq<char>, u64)>::empty(),
    {
        TestedCodeFile { aggregated, ..TestedCodeFile::new(path, file_name) }
    }

    /// Builds the leaf for one record: the display name is the path's last
    /// component, the aggregate is computed from the raw hits, and the
    /// relative path puts the components past the root prefix under the
    /// report key.
    pub fn from_record(record: FileRecord, prefix: &str, report_key: &str) -> (r: Self)
        ensures
            r.path@ == record.path@,
            r.file_name@ == file_name_of(record.path@),
            r.aggregated == record_aggregate(
                record.lines.deep_view(),
                record.functions.deep_view(),
                record.branches.deep_view(),
            ),
            r.path_relative_to_prefix@ == joined(
                stripped_under_key(record.path@, components(prefix@).len(), report_key@),
            ),
            r.lines.deep_view() == record.lines.deep_view(),
            r.functions.deep_view() == record.functions.deep_view(),
    {
        let aggregated = AggregatedCoverage::from_record(&record);
        let comps = split_path(record.path.as_str());
        let prefix_comps = split_path(prefix);
        let mut rel: Vec<String> = split_path(report_key);
        let mut i: usize = prefix_comps.len();
        proof {
            if i <= comps.len() {
                assert(rel.deep_view() + comps.deep_view().subrange(prefix_comps.len() as int, i as int)
                    =~= rel.deep_view());
            }
        }
        while i < comps.len()
            invariant
                prefix_comps.deep_view().len() <= i <= comps.len() || (i >= comps.len()
                    && i == prefix_comps.deep_view().len()),
                comps.deep_view().len() == comps.len(),
                rel.deep_view() == stripped_under_key(
                    record.path@,
                    prefix_comps.deep_view().len(),
                    report_key@,
                ).take(rel.deep_view().len() as int),
                comps.deep_view() == components(record.path@),
                rel.deep_view().len() == components(report_key@).len() + if prefix_comps.deep_view().len()
                    <= i {
                    i - prefix_comps.deep_view().len()
                } else {
                    0int
                },
            decreases comps.len() - i,
        {
            let c = comps[i].clone();
            rel.push(c);
            i = i + 1;
            proof {
                let full = stripped_under_key(
                    record.path@,
                    prefix_comps.deep_view().len(),
                    report_key@,
                );
                assert(rel.deep_view() =~= full.take(rel.deep_view().len() as int));
            }
        }
        let path_relative_to_prefix = join_path(&rel);
        proof {
            let full = stripped_under_key(
                record.path@,
                prefix_comps.deep_view().len(),
                report_key@,
            );
            assert(rel.deep_view() =~= full);
        }
        let file_name = if comps.len() == 0 {
            String::new()
        } else {
            comps[comps.len() - 1].clone()
        };
        TestedCodeFile {
            file_name,
            path: record.path,
            path_relative_to_prefix,
            aggregated,
            lines: record.lines,
            functions: record.functions,
        }
    }

    /// Builds the leaf for one report section.
    pub fn from_section(
        key: lcov::report::section::Key,
        value: lcov::report::section::Value,
        prefix: &str,
        report_key: &str,
    ) -> (r: Self)
        ensures
            r.path@ == section_path(key),
            r.file_name@ == file_name_of(section_path(key)),
            r.aggregated == record_aggregate(
                section_lines(value),
                section_functions(value),
                section_branches(value),
            ),
            r.path_relative_to_prefix@ == joined(
                stripped_under_key(section_path(key), components(prefix@).len(), report_key@),
            ),
            r.lines.deep_view() == section_lines(value),
            r.functions.deep_view() == section_functions(value),
    {
        let path = section_file_path(&key);
        let (lines, functions, branches) = section_data(&value);
        let record = FileRecord { path, lines, functions, branches };
        Self::from_record(record, prefix, report_key)
    }

    /// The path of the file as the coverage input recorded it.
    pub fn get_original_file_path(&self) -> (r: &String)
        ensures
            r@ == self.path@,
    {
        &self.path
    }

    pub fn get_aggregated_coverage(&self) -> (r: &AggregatedCoverage)
        ensures
            *r == self.aggregated,
    {
        &self.aggregated
    }

    /// The hit count recorded for a line, if that line was instrumented: the
    /// first entry with the given line number decides.
    pub fn get_line_coverage(&self, line: u32) -> (r: Option<u64>)
        ensures
            r == line_lookup(self.lines.deep_view(), line),
    {
        let mut i: usize = 0;
        proof {
            assert(self.lines.deep_view().skip(0) =~= self.lines.deep_view());
        }
        while i < self.lines.len()
            invariant
                i <= self.lines.len(),
                self.lines.deep_view().len() == self.lines.len(),
                forall|j: int| 0 <= j < i ==> (#[trigger] self.lines.deep_view()[j]).0 != line,
                line_lookup(self.lines.deep_view(), line) == line_lookup(
                    self.lines.deep_view().skip(i as int),
                    line,
                ),
            decreases self.lines.len() - i,
        {
            proof {
                let s = self.lines.deep_view().skip(i as int);
                assert(s[0] == self.lines.deep_view()[i as int]);
                assert(s.drop_first() =~= self.lines.deep_view().skip(i + 1));
            }
            if self.lines[i].0 == line {
                return Some(self.lines[i].1);
            }
            i = i + 1;
        }
        proof {
            assert(self.lines.deep_view().skip(self.lines.len() as int).len() == 0);
        }
        None
    }

    /// The recorded functions with their hit counts.
    pub fn get_functions(&self) -> (r: &Vec<(String, u64)>)
        ensures
            r.deep_view() == self.functions.deep_view(),
    {
        &self.functions
    }

    pub fn get_file_name(&self) -> (r: &String)
        ensures
            r@ == self.file_name@,
    {
        &self.file_name
    }

    pub fn get_path_relative_to_prefix(&self) -> (r: &String)
        ensures
            r@ == self.path_relative_to_prefix@,
    {
        &self.path_relative_to_prefix
    }

    /// The display name: the file's own name.
    pub fn get_name(&self) -> (r: &String)
        ensures
            r@ == self.file_name@,
    {
        &self.file_name
    }

    /// A leaf is never a directory.
    pub fn is_dir(&self) -> (r: bool)
        ensures
            r == false,
    {
        false
    }

    /// The node's position for link computation.
    pub fn location(&self) -> (r: crate::links::NodeLocation)
        ensures
            r@.name == self.file_name@,
            r@.path == self.path_relative_to_prefix@,
            r@.is_dir == false,
    {
        crate::links::NodeLocation::new(
            self.file_name.as_str(),
            self.path_relative_to_prefix.as_str(),
            false,
        )
    }

    /// The file's place in the tree: its path relative to the owning root's
    /// prefix.
    pub fn get_path_string(&self) -> (r: String)
        ensures
            r@ == self.path_relative_to_prefix@,
    {
        self.path_relative_to_prefix.clone()
    }

}

/// The hit count of the first entry for the given line, if any.
pub open spec fn line_lookup(s: Seq<(u32, u64)>, line: u32) -> Option<u64>
    decreases s.len(),
{
    if s.len() == 0 {
        None
    } else if s[0].0 == line {
        Some(s[0].1)
    } else {
        line_lookup(s.drop_first(), line)
    }
}

} // verus!
