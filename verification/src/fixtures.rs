use vstd::prelude::*;

use crate::counters::AggregatedCoverage;
use crate::counters::AggregatedCoverageCounters;
use crate::input::AggregatorInput;
use crate::records::FileRecord;
use crate::tested_file::TestedCodeFile;
use crate::tested_module::TestedModule;
use crate::tested_root::records_fit;
use crate::tested_root::TestedRoot;

verus! {

/// Ready-made aggregates and small trees for exercising the library.
pub struct AggregatedFixtures;

impl AggregatedFixtures {
    /// A root with one empty top-level file.
    pub fn get_top_level_file_report_no_line() -> (r: TestedRoot)
        ensures
            r@.source_files.len() == 1,
            r@.modules.len() == 0,
    {
        let main_cpp = TestedCodeFile::new("main.cpp", "main.cpp");
        let mut files: Vec<TestedCodeFile> = Vec::new();
        files.push(main_cpp);
        TestedRoot::from_source_files(files)
    }

    /// An aggregate with ten lines five covered, two functions one covered,
    /// three branches two covered.
    pub fn get_file_aggregates_10_5() -> (r: AggregatedCoverage)
        ensures
            r.lines == (AggregatedCoverageCounters { count: 10u32, covered_count: 5u32 }),
            r.functions == (AggregatedCoverageCounters { count: 2u32, covered_count: 1u32 }),
            r.branches == (AggregatedCoverageCounters { count: 3u32, covered_count: 2u32 }),
    {
        AggregatedCoverage {
            lines: AggregatedCoverageCounters::new(10, 5),
            functions: AggregatedCoverageCounters::new(2, 1),
            branches: AggregatedCoverageCounters::new(3, 2),
        }
    }

    /// An aggregate with twenty lines ten covered and seven functions six
    /// covered.
    pub fn get_file_aggregates_20_10() -> (r: AggregatedCoverage)
        ensures
            r.lines == (AggregatedCoverageCounters { count: 20u32, covered_count: 10u32 }),
            r.functions == (AggregatedCoverageCounters { count: 7u32, covered_count: 6u32 }),
            r.branches == (AggregatedCoverageCounters { count: 0u32, covered_count: 0u32 }),
    {
        AggregatedCoverage {
            lines: AggregatedCoverageCounters::new(20, 10),
            functions: AggregatedCoverageCounters::new(7, 6),
            branches: AggregatedCoverageCounters::default(),
        }
    }

    /// An aggregate with three lines one covered.
    pub fn get_file_aggregates_3_1() -> (r: AggregatedCoverage)
        ensures
            r.lines == (AggregatedCoverageCounters { count: 3u32, covered_count: 1u32 }),
            r.functions == (AggregatedCoverageCounters { count: 0u32, covered_count: 0u32 }),
            r.branches == (AggregatedCoverageCounters { count: 0u32, covered_count: 0u32 }),
    {
        AggregatedCoverage {
            lines: AggregatedCoverageCounters::new(3, 1),
            functions: AggregatedCoverageCounters::default(),
            branches: AggregatedCoverageCounters::default(),
        }
    }

    /// A root with one empty top-level file and one empty nested file.
    pub fn get_nested_file_in_report() -> (r: TestedRoot)
        ensures
            r@.source_files.len() == 1,
            r@.modules.len() == 1,
    {
        let main_cpp = TestedCodeFile::new("main.cpp", "main.cpp");
        let nested_cpp = TestedCodeFile::new("module/nested.cpp", "nested.cpp");
        let mut nested: Vec<TestedCodeFile> = Vec::new();
        nested.push(nested_cpp);
        proof {
            assert(nested.deep_view() =~= Seq::<crate::tested_file::FileView>::empty().push(
                nested@[0]@,
            ));
            crate::tested_module::lemma_files_totals_push(Seq::empty(), nested@[0]@);
        }
        let module = TestedModule::from_source_files("module", "module", nested);
        let mut files: Vec<TestedCodeFile> = Vec::new();
        files.push(main_cpp);
        let mut modules: Vec<TestedModule> = Vec::new();
        modules.push(module);
        let r = TestedRoot::from_source_files_and_modules(files, modules);
        proof {
            crate::tested_module::lemma_modules_view(modules@);
        }
        r
    }

    /// A fully aggregated root with one top-level file (four lines three
    /// covered, two functions covered, one of two branches taken) and one
    /// nested file (two lines covered, one function covered).
    pub fn get_simple_full_report() -> (r: TestedRoot)
        ensures
            r@.name == "Test report"@,
    {
        let mut main_lines: Vec<(u32, u64)> = Vec::new();
        main_lines.push((1, 1));
        main_lines.push((2, 0));
        main_lines.push((3, 1));
        main_lines.push((4, 2));
        let mut main_functions: Vec<(String, u64)> = Vec::new();
        main_functions.push((String::from_str("f1"), 1));
        main_functions.push((String::from_str("f2"), 2));
        let mut main_branches: Vec<Option<u64>> = Vec::new();
        main_branches.push(Some(0));
        main_branches.push(Some(1));
        let main_record = FileRecord {
            path: String::from_str("main.cpp"),
            lines: main_lines,
            functions: main_functions,
            branches: main_branches,
        };

        let mut nested_lines: Vec<(u32, u64)> = Vec::new();
        nested_lines.push((1, 1));
        nested_lines.push((2, 2));
        let mut nested_functions: Vec<(String, u64)> = Vec::new();
        nested_functions.push((String::from_str("f3"), 1));
        let nested_record = FileRecord {
            path: String::from_str("module/nested.cpp"),
            lines: nested_lines,
            functions: nested_functions,
            branches: Vec::new(),
        };

        let mut records: Vec<FileRecord> = Vec::new();
        records.push(main_record);
        records.push(nested_record);

        proof {
            reveal_strlit("");
            assert(""@ =~= Seq::<char>::empty());
        }
        if records_fit(&records, "") {
            let input = AggregatorInput {
                records,
                prefix: String::new(),
                name: None,
                key: String::new(),
            };
            let ghost recs = crate::input::records_view(input.records@);
            let ghost prefix_view = input.prefix@;
            let ghost key_view = input.key@;
            proof {
                assert(crate::paths::components(prefix_view) =~= Seq::<Seq<char>>::empty());
            }
            let root = TestedRoot::new(input);
            proof {
                crate::tested_root::lemma_build_root_wf(recs, prefix_view, key_view);
            }
            root
        } else {
            TestedRoot::default()
        }
    }
}

} // verus!
