use lcov::report::section::Key as SectionKey;
use lcov::report::section::Value as SectionValue;
use lcov::report::Report as LcovReport;
use std::path::PathBuf;

use lcov_aggregator_report::fixtures::AggregatedFixtures;
use lcov_aggregator_report::AggregatedCoverage;
use lcov_aggregator_report::AggregatedCoverageCounters;
use lcov_aggregator_report::TestedCodeFile;
use lcov_aggregator_report::TestedModule;
use lcov_aggregator_report::TestedRoot;

fn assert_aggregated_counters_eq(counters: &AggregatedCoverageCounters, count: u32, covered_count: u32) {
    assert_eq!(counters.count, count);
    assert_eq!(counters.covered_count, covered_count);
}

fn section_key(path: &str) -> SectionKey {
    SectionKey {
        source_file: PathBuf::from(path),
        test_name: String::new(),
    }
}

fn insert_empty_section(mut report: LcovReport, path: &str) -> LcovReport {
    report.sections.insert(section_key(path), SectionValue::default());
    report
}

fn insert_section(mut report: LcovReport, path: &str, value: SectionValue) -> LcovReport {
    report.sections.insert(section_key(path), value);
    report
}

fn insert_line(mut value: SectionValue, line: u32, count: u64) -> SectionValue {
    value.lines.insert(
        lcov::report::section::line::Key { line },
        lcov::report::section::line::Value {
            count,
            checksum: None,
        },
    );
    value
}

fn generate_3_lines_2_covered_section() -> SectionValue {
    insert_line(insert_line(insert_line(SectionValue::default(), 1, 3), 2, 0), 3, 1)
}

fn generate_2_lines_1_covered_section() -> SectionValue {
    insert_line(insert_line(SectionValue::default(), 1, 3), 2, 0)
}

// --- module construction ---

#[test]
fn when_creating_a_tested_module_the_name_and_path_should_be_set() {
    let tested_module = TestedModule::new("path/to/name".to_string(), "name".to_string());
    assert_eq!(tested_module.name, "name");
    assert_eq!(tested_module.path, "path/to/name");
    assert_eq!(tested_module.get_name(), "name");
}

#[test]
fn when_adding_a_file_with_an_empty_path_it_should_add_it_directly_to_sources() {
    let mut tested_module = TestedModule::new("section".to_string(), "name".to_string());
    let tested_file = TestedCodeFile::new("section/file.cpp", "file.cpp");
    tested_module.add_file(vec![], tested_file);

    assert!(tested_module.modules.is_empty());
    assert_eq!(tested_module.source_files.len(), 1);
    assert_eq!(
        tested_module.get_source_file_at(0).get_path_string(),
        "section/file.cpp"
    );
}

#[test]
fn when_adding_a_file_with_a_1_level_path_it_should_add_it_inside_a_module() {
    let mut tested_module = TestedModule::new("section".to_string(), "name".to_string());
    let tested_file = TestedCodeFile::new("section/submodule/file.cpp", "file.cpp");
    tested_module.add_file(vec!["submodule".to_string()], tested_file);

    assert!(tested_module.source_files.is_empty());

    assert_eq!(tested_module.modules.len(), 1);
    let module = tested_module.get_module_at(0);
    assert_eq!(module.path, "section/submodule");

    assert_eq!(module.source_files.len(), 1);
    let source_file = module.get_source_file_at(0);
    assert_eq!(source_file.get_path_string(), "section/submodule/file.cpp");
}

#[test]
fn when_adding_2_file_to_the_same_sub_module_it_should_have_2_files_inside_submodule() {
    let mut tested_module = TestedModule::new("section".to_string(), "name".to_string());
    let tested_file = TestedCodeFile::new("section/submodule/file.cpp", "file.cpp");
    tested_module.add_file(vec!["submodule".to_string()], tested_file);
    let tested_file = TestedCodeFile::new("section/submodule/file2.cpp", "file2.cpp");
    tested_module.add_file(vec!["submodule".to_string()], tested_file);

    assert!(tested_module.source_files.is_empty());

    assert_eq!(tested_module.modules.len(), 1);
    let module = tested_module.get_module_at(0);
    assert_eq!(module.path, "section/submodule");

    assert_eq!(module.source_files.len(), 2);
    let source_file = module.get_source_file_at(0);
    assert_eq!(source_file.get_path_string(), "section/submodule/file.cpp");
    let source_file = module.get_source_file_at(1);
    assert_eq!(source_file.get_path_string(), "section/submodule/file2.cpp");
}

#[test]
fn when_creating_empty_module_it_should_have_aggregate_0() {
    let tested_module = TestedModule::new("section".to_string(), "name".to_string());

    assert_aggregated_counters_eq(&tested_module.aggregated.lines, 0, 0);
    assert_aggregated_counters_eq(&tested_module.aggregated.functions, 0, 0);
    assert_aggregated_counters_eq(&tested_module.aggregated.branches, 0, 0);
}

#[test]
fn when_creating_a_tested_module_with_empty_file_it_should_have_aggregate_0() {
    let tested_file = TestedCodeFile::new("section/file.cpp", "file.cpp");
    let tested_module = TestedModule::from_source_files("section", "name", vec![tested_file]);

    assert_aggregated_counters_eq(&tested_module.aggregated.lines, 0, 0);
    assert_aggregated_counters_eq(&tested_module.aggregated.functions, 0, 0);
    assert_aggregated_counters_eq(&tested_module.aggregated.branches, 0, 0);
}

#[test]
fn when_creating_a_tested_module_with_one_file_it_should_get_same_aggregate() {
    let aggregated = AggregatedFixtures::get_file_aggregates_10_5();
    let tested_file = TestedCodeFile::with_aggregated("section/file.cpp", "file.cpp", aggregated);
    let mut tested_module = TestedModule::new("section".to_string(), "name".to_string());
    tested_module.add_file(vec![], tested_file);

    assert_aggregated_counters_eq(&tested_module.aggregated.lines, 10, 5);
}

#[test]
fn when_creating_a_tested_module_with_two_file_it_should_get_same_aggregate() {
    let tested_file1 = TestedCodeFile::with_aggregated(
        "section/file.cpp",
        "file.cpp",
        AggregatedFixtures::get_file_aggregates_10_5(),
    );
    let tested_file2 = TestedCodeFile::with_aggregated(
        "section/module/file2.cpp",
        "file2.cpp",
        AggregatedFixtures::get_file_aggregates_3_1(),
    );
    let mut tested_module = TestedModule::new("section".to_string(), "name".to_string());
    tested_module.add_file(vec![], tested_file1);
    tested_module.add_file(vec!["module".to_string()], tested_file2);

    let module = tested_module.get_module_at(0);
    assert_aggregated_counters_eq(&tested_module.aggregated.lines, 13, 6);
    assert_aggregated_counters_eq(&module.aggregated.lines, 3, 1);
}

// --- leaf records ---

#[test]
fn when_creating_a_tested_file_the_aggregated_count_should_be_0() {
    let tested_file = TestedCodeFile::new("path", "file");
    assert_eq!(tested_file.aggregated, AggregatedCoverage::default());
}

#[test]
fn when_getting_the_path_string_it_should_return_the_path() {
    let tested_file = TestedCodeFile::new("path", "file");
    assert_eq!(tested_file.get_path_string(), "path");
}

#[test]
fn when_creating_from_a_section_it_shall_get_its_name_from_it() {
    let key = section_key("path/file.cpp");
    let value = SectionValue::default();

    let tested_file = TestedCodeFile::from_section(key, value, "", "");
    assert_eq!(tested_file.file_name, "file.cpp");
}

#[test]
fn when_creating_from_a_section_with_a_prefix_it_shall_get_the_path_relative_to_prefix() {
    let key = section_key("path/file.cpp");
    let value = SectionValue::default();

    let tested_file = TestedCodeFile::from_section(key, value, "path/", "");
    assert_eq!(tested_file.path_relative_to_prefix, "file.cpp");
}

#[test]
fn when_creating_from_an_empty_section_aggregate_shall_be_0() {
    let key = section_key("path/file.cpp");
    let value = SectionValue::default();

    let tested_file = TestedCodeFile::from_section(key, value, "", "");
    assert_aggregated_counters_eq(&tested_file.aggregated.lines, 0, 0);
}

#[test]
fn when_creating_from_a_sections_with_lines_aggregate_shall_count_covered_lines() {
    let key = section_key("path/file.cpp");
    let section_value = generate_3_lines_2_covered_section();

    let tested_file = TestedCodeFile::from_section(key, section_value, "", "");
    assert_aggregated_counters_eq(&tested_file.aggregated.lines, 3, 2);
}

// --- whole trees from reports ---

#[test]
fn when_building_tree_with_an_empty_report_it_should_get_an_empty_report() {
    let original_report = LcovReport::new();
    let report_tree = TestedRoot::from_original_report(original_report);
    assert_eq!(TestedRoot::default(), report_tree);
}

#[test]
fn when_building_tree_with_a_report_with_one_file_it_should_get_a_report_with_tested_file_child() {
    let original_report = insert_empty_section(LcovReport::new(), "main.cpp");

    let report_tree = TestedRoot::from_original_report(original_report);

    let tested_file = TestedCodeFile::new("main.cpp", "main.cpp");
    let expected_tree = TestedRoot::from_source_files(vec![tested_file]);

    assert_eq!(expected_tree, report_tree);
}

#[test]
fn when_building_tree_with_a_report_with_one_file_nested_it_should_get_a_report_with_module_node() {
    let original_report = insert_empty_section(LcovReport::new(), "package/main.cpp");
    let report_tree = TestedRoot::from_original_report(original_report);

    let tested_file = TestedCodeFile::new("package/main.cpp", "main.cpp");
    let tested_module = TestedModule::from_source_files("package", "package", vec![tested_file]);
    let expected_tree = TestedRoot::from_modules(vec![tested_module]);

    assert_eq!(expected_tree, report_tree);
}

#[test]
fn when_building_tree_with_a_report_with_path_starting_with_slash_should_start_with_first_module() {
    let original_report = insert_empty_section(LcovReport::new(), "/package/main.cpp");
    let report_tree = TestedRoot::from_original_report(original_report);

    assert_eq!(report_tree.modules.len(), 1);
    let package = report_tree.get_module_at(0);
    assert_eq!(package.name, "package");
    assert_eq!(package.source_files.len(), 1);
    let file = package.get_source_file_at(0);
    assert_eq!(file.path, "/package/main.cpp");
    assert_eq!(file.get_path_string(), "package/main.cpp");
}

#[test]
fn when_building_tree_with_a_report_with_one_file_deeply_nested_it_should_get_a_report_with_module_node(
) {
    let original_report = insert_empty_section(LcovReport::new(), "package/sub-package/main.cpp");

    let report_tree = TestedRoot::from_original_report(original_report);

    let tested_file = TestedCodeFile::new("package/sub-package/main.cpp", "main.cpp");
    let tested_module_2 =
        TestedModule::from_source_files("package/sub-package", "sub-package", vec![tested_file]);
    let tested_module_1 = TestedModule::from_modules("package", "package", vec![tested_module_2]);
    let expected_tree = TestedRoot::from_modules(vec![tested_module_1]);

    assert_eq!(expected_tree, report_tree);
}

#[test]
fn when_building_tree_with_report_2_files_at_root_shall_have_2_files_in_report_tree() {
    let original_report = insert_empty_section(
        insert_empty_section(LcovReport::new(), "main.cpp"),
        "module.cpp",
    );

    let report_tree = TestedRoot::from_original_report(original_report);

    let tested_file_main = TestedCodeFile::new("main.cpp", "main.cpp");
    let tested_file_module = TestedCodeFile::new("module.cpp", "module.cpp");
    let expected_tree = TestedRoot::from_source_files(vec![tested_file_main, tested_file_module]);

    assert_eq!(expected_tree, report_tree);
}

#[test]
fn when_building_tree_with_report_2_files_deeply_nested_shall_have_2_files_in_report_tree() {
    let original_report = insert_empty_section(
        insert_empty_section(LcovReport::new(), "my/package/main.cpp"),
        "my/package/module.cpp",
    );

    let report_tree = TestedRoot::from_original_report(original_report);

    let tested_file_main = TestedCodeFile::new("my/package/main.cpp", "main.cpp");
    let tested_file_module = TestedCodeFile::new("my/package/module.cpp", "module.cpp");
    let tested_module_package = TestedModule::from_source_files(
        "my/package",
        "package",
        vec![tested_file_main, tested_file_module],
    );
    let tested_module_my = TestedModule::from_modules("my", "my", vec![tested_module_package]);
    let expected_tree = TestedRoot::from_modules(vec![tested_module_my]);

    assert_eq!(expected_tree, report_tree);
}

#[test]
fn when_building_tree_with_2_files_in_different_packages_both_packages_shall_exist_in_tree() {
    let original_report = insert_empty_section(
        insert_empty_section(LcovReport::new(), "my/package/main.cpp"),
        "yours/module.cpp",
    );

    let report_tree = TestedRoot::from_original_report(original_report);

    let tested_file_main = TestedCodeFile::new("my/package/main.cpp", "main.cpp");
    let tested_file_module = TestedCodeFile::new("yours/module.cpp", "module.cpp");
    let tested_module_package =
        TestedModule::from_source_files("my/package", "package", vec![tested_file_main]);
    let tested_module_my = TestedModule::from_modules("my", "my", vec![tested_module_package]);
    let tested_module_yours =
        TestedModule::from_source_files("yours", "yours", vec![tested_file_module]);
    let expected_tree = TestedRoot::from_modules(vec![tested_module_my, tested_module_yours]);

    assert_eq!(expected_tree, report_tree);
}

#[test]
fn when_building_tree_with_1_file_deeply_nested_i_can_access_path_of_modules_along_path_to_file() {
    let original_report = insert_empty_section(LcovReport::new(), "package/sub-package/main.cpp");
    let report_tree = TestedRoot::from_original_report(original_report);

    let package = report_tree.modules.get(0).unwrap();
    let sub_package = package.get_module_at(0);
    let file = sub_package.get_source_file_at(0);

    assert_eq!(file.get_path_string(), "package/sub-package/main.cpp");
    assert_eq!(sub_package.get_path_string(), "package/sub-package");
    assert_eq!(package.get_path_string(), "package");
    assert_eq!(report_tree.get_path_string(), "");
}

#[test]
fn when_building_tree_with_an_empty_report_it_should_get_0_aggregates() {
    let original_report = LcovReport::new();
    let report_tree = TestedRoot::from_original_report(original_report);

    assert_aggregated_counters_eq(&report_tree.aggregated.lines, 0, 0);
    assert_aggregated_counters_eq(&report_tree.aggregated.functions, 0, 0);
    assert_aggregated_counters_eq(&report_tree.aggregated.branches, 0, 0);
}

#[test]
fn when_building_tree_with_a_top_level_file_with_coverage_data_it_should_get_the_same_aggregate() {
    let original_report = insert_section(
        LcovReport::new(),
        "main.cpp",
        generate_3_lines_2_covered_section(),
    );

    let report_tree = TestedRoot::from_original_report(original_report);
    let tested_file = report_tree.source_files.get(0).unwrap();

    assert_aggregated_counters_eq(&tested_file.get_aggregated_coverage().lines, 3, 2);
    assert_aggregated_counters_eq(&report_tree.aggregated.lines, 3, 2);
}

#[test]
fn when_building_tree_with_a_nested_file_with_coverage_data_it_should_get_the_aggregate_all_along()
{
    let original_report = insert_section(
        insert_section(
            LcovReport::new(),
            "module1/sub-module/main.cpp",
            generate_3_lines_2_covered_section(),
        ),
        "module2/main.cpp",
        generate_2_lines_1_covered_section(),
    );

    let report_tree = TestedRoot::from_original_report(original_report);
    let module1 = report_tree.modules.get(0).unwrap();
    let sub_module1 = module1.get_module_at(0);
    let module2 = report_tree.modules.get(1).unwrap();

    assert_aggregated_counters_eq(&report_tree.aggregated.lines, 5, 3);
    assert_aggregated_counters_eq(&module1.get_aggregated_coverage().lines, 3, 2);
    assert_aggregated_counters_eq(&sub_module1.get_aggregated_coverage().lines, 3, 2);
    assert_aggregated_counters_eq(
        &sub_module1.get_source_file_at(0).get_aggregated_coverage().lines,
        3,
        2,
    );
    assert_aggregated_counters_eq(&module2.get_aggregated_coverage().lines, 2, 1);
    assert_aggregated_counters_eq(
        &module2.get_source_file_at(0).get_aggregated_coverage().lines,
        2,
        1,
    );
}

// --- end to end on raw records, and insertion-order independence ---

#[test]
fn end_to_end_two_records_aggregate_into_the_expected_tree() {
    let report = AggregatedFixtures::get_simple_full_report();

    assert_eq!(report.source_files.len(), 1);
    let main_cpp = report.get_source_file_at(0);
    assert_eq!(main_cpp.file_name, "main.cpp");
    assert_aggregated_counters_eq(&main_cpp.aggregated.lines, 4, 3);

    assert_eq!(report.modules.len(), 1);
    let module = report.get_module_at(0);
    assert_eq!(module.name, "module");
    let nested = module.get_source_file_at(0);
    assert_eq!(nested.file_name, "nested.cpp");
    assert_aggregated_counters_eq(&nested.aggregated.lines, 2, 2);

    assert_aggregated_counters_eq(&report.aggregated.lines, 6, 5);
}

#[test]
fn inserting_the_same_records_in_any_order_gives_the_same_root_aggregate() {
    let forward = insert_section(
        insert_section(
            LcovReport::new(),
            "a/one.cpp",
            generate_3_lines_2_covered_section(),
        ),
        "b/two.cpp",
        generate_2_lines_1_covered_section(),
    );
    let backward = insert_section(
        insert_section(
            LcovReport::new(),
            "b/two.cpp",
            generate_2_lines_1_covered_section(),
        ),
        "a/one.cpp",
        generate_3_lines_2_covered_section(),
    );

    let t1 = TestedRoot::from_original_report(forward);
    let t2 = TestedRoot::from_original_report(backward);
    assert_eq!(t1.aggregated, t2.aggregated);
    assert_aggregated_counters_eq(&t1.aggregated.lines, 5, 3);
}

#[test]
fn building_twice_from_the_same_records_yields_structurally_equal_trees() {
    let make = || {
        insert_section(
            insert_section(
                LcovReport::new(),
                "my/package/main.cpp",
                generate_3_lines_2_covered_section(),
            ),
            "my/other/two.cpp",
            generate_2_lines_1_covered_section(),
        )
    };
    let t1 = TestedRoot::from_original_report(make());
    let t2 = TestedRoot::from_original_report(make());
    assert_eq!(t1, t2);
}

// --- names, kinds and places of the node types ---

#[test]
fn when_getting_path_of_file_it_should_return_the_path() {
    let tested_file = TestedCodeFile::new("path/file.cpp", "file.cpp");
    assert_eq!(tested_file.get_path_string(), "path/file.cpp");
}

#[test]
fn when_getting_path_of_module_it_should_return_the_path() {
    let tested_module = TestedModule::new("path/mod".to_string(), "mod".to_string());
    assert_eq!(tested_module.get_path_string(), "path/mod");
}

#[test]
fn when_getting_path_of_root_it_should_return_the_key() {
    let tested_root = TestedRoot::new(
        lcov_aggregator_report::AggregatorInput::new(LcovReport::new())
            .with_prefix("path")
            .unwrap()
            .with_key("key"),
    );
    assert_eq!(tested_root.get_path_string(), "key");
}

#[test]
fn when_getting_path_of_default_root_it_shall_return_empty() {
    let default_root = TestedRoot::default();
    assert_eq!(default_root.get_path_string(), "");
}

#[test]
fn when_getting_path_of_multi_report_it_shall_return_empty() {
    let multi_report = lcov_aggregator_report::MultiReport::new("");
    assert_eq!(multi_report.get_path_string(), "");
}

#[test]
fn test_files_are_not_directories() {
    let tested_file = TestedCodeFile::new("path/file.cpp", "file.cpp");
    assert!(!tested_file.is_dir());
}

#[test]
fn modules_are_directories() {
    let tested_module = TestedModule::new("path".to_string(), "mod".to_string());
    assert!(tested_module.is_dir());
}

#[test]
fn root_are_directories() {
    let tested_root = TestedRoot::default();
    assert!(tested_root.is_dir());
}

#[test]
fn multi_report_are_directories() {
    let multi_report = lcov_aggregator_report::MultiReport::new("");
    assert!(multi_report.is_dir());
}

#[test]
fn test_file_name_is_file_name() {
    let tested_file = TestedCodeFile::new("path/file.cpp", "file.cpp");
    assert_eq!(tested_file.get_name(), "file.cpp");
}

#[test]
fn test_module_name_is_module_name() {
    let tested_module = TestedModule::new("path".to_string(), "mod".to_string());
    assert_eq!(tested_module.get_name(), "mod");
}

#[test]
fn test_root_name_is_last_part_of_prefix() {
    let tested_root = TestedRoot::new(
        lcov_aggregator_report::AggregatorInput::new(LcovReport::new())
            .with_prefix("my/prefix/to/project")
            .unwrap()
            .with_key("key"),
    );
    assert_eq!(tested_root.get_name(), "project");
}

#[test]
fn test_multi_report_name_is_multi_report() {
    let multi_report = lcov_aggregator_report::MultiReport::new("");
    assert_eq!(multi_report.get_name(), "MultiReport");
}

#[test]
fn a_multi_report_totals_the_reports_it_holds() {
    let mut multi = lcov_aggregator_report::MultiReport::new("all");
    let report = insert_section(
        LcovReport::new(),
        "main.cpp",
        generate_3_lines_2_covered_section(),
    );
    multi.add_report(TestedRoot::from_original_report(report));
    let report = insert_section(
        LcovReport::new(),
        "two.cpp",
        generate_2_lines_1_covered_section(),
    );
    multi.add_report(TestedRoot::from_original_report(report));

    assert_aggregated_counters_eq(&multi.aggregated.lines, 5, 3);
    assert_eq!(multi.get_multi_report_name(), "all");
    assert_eq!(multi.reports.len(), 2);
}

#[test]
fn a_record_whose_path_strips_to_nothing_is_dropped() {
    let report = insert_section(
        insert_empty_section(LcovReport::new(), "src"),
        "src/kept.cpp",
        generate_3_lines_2_covered_section(),
    );
    let input = lcov_aggregator_report::AggregatorInput::new(report)
        .with_prefix("src")
        .unwrap();
    let root = TestedRoot::new(input);

    assert_eq!(root.source_files.len(), 1);
    assert_eq!(root.source_files[0].file_name, "kept.cpp");
    assert_eq!(root.modules.len(), 0);
    assert_aggregated_counters_eq(&root.aggregated.lines, 3, 2);
}

#[test]
fn enumerating_code_files_walks_modules_first_and_then_the_root_files() {
    let report = AggregatedFixtures::get_nested_file_in_report();
    let files = report.enumerate_code_files();
    assert_eq!(files.len(), 2);
    assert_eq!(files[0].file_name, "nested.cpp");
    assert_eq!(files[1].file_name, "main.cpp");
}

#[test]
fn enumerating_a_module_walks_its_own_files_before_its_children() {
    let mut module = TestedModule::new("top".to_string(), "top".to_string());
    module.add_file(vec![], TestedCodeFile::new("top/a.cpp", "a.cpp"));
    module.add_file(vec!["sub".to_string()], TestedCodeFile::new("top/sub/b.cpp", "b.cpp"));
    let files = module.enumerate_code_files();
    assert_eq!(files.len(), 2);
    assert_eq!(files[0].file_name, "a.cpp");
    assert_eq!(files[1].file_name, "b.cpp");
}
