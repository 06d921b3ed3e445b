use lcov::report::section::Key as SectionKey;
use lcov::report::section::Value as SectionValue;
use lcov::report::Report;
use std::path::PathBuf;

use lcov_aggregator_report::AggregatorInput;

fn insert_empty_section(mut report: Report, path: &str) -> Report {
    report.sections.insert(
        SectionKey {
            source_file: PathBuf::from(path),
            test_name: String::new(),
        },
        SectionValue::default(),
    );
    report
}

#[test]
fn test_new_list_sections() {
    let report = Report::new();
    let input = AggregatorInput::new(report);
    assert_eq!(input.list_records().len(), 0);

    let report = insert_empty_section(Report::new(), "a.cpp");
    let input = AggregatorInput::new(report);
    assert_eq!(input.list_records().len(), 1);
    assert_eq!(input.list_records()[0].path, "a.cpp");
}

#[test]
fn test_with_prefix_list_sections() {
    let report = insert_empty_section(Report::new(), "my/very/long/path/file.cpp");
    let input = AggregatorInput::new(report);
    let new_input = input.with_prefix("my/very/long/path/").unwrap();
    assert_eq!(new_input.get_prefix(), "my/very/long/path/");
}

#[test]
fn with_prefix_rejects_a_path_outside_the_prefix() {
    let report = insert_empty_section(Report::new(), "another/prefix/file.cpp");
    let input = AggregatorInput::new(report);
    let err = input.with_prefix("my/very/long/path/").unwrap_err();
    assert_eq!(
        err,
        "Some tested files do not start with the prefix 'my/very/long/path/'. For example, another/prefix/file.cpp"
    );
}

#[test]
fn test_longest_prefix_of_empty_is_empty() {
    let report = Report::new();
    let input = AggregatorInput::new(report);
    assert_eq!(input.find_longest_prefix(), "");
}

#[test]
fn test_longest_prefix_of_single_file_is_full_path() {
    let report = insert_empty_section(Report::new(), "my/very/long/path/file.cpp");
    let input = AggregatorInput::new(report);
    assert_eq!(input.find_longest_prefix(), "my/very/long/path");
}

#[test]
fn test_longest_prefix_of_multiple_files() {
    let report = insert_empty_section(
        insert_empty_section(Report::new(), "my/very/long/path/file.cpp"),
        "my/very/long/path/file2.cpp",
    );
    let input = AggregatorInput::new(report);
    assert_eq!(input.find_longest_prefix(), "my/very/long/path");
}

#[test]
fn test_longest_prefix_of_multiple_files_at_different_levels() {
    let report = insert_empty_section(
        insert_empty_section(Report::new(), "my/very/long/path/file.cpp"),
        "my/very/long/path2/file2.cpp",
    );
    let input = AggregatorInput::new(report);
    assert_eq!(input.find_longest_prefix(), "my/very/long");
}

#[test]
fn test_with_longest_prefix() {
    let report = insert_empty_section(
        insert_empty_section(Report::new(), "my/very/long/path/file.cpp"),
        "my/very/long/path/file2.cpp",
    );
    let input = AggregatorInput::new(report);
    let new_input = input.with_longest_prefix();
    assert_eq!(new_input.get_prefix(), "my/very/long/path");
}

#[test]
fn last_part_of_empty_prefix_is_empty() {
    let report = Report::new();
    let input = AggregatorInput::new(report);
    assert_eq!(input.last_part_of_prefix(), "");
}

#[test]
fn last_part_of_prefix_with_single_part_is_single_part() {
    let report = Report::new();
    let input = AggregatorInput::new(report).with_prefix("foo").unwrap();
    assert_eq!(input.last_part_of_prefix(), "foo");
}

#[test]
fn last_part_of_absolute_prefix_with_single_part_is_single_part() {
    let report = Report::new();
    let input = AggregatorInput::new(report).with_prefix("/foo").unwrap();
    assert_eq!(input.last_part_of_prefix(), "foo");
}

#[test]
fn last_part_of_absolute_prefix_with_multiple_part_is_last_part() {
    let report = Report::new();
    let input = AggregatorInput::new(report).with_prefix("/foo/bar").unwrap();
    assert_eq!(input.last_part_of_prefix(), "bar");
}

#[test]
fn when_creating_aggregator_inputs_from_one_config_input_then_key_is_last_part_of_prefix() {
    let input = AggregatorInput::new(Report::new())
        .with_prefix("project/package_1/src")
        .unwrap()
        .with_name("Lib");
    let resolved = AggregatorInput::build_from_inputs(vec![input]);

    assert_eq!(resolved.len(), 1);
    assert_eq!(resolved[0].get_key(), "src");
}

#[test]
fn when_creating_aggregator_inputs_from_two_config_input_with_same_key_then_key_deduplicated() {
    let inputs = vec![
        AggregatorInput::new(Report::new())
            .with_prefix("project/package_1/src")
            .unwrap()
            .with_name("Lib"),
        AggregatorInput::new(Report::new())
            .with_prefix("project/package_2/src")
            .unwrap()
            .with_name("Lib"),
    ];
    let resolved = AggregatorInput::build_from_inputs(inputs);

    assert_eq!(resolved.len(), 2);
    assert_eq!(resolved[0].get_key(), "src_1");
    assert_eq!(resolved[1].get_key(), "src_2");
}

#[test]
fn a_key_no_other_input_wants_stays_bare_while_colliding_keys_are_numbered() {
    let inputs = vec![
        AggregatorInput::new(Report::new()).with_prefix("a/src").unwrap(),
        AggregatorInput::new(Report::new()).with_prefix("b/lib").unwrap(),
        AggregatorInput::new(Report::new()).with_prefix("c/src").unwrap(),
    ];
    let resolved = AggregatorInput::build_from_inputs(inputs);

    assert_eq!(resolved[0].get_key(), "src_1");
    assert_eq!(resolved[1].get_key(), "lib");
    assert_eq!(resolved[2].get_key(), "src_2");
}

#[test]
fn the_display_name_falls_back_to_the_last_prefix_component() {
    let named = AggregatorInput::new(Report::new())
        .with_prefix("a/b")
        .unwrap()
        .with_name("Lib");
    assert_eq!(named.get_name(), "Lib");

    let unnamed = AggregatorInput::new(Report::new()).with_prefix("a/b").unwrap();
    assert_eq!(unnamed.get_name(), "b");
}
