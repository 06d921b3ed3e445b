use lcov::report::section::Value as SectionValue;

use lcov_aggregator_report::fixtures::AggregatedFixtures;
use lcov_aggregator_report::AggregatedCoverage;
use lcov_aggregator_report::AggregatedCoverageCounters;

fn assert_aggregated_counters_eq(counters: &AggregatedCoverageCounters, count: u32, covered_count: u32) {
    assert_eq!(counters.count, count);
    assert_eq!(counters.covered_count, covered_count);
}

fn insert_line(mut value: SectionValue, line: u32, count: u64) -> SectionValue {
    value.lines.insert(
        lcov::report::section::line::Key { line },
        lcov::report::section::line::Value {
            count,
            checksum: None,
        },
    );
    value
}

fn insert_function(mut value: SectionValue, name: &str, count: u64) -> SectionValue {
    value.functions.insert(
        lcov::report::section::function::Key {
            name: name.to_string(),
        },
        lcov::report::section::function::Value {
            start_line: None,
            count,
        },
    );
    value
}

fn insert_branch(mut value: SectionValue, line: u32, count: u64) -> SectionValue {
    value.branches.insert(
        lcov::report::section::branch::Key {
            line,
            block: 0,
            branch: 0,
        },
        lcov::report::section::branch::Value { taken: Some(count) },
    );
    value
}

#[test]
fn when_creating_an_aggregate_from_scratch_line_count_shall_be_0() {
    let aggregated = AggregatedCoverage::default();
    assert_aggregated_counters_eq(&aggregated.lines, 0, 0);
}

#[test]
fn when_creating_an_aggregate_from_scratch_function_count_shall_be_0() {
    let aggregated = AggregatedCoverage::default();
    assert_aggregated_counters_eq(&aggregated.functions, 0, 0);
}

#[test]
fn when_creating_an_aggregate_from_scratch_branch_count_shall_be_0() {
    let aggregated = AggregatedCoverage::default();
    assert_aggregated_counters_eq(&aggregated.branches, 0, 0);
}

#[test]
fn when_adding_an_aggregate_to_another_the_counters_result_should_be_the_sum_of_both() {
    let mut aggregated = AggregatedFixtures::get_file_aggregates_10_5();
    let other = AggregatedFixtures::get_file_aggregates_20_10();
    aggregated.add(&other);

    assert_aggregated_counters_eq(&aggregated.lines, 30, 15);
    assert_aggregated_counters_eq(&aggregated.functions, 9, 7);
    assert_aggregated_counters_eq(&aggregated.branches, 3, 2);

    assert_aggregated_counters_eq(&other.lines, 20, 10);
    assert_aggregated_counters_eq(&other.functions, 7, 6);
    assert_aggregated_counters_eq(&other.branches, 0, 0);
}

#[test]
fn when_creating_from_an_empty_section_line_counts_shall_be_0() {
    let section_value = SectionValue::default();
    let aggregated = AggregatedCoverage::from_section(&section_value);

    assert_aggregated_counters_eq(&aggregated.lines, 0, 0);
    assert_aggregated_counters_eq(&aggregated.functions, 0, 0);
    assert_aggregated_counters_eq(&aggregated.branches, 0, 0);
}

#[test]
fn when_creating_from_a_section_with_1_line_3_hit_it_shall_be_1_1() {
    let section_value = insert_line(SectionValue::default(), 1, 3);

    let aggregated = AggregatedCoverage::from_section(&section_value);
    assert_aggregated_counters_eq(&aggregated.lines, 1, 1);
}

#[test]
fn when_creating_from_a_section_with_1_function_3_hit_it_shall_be_1_1() {
    let section_value = insert_function(SectionValue::default(), "f", 3);

    let aggregated = AggregatedCoverage::from_section(&section_value);
    assert_aggregated_counters_eq(&aggregated.functions, 1, 1);
}

#[test]
fn when_creating_from_a_section_with_1_branch_3_hit_it_shall_be_1_1() {
    let section_value = insert_branch(SectionValue::default(), 1, 3);

    let aggregated = AggregatedCoverage::from_section(&section_value);
    assert_aggregated_counters_eq(&aggregated.branches, 1, 1);
}

#[test]
fn when_creating_from_a_section_with_1_line_0_hit_it_shall_be_1_0() {
    let section_value = insert_line(SectionValue::default(), 1, 0);

    let aggregated = AggregatedCoverage::from_section(&section_value);
    assert_aggregated_counters_eq(&aggregated.lines, 1, 0);
}

#[test]
fn when_creating_from_a_section_with_1_function_0_hit_it_shall_be_1_0() {
    let section_value = insert_function(SectionValue::default(), "f", 0);

    let aggregated = AggregatedCoverage::from_section(&section_value);
    assert_aggregated_counters_eq(&aggregated.functions, 1, 0);
}

#[test]
fn when_creating_from_a_section_with_1_branch_0_hit_it_shall_be_1_0() {
    let section_value = insert_branch(SectionValue::default(), 1, 0);

    let aggregated = AggregatedCoverage::from_section(&section_value);
    assert_aggregated_counters_eq(&aggregated.branches, 1, 0);
}

#[test]
fn when_creating_from_a_section_with_3_lines_2_covered_it_shall_be_3_2() {
    let section_value = insert_line(
        insert_line(insert_line(SectionValue::default(), 1, 0), 2, 3),
        3,
        1,
    );

    let aggregated = AggregatedCoverage::from_section(&section_value);
    assert_aggregated_counters_eq(&aggregated.lines, 3, 2);
}

#[test]
fn when_creating_from_a_section_with_3_functions_2_covered_it_shall_be_3_2() {
    let section_value = insert_function(
        insert_function(insert_function(SectionValue::default(), "f1", 0), "f2", 3),
        "f3",
        1,
    );

    let aggregated = AggregatedCoverage::from_section(&section_value);
    assert_aggregated_counters_eq(&aggregated.functions, 3, 2);
}

#[test]
fn when_creating_from_a_section_with_3_branches_2_covered_it_shall_be_3_2() {
    let section_value = insert_branch(
        insert_branch(insert_branch(SectionValue::default(), 1, 0), 2, 3),
        3,
        1,
    );

    let aggregated = AggregatedCoverage::from_section(&section_value);
    assert_aggregated_counters_eq(&aggregated.branches, 3, 2);
}

#[test]
fn percentage_is_undefined_for_an_empty_counter() {
    let counter = AggregatedCoverageCounters::new(0, 0);
    assert_eq!(counter.percentage_hundredths(), None);
}

#[test]
fn percentage_rounds_to_the_nearest_hundredth() {
    let counter = AggregatedCoverageCounters::new(6, 5);
    assert_eq!(counter.percentage_hundredths(), Some(8333));
    let counter = AggregatedCoverageCounters::new(2, 1);
    assert_eq!(counter.percentage_hundredths(), Some(5000));
}

#[test]
fn a_branch_with_no_taken_count_is_counted_but_not_covered() {
    let mut value = SectionValue::default();
    value.branches.insert(
        lcov::report::section::branch::Key {
            line: 1,
            block: 0,
            branch: 0,
        },
        lcov::report::section::branch::Value { taken: None },
    );
    let aggregated = AggregatedCoverage::from_section(&value);
    assert_aggregated_counters_eq(&aggregated.branches, 1, 0);
}
