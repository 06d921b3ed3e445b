use lcov::report::section::Key as SectionKey;
use lcov::report::section::Value as SectionValue;
use std::path::PathBuf;

use lcov_aggregator_report::components::ToHtml;
use lcov_aggregator_report::fixtures::AggregatedFixtures;
use lcov_aggregator_report::CodeLines;
use lcov_aggregator_report::TestedCodeFile;
use lcov_aggregator_report::TextSinglePageRenderer;

fn insert_line(mut value: SectionValue, line: u32, count: u64) -> SectionValue {
    value.lines.insert(
        lcov::report::section::line::Key { line },
        lcov::report::section::line::Value {
            count,
            checksum: None,
        },
    );
    value
}

#[test]
fn when_rendering_simple_report_module_coverage_it_shall_display_all_modules_and_files() {
    let report = AggregatedFixtures::get_simple_full_report();
    let renderer = TextSinglePageRenderer;
    let rendered = renderer.render_root_coverage_details(&report);
    assert_eq!(
        rendered,
        r#"Test report:
  - Lines            5/6   83.33%
  - Functions        3/3  100.00%
  - Branches         1/2   50.00%

Details:

  main.cpp                                         Lines        3/4   75.00%    Functions        2/2  100.00%    Branches        1/2   50.00%
  module                                           Lines        2/2  100.00%    Functions        1/1  100.00%    Branches        0/0        -
    nested.cpp                                     Lines        2/2  100.00%    Functions        1/1  100.00%    Branches        0/0        -
"#
    );
}

#[test]
fn test_render_lines() {
    let section = insert_line(
        insert_line(insert_line(insert_line(SectionValue::default(), 1, 3), 2, 1), 3, 0),
        4,
        2,
    );
    let key = SectionKey {
        source_file: PathBuf::from("file.cpp"),
        test_name: String::from(""),
    };
    let file = TestedCodeFile::from_section(key, section, "", "");
    let lines = CodeLines::new(
        &file,
        vec![
            String::from("line 1"),
            String::from("line 2"),
            String::from("line 3"),
            String::from("line 4"),
        ],
    );

    let expected = [
        "<table>",
        r#"<tr class="line-not-tested"><td>1</td><td></td><td><pre>line 1</pre></td></tr>"#,
        r#"<tr class="line-covered"><td>2</td><td>3</td><td><pre>line 2</pre></td></tr>"#,
        r#"<tr class="line-covered"><td>3</td><td>1</td><td><pre>line 3</pre></td></tr>"#,
        r#"<tr class="line-not-covered"><td>4</td><td>0</td><td><pre>line 4</pre></td></tr>"#,
        "</table>",
    ]
    .join("");
    assert_eq!(lines.to_html(), expected);
}
