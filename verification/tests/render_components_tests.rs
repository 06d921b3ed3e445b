use lcov_aggregator_report::components::ToHtml;
use lcov_aggregator_report::render_aggregated_coverage_chips;
use lcov_aggregator_report::AggregatedCoverage;
use lcov_aggregator_report::AggregatedCoverageCounters;
use lcov_aggregator_report::CoverageChip;
use lcov_aggregator_report::CoverageGauges;
use lcov_aggregator_report::FileIcon;
use lcov_aggregator_report::HtmlNode;

fn aggregate(
    lines: (u32, u32),
    functions: (u32, u32),
    branches: (u32, u32),
) -> AggregatedCoverage {
    AggregatedCoverage {
        lines: AggregatedCoverageCounters::new(lines.0, lines.1),
        functions: AggregatedCoverageCounters::new(functions.0, functions.1),
        branches: AggregatedCoverageCounters::new(branches.0, branches.1),
    }
}

#[test]
fn when_rendering_a_single_chip_it_shall_have_all_infos() {
    let counter = AggregatedCoverageCounters::new(10, 5);
    let chip = CoverageChip::new("Lines", &counter);
    let html = chip.to_html();

    assert!(html.contains("Lines 5/10"));
    assert!(html.contains("50.00%"));
}

#[test]
fn when_rendering_multiple_chips_it_shall_have_all_infos() {
    let coverage = aggregate((10, 5), (10, 4), (10, 3));

    let chips = render_aggregated_coverage_chips(&coverage);
    assert_eq!(chips.len(), 3);

    let html = chips.iter().map(|chip| chip.to_html()).collect::<Vec<_>>();
    assert!(html[0].contains("Lines 5/10"));
    assert!(html[0].contains("50.00%"));
    assert!(html[1].contains("Functions 4/10"));
    assert!(html[1].contains("40.00%"));
    assert!(html[2].contains("Branches 3/10"));
    assert!(html[2].contains("30.00%"));
}

#[test]
fn test_coverage_gauges() {
    let coverage = aggregate((10, 5), (10, 4), (10, 3));
    let gauges = CoverageGauges::new(&coverage, true);
    let html = gauges.to_html();

    assert!(
        html.contains(
            r##"<div class="gauge-c bg-5" style="transform: rotate(0.25turn)"></div><div class="gauge-data"><span class="percent">50.00%</span></div></div><div><a href="#lines">Lines 5/10</a></div>"##,
        ),
    );

    assert!(
        html.contains(
            r##"<div class="gauge-c bg-4" style="transform: rotate(0.20turn)"></div><div class="gauge-data"><span class="percent">40.00%</span></div></div><div><a href="#functions">Functions 4/10</a></div>"##,
        ),
    );

    assert!(
        html.contains(
            r##"<div class="gauge-c bg-3" style="transform: rotate(0.15turn)"></div><div class="gauge-data"><span class="percent">30.00%</span></div></div><div>Branches 3/10</div>"##,
        ),
    );
}

#[test]
fn get_icon_key_should_return_rust_icon_key() {
    assert_eq!(FileIcon::get_icon_key("src/main.rs"), Some("rust.svg"));
}

#[test]
fn get_icon_key_should_return_dart_icon_key() {
    assert_eq!(FileIcon::get_icon_key("src/main.dart"), Some("dart.svg"));
}

#[test]
fn get_icon_key_should_return_none() {
    assert_eq!(FileIcon::get_icon_key("src/main.unknown"), None);
}

#[test]
fn get_resources_required_by_file_should_return_rust_resources() {
    assert_eq!(
        FileIcon::get_resources_required_by_file("src/main.rs"),
        Some(("rust.svg", lcov_aggregator_report::file_icon::RUST_ICON_SVG))
    );
}

#[test]
fn get_resources_required_by_file_should_return_dart_resources() {
    assert_eq!(
        FileIcon::get_resources_required_by_file("src/main.dart"),
        Some(("dart.svg", lcov_aggregator_report::file_icon::DART_ICON_SVG))
    );
}

#[test]
fn get_resources_required_by_file_should_return_none() {
    assert_eq!(FileIcon::get_resources_required_by_file("src/main.js"), None);
}

#[test]
fn test_create_div() {
    let div = HtmlNode::div();
    assert_eq!(div.render(), "<div></div>");
}

#[test]
fn test_create_div_with_children() {
    let mut div = HtmlNode::div();
    let span = HtmlNode::span();
    div.add_child(span);
    assert_eq!(div.render(), "<div><span></span></div>");
}

#[test]
fn test_create_nested_divs() {
    let mut div = HtmlNode::div();
    let mut span = HtmlNode::span();
    let strong = HtmlNode::strong();
    span.add_child(strong);
    div.add_child(span);
    assert_eq!(div.render(), "<div><span><strong></strong></span></div>");
}

#[test]
fn test_create_div_with_text() {
    let mut div = HtmlNode::div();
    let text = HtmlNode::text("Hello, world!");
    div.add_child(text);
    assert_eq!(div.render(), "<div>Hello, world!</div>");
}
