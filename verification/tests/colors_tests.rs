use lcov_aggregator_report::get_percentage_class;
use lcov_aggregator_report::render_optional_percentage;

#[test]
fn render_optional_percentage_should_return_percentage() {
    assert_eq!(render_optional_percentage(Some(10000)), "100.00%");
}

#[test]
fn render_optional_percentage_with_many_decimals_shall_keep_2() {
    assert_eq!(render_optional_percentage(Some(10012)), "100.12%");
}

#[test]
fn render_optional_percentage_should_return_dash() {
    assert_eq!(render_optional_percentage(None), "-");
}

#[test]
fn get_percentage_class_should_return_none() {
    assert_eq!(get_percentage_class("test", &None), "test-none");
}

#[test]
fn get_percentage_class_should_return_the_nearest_ten() {
    assert_eq!(get_percentage_class("test", &Some(100)), "test-0");
    assert_eq!(get_percentage_class("test", &Some(500)), "test-1");
    assert_eq!(get_percentage_class("test", &Some(4200)), "test-4");
    assert_eq!(get_percentage_class("test", &Some(9500)), "test-10");
    assert_eq!(get_percentage_class("test", &Some(9900)), "test-10");
    assert_eq!(get_percentage_class("test", &Some(10000)), "test-10");
}

#[test]
fn percentages_are_rendered_with_two_decimals() {
    assert_eq!(render_optional_percentage(Some(8333)), "83.33%");
    assert_eq!(render_optional_percentage(Some(5000)), "50.00%");
    assert_eq!(render_optional_percentage(Some(7)), "0.07%");
}
