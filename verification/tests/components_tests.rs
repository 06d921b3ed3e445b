use lcov_aggregator_report::components::Div;
use lcov_aggregator_report::components::Img;
use lcov_aggregator_report::components::Link;
use lcov_aggregator_report::components::Pre;
use lcov_aggregator_report::components::Row;
use lcov_aggregator_report::components::Table;
use lcov_aggregator_report::components::Text;
use lcov_aggregator_report::components::ToHtml;

#[test]
fn components_empty_div_shall_render() {
    let div = Div::new();
    assert_eq!(div.to_html(), "<div></div>");
}

#[test]
fn components_empty_div_with_class_shall_render() {
    let div = Div::new().with_class("my-class");
    assert_eq!(div.to_html(), "<div class=\"my-class\"></div>");
}

#[test]
fn components_empty_div_with_two_classes_shall_render() {
    let div = Div::new()
        .with_class("my-class")
        .with_class("my-other-class");
    assert_eq!(div.to_html(), "<div class=\"my-class my-other-class\"></div>");
}

#[test]
fn components_div_with_one_child_shall_render() {
    let div = Div::new()
        .with_class("my-class")
        .with_child(Div::new().with_class("child-class"));
    assert_eq!(
        div.to_html(),
        "<div class=\"my-class\"><div class=\"child-class\"></div></div>"
    );
}

#[test]
fn components_div_with_two_children_shall_render() {
    let div = Div::new()
        .with_class("my-class")
        .with_child(Div::new().with_class("child1-class"))
        .with_child(Div::new().with_class("child2-class"));
    assert_eq!(
        div.to_html(),
        "<div class=\"my-class\"><div class=\"child1-class\"></div><div class=\"child2-class\"></div></div>"
    );
}

#[test]
fn components_text_shall_render() {
    let text = Text::new("Hello, World!");
    assert_eq!(text.to_html(), "Hello, World!");
}

#[test]
fn components_h1_shall_render() {
    let text = Text::h1("Hello, World!");
    assert_eq!(text.to_html(), "<h1>Hello, World!</h1>");
}

#[test]
fn components_h2_shall_render() {
    let text = Text::h2("Hello, World!");
    assert_eq!(text.to_html(), "<h2>Hello, World!</h2>");
}

#[test]
fn h2_with_class_names_shall_render() {
    let text = Text::h2("Hello, World!")
        .with_class("my-class")
        .with_class("my-other-class");
    assert_eq!(
        text.to_html(),
        "<h2 class=\"my-class my-other-class\">Hello, World!</h2>"
    );
}

#[test]
fn h6_shall_render() {
    let text = Text {
        level: 6,
        content: "Hello, World!".to_string(),
        class_names: Vec::new(),
    };
    assert_eq!(text.to_html(), "<h6>Hello, World!</h6>");
}

#[test]
fn components_div_with_text_shall_render() {
    let div = Div::new()
        .with_class("my-class")
        .with_child(Text::new("Hello, World!"));
    assert_eq!(div.to_html(), "<div class=\"my-class\">Hello, World!</div>");
}

#[test]
fn components_div_with_direct_text_shall_render() {
    let div = Div::new().with_class("my-class").with_text("Hello, World!");
    assert_eq!(div.to_html(), "<div class=\"my-class\">Hello, World!</div>");
}

#[test]
fn components_div_with_children_iter_shall_render() {
    let binding = vec![0, 1, 2];
    let children = binding
        .iter()
        .map(|i| Div::new().with_child(Text::new(&format!("c{}", i))))
        .collect::<Vec<_>>();

    let div = Div::new().with_class("my-class").with_children(children);
    assert_eq!(
        div.to_html(),
        "<div class=\"my-class\"><div>c0</div><div>c1</div><div>c2</div></div>"
    );
}

#[test]
fn components_link_shall_render() {
    let link = Link::from_text("https://example.com", "Example");
    assert_eq!(link.to_html(), "<a href=\"https://example.com\">Example</a>");
}

#[test]
fn link_with_h2_inside_shall_render() {
    let link = Link::from_child("https://example.com", &Text::h2("Example"));
    assert_eq!(
        link.to_html(),
        "<a href=\"https://example.com\"><h2>Example</h2></a>"
    );
}

#[test]
fn components_div_with_text_with_brackets_shall_be_escaped() {
    let div = Div::new()
        .with_class("my-class")
        .with_text("<Hello, World!>");
    assert_eq!(
        div.to_html(),
        "<div class=\"my-class\">&lt;Hello, World!&gt;</div>"
    );
}

#[test]
fn components_link_content_shall_be_escaped() {
    let link = Link::from_text("https://<example>.com", "<Example>");
    assert_eq!(
        link.to_html(),
        "<a href=\"https://<example>.com\">&lt;Example&gt;</a>"
    );
}

#[test]
fn img_shall_render() {
    let img = Img::new("https://example.com/image.png", "Example");
    assert_eq!(
        img.to_html(),
        "<img src=\"https://example.com/image.png\" alt=\"Example\" />"
    );
}

#[test]
fn img_alt_text_shall_be_escaped() {
    let img = Img::new("https://example.com/image.png", "<Example>");
    assert_eq!(
        img.to_html(),
        "<img src=\"https://example.com/image.png\" alt=\"&lt;Example&gt;\" />"
    );
}

#[test]
fn div_with_img_shall_render() {
    let div = Div::new()
        .with_class("my-class")
        .with_child(Img::new("https://example.com/image.png", "Example"));
    assert_eq!(
        div.to_html(),
        "<div class=\"my-class\"><img src=\"https://example.com/image.png\" alt=\"Example\" /></div>"
    );
}

#[test]
fn pre_shall_render() {
    let pre = Pre::new("Hello, World!");
    assert_eq!(pre.to_html(), "<pre>Hello, World!</pre>");
}

#[test]
fn empty_table_shall_render() {
    let table = Table::new();
    assert_eq!(table.to_html(), "<table></table>");
}

#[test]
fn table_with_2_rows_shall_render() {
    let table = Table::new()
        .with_row(
            Row::new()
                .with_cell(Text::new("r1c1"))
                .with_cell(Text::new("r1c2")),
        )
        .with_row(
            Row::new()
                .with_cell(Text::new("r2c1"))
                .with_cell(Text::new("r2c2")),
        );
    assert_eq!(
        table.to_html(),
        "<table><tr><td>r1c1</td><td>r1c2</td></tr><tr><td>r2c1</td><td>r2c2</td></tr></table>"
    );
}

#[test]
fn table_built_from_row_iterator_shall_render() {
    let rows = vec![
        Row::new()
            .with_cell(Text::new("r1c1"))
            .with_cell(Text::new("r1c2")),
        Row::new()
            .with_cell(Text::new("r2c1"))
            .with_cell(Text::new("r2c2")),
    ];

    let table = Table::new().with_rows(rows);
    assert_eq!(
        table.to_html(),
        "<table><tr><td>r1c1</td><td>r1c2</td></tr><tr><td>r2c1</td><td>r2c2</td></tr></table>"
    );
}
