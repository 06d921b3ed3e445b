use lcov_aggregator_report::simple_html::Div;
use lcov_aggregator_report::simple_html::Link;
use lcov_aggregator_report::simple_html::Text;
use lcov_aggregator_report::simple_html::ToHtml;

#[test]
fn mod_empty_div_shall_render() {
    let div = Div::new();
    assert_eq!(div.to_html(), "<div />");
}

#[test]
fn mod_empty_div_with_class_shall_render() {
    let div = Div::new().with_class("my-class");
    assert_eq!(div.to_html(), "<div class=\"my-class\" />");
}

#[test]
fn mod_empty_div_with_two_classes_shall_render() {
    let div = Div::new()
        .with_class("my-class")
        .with_class("my-other-class");
    assert_eq!(div.to_html(), "<div class=\"my-class my-other-class\" />");
}

#[test]
fn mod_div_with_one_child_shall_render() {
    let div = Div::new()
        .with_class("my-class")
        .with_child(Div::new().with_class("child-class"));
    assert_eq!(
        div.to_html(),
        "<div class=\"my-class\"><div class=\"child-class\" /></div>"
    );
}

#[test]
fn mod_div_with_two_children_shall_render() {
    let div = Div::new()
        .with_class("my-class")
        .with_child(Div::new().with_class("child1-class"))
        .with_child(Div::new().with_class("child2-class"));
    assert_eq!(
        div.to_html(),
        "<div class=\"my-class\"><div class=\"child1-class\" /><div class=\"child2-class\" /></div>"
    );
}

#[test]
fn mod_text_shall_render() {
    let text = Text::new("Hello, World!");
    assert_eq!(text.to_html(), "Hello, World!");
}

#[test]
fn mod_h1_shall_render() {
    let text = Text::h1("Hello, World!");
    assert_eq!(text.to_html(), "<h1>Hello, World!</h1>");
}

#[test]
fn mod_h2_shall_render() {
    let text = Text::h2("Hello, World!");
    assert_eq!(text.to_html(), "<h2>Hello, World!</h2>");
}

#[test]
fn mod_div_with_text_shall_render() {
    let div = Div::new()
        .with_class("my-class")
        .with_child(Text::new("Hello, World!"));
    assert_eq!(div.to_html(), "<div class=\"my-class\">Hello, World!</div>");
}

#[test]
fn mod_div_with_direct_text_shall_render() {
    let div = Div::new().with_class("my-class").with_text("Hello, World!");
    assert_eq!(div.to_html(), "<div class=\"my-class\">Hello, World!</div>");
}

#[test]
fn mod_div_with_children_iter_shall_render() {
    let binding = vec![0, 1, 2];
    let children = binding
        .iter()
        .map(|i| Div::new().with_child(Text::new(&format!("c{}", i))))
        .collect::<Vec<_>>();

    let div = Div::new().with_class("my-class").with_children(children);
    assert_eq!(
        div.to_html(),
        "<div class=\"my-class\"><div>c0</div><div>c1</div><div>c2</div></div>"
    );
}

#[test]
fn mod_link_shall_render() {
    let link = Link::new("https://example.com", "Example");
    assert_eq!(link.to_html(), "<a href=\"https://example.com\">Example</a>");
}

#[test]
fn mod_div_with_text_with_brackets_shall_be_escaped() {
    let div = Div::new()
        .with_class("my-class")
        .with_text("<Hello, World!>");
    assert_eq!(
        div.to_html(),
        "<div class=\"my-class\">&lt;Hello, World!&gt;</div>"
    );
}

#[test]
fn mod_link_content_shall_be_escaped() {
    let link = Link::new("https://<example>.com", "<Example>");
    assert_eq!(
        link.to_html(),
        "<a href=\"https://<example>.com\">&lt;Example&gt;</a>"
    );
}
