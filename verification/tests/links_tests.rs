use lcov_aggregator_report::MpaLinksComputer;
use lcov_aggregator_report::NodeLocation;

#[test]
fn when_getting_links_to_parent_modules_from_file_shall_return_links_to_index_files() {
    let root = NodeLocation::new("root", "/root", true);
    let file = NodeLocation::new("file.rs", "/root/dir/file.rs", false);
    let computer = MpaLinksComputer;

    let links = computer.get_links_from_file(&root, &file);
    assert_eq!(links.len(), 2);
    assert_eq!(links[0].link, "../index.html");
    assert_eq!(links[0].text, "root");
    assert_eq!(links[1].link, "index.html");
    assert_eq!(links[1].text, "dir");
}

#[test]
fn when_getting_links_to_parent_modules_from_dir_shall_return_links_to_index_files() {
    let root = NodeLocation::new("root", "/root", true);
    let file = NodeLocation::new("module", "/root/module", true);
    let computer = MpaLinksComputer;

    let links = computer.get_links_from_file(&root, &file);
    assert_eq!(links.len(), 1);
    assert_eq!(links[0].link, "../index.html");
    assert_eq!(links[0].text, "root");
}

#[test]
fn when_getting_links_to_module_nested_shall_return_links_to_index_files() {
    let root = NodeLocation::new("root", "/root", true);
    let file = NodeLocation::new("module", "/root/dir/module/", true);
    let computer = MpaLinksComputer;

    let links = computer.get_links_from_file(&root, &file);
    assert_eq!(links.len(), 2);
    assert_eq!(links[0].link, "../../index.html");
    assert_eq!(links[0].text, "root");
    assert_eq!(links[1].link, "../index.html");
    assert_eq!(links[1].text, "dir");
}

#[test]
fn when_getting_links_to_module_from_root_shall_return_empty() {
    let root = NodeLocation::new("root", "/root", true);
    let file = NodeLocation::new("root", "/root", true);
    let computer = MpaLinksComputer;

    let links = computer.get_links_from_file(&root, &file);
    assert_eq!(links.len(), 0);
}

#[test]
fn when_getting_link_to_file_it_shall_add_html_extension() {
    let root = NodeLocation::new("root", "/root", true);
    let file = NodeLocation::new("file.rs", "/root/dir/file.rs", false);
    let computer = MpaLinksComputer;

    let link = computer.get_link_to(&root, &file);
    assert_eq!(link.link, "dir/file.rs.html");
    assert_eq!(link.text, "file.rs");
}

#[test]
fn when_getting_link_to_file_from_empty_root_it_shall_add_html_extension() {
    let root = NodeLocation::new("root", "", true);
    let file = NodeLocation::new("file.rs", "dir/file.rs", false);
    let computer = MpaLinksComputer;

    let link = computer.get_link_to(&root, &file);
    assert_eq!(link.link, "dir/file.rs.html");
    assert_eq!(link.text, "file.rs");
}

#[test]
fn when_getting_link_to_module_it_shall_add_index_html_to_path() {
    let root = NodeLocation::new("root", "/root", true);
    let file = NodeLocation::new("module", "/root/dir/module/", true);
    let computer = MpaLinksComputer;

    let link = computer.get_link_to(&root, &file);
    assert_eq!(link.link, "dir/module/index.html");
    assert_eq!(link.text, "module");
}

#[test]
fn when_getting_resource_from_root_it_shall_get_a_relative_down_path() {
    let root = NodeLocation::new("root", "/root", true);
    let current = NodeLocation::new("root", "/root", true);
    let computer = MpaLinksComputer;

    let link = computer.get_link_to_resource(&root, &current, "resource.svg");
    assert_eq!(link, "_resources/resource.svg");
}

#[test]
fn when_getting_resource_from_module_it_shall_get_a_relative_down_path() {
    let root = NodeLocation::new("root", "/root", true);
    let current = NodeLocation::new("module", "/root/module", true);
    let computer = MpaLinksComputer;

    let link = computer.get_link_to_resource(&root, &current, "resource.svg");
    assert_eq!(link, "../_resources/resource.svg");
}

#[test]
fn when_getting_resource_from_file_it_shall_get_a_relative_down_path() {
    let root = NodeLocation::new("root", "/root", true);
    let current = NodeLocation::new("file.rs", "/root/module/file.rs", false);
    let computer = MpaLinksComputer;

    let link = computer.get_link_to_resource(&root, &current, "resource.svg");
    assert_eq!(link, "../_resources/resource.svg");
}

#[test]
fn breadcrumbs_from_a_file_round_trip_to_every_ancestor_index_page() {
    let root = NodeLocation::new("root", "/root", true);
    let file = NodeLocation::new("file.cpp", "/root/dir/file.cpp", false);
    let computer = MpaLinksComputer;

    let links = computer.get_links_from_file(&root, &file);
    let pairs = links
        .iter()
        .map(|l| (l.link.as_str(), l.text.as_str()))
        .collect::<Vec<_>>();
    assert_eq!(pairs, vec![("../index.html", "root"), ("index.html", "dir")]);
}

#[test]
fn resource_links_from_the_empty_root_and_from_a_nested_file() {
    let computer = MpaLinksComputer;
    let root = NodeLocation::new("", "", true);

    let from_root = computer.get_link_to_resource(&root, &root, "resource.svg");
    assert_eq!(from_root, "_resources/resource.svg");

    let file = NodeLocation::new("file.cpp", "module/file.cpp", false);
    let from_file = computer.get_link_to_resource(&root, &file, "resource.svg");
    assert_eq!(from_file, "../_resources/resource.svg");
}

#[test]
fn clean_locations_are_recognised_and_dot_steps_are_not() {
    assert!(lcov_aggregator_report::location_is_clean(&NodeLocation::new(
        "file.cpp",
        "module/file.cpp",
        false
    )));
    assert!(lcov_aggregator_report::location_is_clean(&NodeLocation::new("root", "", true)));
    assert!(!lcov_aggregator_report::location_is_clean(&NodeLocation::new(
        "file.cpp",
        "module/../file.cpp",
        false
    )));
    assert!(!lcov_aggregator_report::location_is_clean(&NodeLocation::new(
        "file.cpp",
        "./file.cpp",
        false
    )));
}

#[test]
fn containment_of_a_file_under_its_root_is_recognised() {
    let root = NodeLocation::new("root", "/root", true);
    let file = NodeLocation::new("file.cpp", "/root/dir/file.cpp", false);
    assert!(lcov_aggregator_report::location_is_under(&root, &file));

    let outside = NodeLocation::new("file.cpp", "/elsewhere/file.cpp", false);
    assert!(!lcov_aggregator_report::location_is_under(&root, &outside));

    let top_level_file = NodeLocation::new("file.cpp", "", false);
    assert!(!lcov_aggregator_report::location_is_under(&root, &top_level_file));
}
