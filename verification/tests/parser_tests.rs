use lcov_aggregator_report::CliCommand;
use lcov_aggregator_report::CliConfigParser;
use lcov_aggregator_report::Config;
use lcov_aggregator_report::Input;
use lcov_aggregator_report::Reporter;

fn parse(args: &str) -> Result<CliConfigParser, String> {
    let args = args
        .split_whitespace()
        .map(|s| s.to_string())
        .collect::<Vec<_>>();
    CliConfigParser::new().parse(&args)
}

fn default_config() -> Config {
    Config {
        name: String::new(),
        inputs: vec![],
        output: String::new(),
        reporter: Reporter::MpaHtmlLightReporter,
    }
}

#[test]
fn parser_when_providing_output_only_it_shall_set_default_name() {
    assert_eq!(
        parse("report --output output").unwrap().build().unwrap(),
        CliCommand::Report(Config {
            output: "output".to_string(),
            name: "Test report".to_string(),
            ..default_config()
        })
    );
}

#[test]
fn parser_when_output_is_missing_it_shall_fail_to_build() {
    assert_eq!(
        parse("report --name test").unwrap().build().unwrap_err(),
        "Argument --output is required"
    );
}

#[test]
fn parser_when_providing_name_and_output_it_shall_build_the_config() {
    assert_eq!(
        parse("report --output output --name test")
            .unwrap()
            .build()
            .unwrap(),
        CliCommand::Report(Config {
            output: "output".to_string(),
            name: "test".to_string(),
            ..default_config()
        })
    );
}

#[test]
fn parser_when_providing_output_without_value_it_shall_return_error() {
    assert_eq!(
        parse("report --output").unwrap_err(),
        "Argument --output requires a value"
    );
}

#[test]
fn parser_when_providing_output_twice_it_shall_return_error() {
    assert_eq!(
        parse("report --output output --output output2").unwrap_err(),
        "Argument --output already provided"
    );
}

#[test]
fn parser_when_providing_2_names_it_shall_return_error() {
    assert_eq!(
        parse("report --name test --name test2").unwrap_err(),
        "Argument --name already provided"
    );
}

#[test]
fn parser_when_providing_name_without_value_it_shall_return_error() {
    assert_eq!(
        parse("report --name").unwrap_err(),
        "Argument --name requires a value"
    );
}

#[test]
fn parser_when_providing_unknown_argument_it_shall_return_error() {
    assert_eq!(
        parse("report --unknown").unwrap_err(),
        "Unknown argument: --unknown"
    );
}

#[test]
fn parser_when_specifying_input_with_single_path_it_shall_add_it_to_config() {
    assert_eq!(
        parse("report --output output  --input ~/test.lcov")
            .unwrap()
            .build()
            .unwrap(),
        CliCommand::Report(Config {
            output: "output".to_string(),
            name: "Test report".to_string(),
            inputs: vec![Input::from_path("~/test.lcov".to_string())],
            reporter: Reporter::MpaHtmlLightReporter,
        })
    );
}

#[test]
fn parser_when_specifying_input_with_multiple_paths_it_shall_add_them_to_config() {
    assert_eq!(
        parse("report --output output --input ~/test.lcov --input ~/test2.lcov")
            .unwrap()
            .build()
            .unwrap(),
        CliCommand::Report(Config {
            output: "output".to_string(),
            name: "Test report".to_string(),
            inputs: vec![
                Input::from_path("~/test.lcov".to_string()),
                Input::from_path("~/test2.lcov".to_string())
            ],
            reporter: Reporter::MpaHtmlLightReporter,
        })
    );
}

#[test]
fn parser_when_specifying_input_without_value_it_shall_return_error() {
    assert_eq!(
        parse("report --input").unwrap_err(),
        "Argument --input requires a value"
    );
}

#[test]
fn parser_another_arg_shall_not_count_as_a_value_for_name() {
    assert_eq!(
        parse("report --name --input ~/test.lcov").unwrap_err(),
        "Argument --name requires a value"
    );
}

#[test]
fn parser_when_specifying_single_input_with_2_parts_it_shall_create_a_named_input() {
    assert_eq!(
        parse("report --output output --input named_root ~/test.lcov")
            .unwrap()
            .build()
            .unwrap(),
        CliCommand::Report(Config {
            output: "output".to_string(),
            name: "Test report".to_string(),
            inputs: vec![Input::from_name_and_path(
                "named_root".to_string(),
                "~/test.lcov".to_string()
            )],
            reporter: Reporter::MpaHtmlLightReporter,
        })
    );
}

#[test]
fn parser_when_specifying_single_input_with_3_parts_it_shall_create_a_named_input_with_prefix() {
    assert_eq!(
        parse("report --output output --input named_root /foo/bar ~/test.lcov")
            .unwrap()
            .build()
            .unwrap(),
        CliCommand::Report(Config {
            output: "output".to_string(),
            name: "Test report".to_string(),
            inputs: vec![Input::from_name_prefix_and_path(
                "named_root".to_string(),
                "/foo/bar".to_string(),
                "~/test.lcov".to_string()
            )],
            reporter: Reporter::MpaHtmlLightReporter,
        })
    );
}

#[test]
fn parser_when_specifying_multiple_inputs_with_different_number_of_parts_it_shall_create_each_one_with_correct_variant(
) {
    assert_eq!(
        parse("report --output output --input named_root_1 ~/test.lcov --input ~/test2.lcov --input named_root_3 /foo/bar ~/test3.lcov")
            .unwrap()
            .build().unwrap(),
        CliCommand::Report(Config {
            output: "output".to_string(),
            name: "Test report".to_string(),
            inputs: vec![
                Input::from_name_and_path("named_root_1".to_string(), "~/test.lcov".to_string()),
                Input::from_path("~/test2.lcov".to_string()),
                Input::from_name_prefix_and_path(
                    "named_root_3".to_string(),
                    "/foo/bar".to_string(),
                    "~/test3.lcov".to_string()
                )
            ],
            reporter: Reporter::MpaHtmlLightReporter,
        })
    );
}

#[test]
fn parser_when_using_short_input_command_it_shall_parse_it_correctly() {
    assert_eq!(
        parse("report -o output -i named_root_1 ~/test.lcov -i ~/test2.lcov -i named_root_3 /foo/bar ~/test3.lcov")
            .unwrap()
            .build().unwrap(),
        CliCommand::Report(Config {
            output: "output".to_string(),
            name: "Test report".to_string(),
            inputs: vec![
                Input::from_name_and_path("named_root_1".to_string(), "~/test.lcov".to_string()),
                Input::from_path("~/test2.lcov".to_string()),
                Input::from_name_prefix_and_path(
                    "named_root_3".to_string(),
                    "/foo/bar".to_string(),
                    "~/test3.lcov".to_string()
                )
            ],
            reporter: Reporter::MpaHtmlLightReporter,
        })
    );
}

#[test]
fn parser_when_using_short_name_and_output_command_it_shall_parse_it_correctly() {
    assert_eq!(
        parse("report -o output -n test").unwrap().build().unwrap(),
        CliCommand::Report(Config {
            output: "output".to_string(),
            name: "test".to_string(),
            ..default_config()
        })
    );
}

#[test]
fn parser_when_using_short_commands_it_shall_detect_next_option_not_as_a_value() {
    assert_eq!(
        parse("report -n -i ~/test.lcov").unwrap_err(),
        "Argument -n requires a value"
    );
}

#[test]
fn parser_path_of_input_shall_return_correct_path_for_each_variant() {
    assert_eq!(Input::from_path("path".to_string()).path, "path".to_string());
    assert_eq!(
        Input::from_name_and_path("name".to_string(), "path".to_string()).path,
        "path".to_string()
    );
    assert_eq!(
        Input::from_name_prefix_and_path(
            "name".to_string(),
            "prefix".to_string(),
            "path".to_string()
        )
        .path,
        "path".to_string()
    );
}

#[test]
fn parser_when_running_the_to_file_command_config_shall_be_passed_along_config_path() {
    assert_eq!(
        parse("to-file config.toml -o output")
            .unwrap()
            .build()
            .unwrap(),
        CliCommand::ToFile(
            "config.toml".to_string(),
            Config {
                output: "output".to_string(),
                name: "Test report".to_string(),
                ..default_config()
            }
        )
    );
}

#[test]
fn parser_when_running_from_file_command_it_shall_return_the_config_path() {
    assert_eq!(
        parse("from-file config.toml").unwrap().build().unwrap(),
        CliCommand::FromFile("config.toml".to_string())
    );
}

#[test]
fn parser_when_running_from_file_command_it_shall_return_error_when_another_argument_is_provided() {
    assert_eq!(
        parse("from-file config.toml -o output").unwrap_err(),
        "No other arguments are allowed with from-file command"
    );
}

#[test]
fn when_running_with_reporter_it_shall_set_the_reporter() {
    assert_eq!(
        parse("report --output output --reporter text-summary")
            .unwrap()
            .build()
            .unwrap(),
        CliCommand::Report(Config {
            output: "output".to_string(),
            name: "Test report".to_string(),
            reporter: Reporter::TextSummaryReporter,
            ..default_config()
        })
    );
}

#[test]
fn when_running_with_reporter_alias_it_shall_set_the_reporter() {
    assert_eq!(
        parse("report --output output --reporter html")
            .unwrap()
            .build()
            .unwrap(),
        CliCommand::Report(Config {
            output: "output".to_string(),
            name: "Test report".to_string(),
            reporter: Reporter::MpaHtmlLightReporter,
            ..default_config()
        })
    );
}

#[test]
fn when_specifying_inexistant_reporter_it_shall_fail() {
    assert_eq!(
        parse("report --output output --reporter inexistant").unwrap_err(),
        "Unknown reporter: inexistant. Available reporters are html-full-light, text-summary"
    );
}
