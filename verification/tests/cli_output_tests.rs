use std::cell::RefCell;

use lcov_aggregator_report::CliOutput;
use lcov_aggregator_report::Config;
use lcov_aggregator_report::Input;
use lcov_aggregator_report::Printer;
use lcov_aggregator_report::Reporter;

/// A printer that keeps every line so a test can check what was printed.
struct RecordingPrinter {
    lines: RefCell<Vec<String>>,
}

impl RecordingPrinter {
    fn new() -> Self {
        RecordingPrinter {
            lines: RefCell::new(Vec::new()),
        }
    }
}

impl Printer for RecordingPrinter {
    fn println(&self, message: &str) {
        self.lines.borrow_mut().push(message.to_string());
    }
}

fn stripped(message: &str) -> String {
    let message = message.replace("\x1b[1m", "");
    let message = message.replace("\x1b[32m", "");
    let message = message.replace("\x1b[31m", "");
    let message = message.replace("\x1b[0m", "");
    message.trim().to_string()
}

#[test]
fn test_print_introduction() {
    let output = CliOutput::new(RecordingPrinter::new());
    output.print_introduction(&Config {
        name: "test".to_string(),
        inputs: vec![
            Input::from_name_and_path("test1".to_string(), "test1/test1".to_string()),
            Input::from_path("test2".to_string()),
        ],
        output: "test".to_string(),
        reporter: Reporter::MpaHtmlLightReporter,
    });

    let lines = output.console.lines.borrow();
    let messages = lines.iter().map(|l| stripped(l)).collect::<Vec<_>>();
    assert_eq!(
        messages,
        vec![
            "Generating HTML report for 2 input(s) lcov files",
            "Report name: 'test'",
            "Reporter: 'html-full-light'",
            "Inputs:",
            "- test1: test1/test1",
            "- test2",
        ]
    );
}

#[test]
fn test_print_conclusion() {
    let output = CliOutput::new(RecordingPrinter::new());
    output.print_conclusion("test");

    let lines = output.console.lines.borrow();
    assert_eq!(lines.len(), 1);
    assert_eq!(stripped(&lines[0]), "Success Report generated at test");
}

#[test]
fn text_print_error() {
    let output = CliOutput::new(RecordingPrinter::new());
    output.print_error("test");

    let lines = output.console.lines.borrow();
    assert_eq!(lines.len(), 1);
    assert_eq!(stripped(&lines[0]), "Error test");
}
