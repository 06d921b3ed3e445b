use vstd::prelude::*;

use crate::config::Config;
use crate::config::reporter_word;
use crate::config::Input;
use crate::config::Reporter;
use crate::text::pad_left;
use crate::text::spaces;
use crate::text::u64_to_dec_string;

verus! {

/// A sink for console lines; the real console lives with the embedding
/// program, tests record what was printed.
pub trait Printer {
    fn println(&self, message: &str);
}

/// A status line: bold green right-aligned title, then the message.
pub open spec fn status_message(title: Seq<char>, status: Seq<char>) -> Seq<char> {
    "\u{1b}[1m"@ + "\u{1b}[32m"@ + (if title.len() >= 12 {
        title
    } else {
        spaces((12 - title.len()) as nat) + title
    }) + seq![' '] + "\u{1b}[0m"@ + status
}

/// An error line: bold red right-aligned error marker, then the message.
pub open spec fn error_message(error: Seq<char>) -> Seq<char> {
    "\u{1b}[1m"@ + "\u{1b}[31m"@ + spaces(7) + "Error"@ + seq![' '] + "\u{1b}[0m"@ + error
}

/// The line counting the inputs about to be aggregated.
pub open spec fn intro_count_line(n: nat) -> Seq<char> {
    "HTML report for "@ + crate::text::dec_str(n) + " input(s) lcov files"@
}

/// The line naming the report.
pub open spec fn report_name_line(name: Seq<char>) -> Seq<char> {
    "Report name: '"@ + name + "'"@
}

/// The line naming the reporter.
pub open spec fn reporter_line(r: Reporter) -> Seq<char> {
    "Reporter: '"@ + reporter_word(r) + "'"@
}

/// The line naming where the report was written.
pub open spec fn conclusion_line(output: Seq<char>) -> Seq<char> {
    "Report generated at "@ + output
}

/// Builds the input-count line.
pub fn render_intro_count_line(n: u64) -> (r: String)
    ensures
        r@ == intro_count_line(n as nat),
{
    let mut r = String::from_str("HTML report for ");
    r.append(u64_to_dec_string(n).as_str());
    r.append(" input(s) lcov files");
    proof {
        reveal_strlit("HTML report for ");
        reveal_strlit(" input(s) lcov files");
        assert(r@ =~= intro_count_line(n as nat));
    }
    r
}

/// Builds the report-name line.
pub fn render_report_name_line(name: &str) -> (r: String)
    ensures
        r@ == report_name_line(name@),
{
    let mut r = String::from_str("Report name: '");
    r.append(name);
    r.append("'");
    proof {
        reveal_strlit("Report name: '");
        reveal_strlit("'");
        assert(r@ =~= report_name_line(name@));
    }
    r
}

/// Builds the reporter line.
pub fn render_reporter_line(reporter: &Reporter) -> (r: String)
    ensures
        r@ == reporter_line(*reporter),
{
    let mut r = String::from_str("Reporter: '");
    r.append(reporter.to_str());
    r.append("'");
    proof {
        reveal_strlit("Reporter: '");
        reveal_strlit("'");
        assert(r@ =~= reporter_line(*reporter));
    }
    r
}

/// Builds the conclusion line.
pub fn render_conclusion_message(output: &str) -> (r: String)
    ensures
        r@ == conclusion_line(output@),
{
    let mut r = String::from_str("Report generated at ");
    r.append(output);
    proof {
        reveal_strlit("Report generated at ");
        assert(r@ =~= conclusion_line(output@));
    }
    r
}

/// The line describing one input: its name with a colon when it has one,
/// then its path.
pub open spec fn input_line(input: Input) -> Seq<char> {
    "  - "@ + (match input.name {
        Option::Some(n) => n@ + ": "@,
        Option::None => Seq::empty(),
    }) + input.path@
}

/// Builds a status line.
pub fn render_status_message(title: &str, status: &str) -> (r: String)
    ensures
        r@ == status_message(title@, status@),
{
    let mut r = String::from_str("\u{1b}[1m");
    r.append("\u{1b}[32m");
    r.append(pad_left(title, 12).as_str());
    r.append(" ");
    r.append("\u{1b}[0m");
    r.append(status);
    proof {
        reveal_strlit("\u{1b}[1m");
        reveal_strlit("\u{1b}[32m");
        reveal_strlit("\u{1b}[0m");
        reveal_strlit(" ");
        assert(r@ =~= status_message(title@, status@));
    }
    r
}

/// Builds an error line.
pub fn render_error_message(error: &str) -> (r: String)
    ensures
        r@ == error_message(error@),
{
    let mut r = String::from_str("\u{1b}[1m");
    r.append("\u{1b}[31m");
    r.append(pad_left("Error", 12).as_str());
    r.append(" ");
    r.append("\u{1b}[0m");
    r.append(error);
    proof {
        reveal_strlit("\u{1b}[1m");
        reveal_strlit("\u{1b}[31m");
        reveal_strlit("\u{1b}[0m");
        reveal_strlit(" ");
        reveal_strlit("Error");
        assert(r@ =~= error_message(error@));
    }
    r
}

/// Builds the line describing one input.
pub fn render_input_line(input: &Input) -> (r: String)
    ensures
        r@ == input_line(*input),
{
    let mut r = String::from_str("  - ");
    match &input.name {
        Some(n) => {
            r.append(n.as_str());
            r.append(": ");
        },
        None => {},
    }
    r.append(input.path.as_str());
    proof {
        reveal_strlit("  - ");
        reveal_strlit(": ");
        assert(r@ =~= input_line(*input));
    }
    r
}

/// Prints progress, results and help for the command-line run through a
/// printer it is given.
pub struct CliOutput<TConsole: Printer> {
    pub console: TConsole,
}

impl<TConsole: Printer> CliOutput<TConsole> {
    pub fn new(console: TConsole) -> (r: Self)
        ensures
            r == (CliOutput { console }),
    {
        CliOutput { console }
    }

    /// Prints one status line.
    pub fn print_status(&self, title: &str, status: &str) {
        let message = render_status_message(title, status);
        self.console.println(message.as_str());
    }

    /// Prints one error line.
    pub fn print_error(&self, error: &str) {
        let message = render_error_message(error);
        self.console.println(message.as_str());
    }

    /// Prints the line describing one input.
    pub fn print_input(&self, input: &Input) {
        let line = render_input_line(input);
        self.print_status("", line.as_str());
    }

    /// Prints what is about to be generated: the input count, the report
    /// name, the reporter, and every input, each line built by its specified
    /// renderer.
    pub fn print_introduction(&self, config: &Config) {
        self.print_status(
            "Generating",
            render_intro_count_line(config.inputs.len() as u64).as_str(),
        );
        self.print_status("", render_report_name_line(config.name.as_str()).as_str());
        self.print_status("", render_reporter_line(&config.reporter).as_str());
        self.print_status("", "Inputs: ");
        let mut i: usize = 0;
        while i < config.inputs.len()
            decreases config.inputs@.len() - i,
        {
            self.print_input(&config.inputs[i]);
            i = i + 1;
        }
    }

    /// Prints where the report was written.
    pub fn print_conclusion(&self, output: &str) {
        self.print_status("Success", render_conclusion_message(output).as_str());
    }

    /// Prints an overview of the commands.
    pub fn print_help(&self) {
        self.console.println("Usage: report | from-file <config> | to-file <config>");
        self.console.println("Run a command with --help for its arguments.");
    }

    /// Prints the arguments of one command.
    pub fn print_command_help(&self, command: &str) {
        if crate::text::str_eq(command, "report") {
            self.console.println(
                "report --output <dir> [--name <name>] [--reporter <reporter>] [--input [name [prefix]] <tracefile>]...",
            );
        } else if crate::text::str_eq(command, "to-file") {
            self.console.println("to-file <config> [report arguments]...");
        } else if crate::text::str_eq(command, "from-file") {
            self.console.println("from-file <config>");
        } else {
            self.console.println("Unknown command");
        }
    }
}

} // verus!
