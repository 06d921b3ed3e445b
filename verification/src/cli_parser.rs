use vstd::prelude::*;

use crate::config::spec_reporter_from;
use crate::config::Config;
use crate::config::Input;
use crate::config::Reporter;
use crate::text::str_eq;
use crate::text::str_starts_with;
use crate::text::seq_starts_with;

verus! {

/// What the command line asked for: a direct report, a report from a saved
/// configuration file, saving a configuration to a file, or help.
#[derive(Debug, PartialEq)]
pub enum CliCommand {
    Report(Config),
    FromFile(String),
    ToFile(String, Config),
    Help(String),
}

/// The message for an argument that is missing its value.
pub open spec fn value_required_message(arg: Seq<char>) -> Seq<char> {
    "Argument "@ + arg + " requires a value"@
}

/// The message for an argument given twice.
pub open spec fn already_provided_message(arg: Seq<char>) -> Seq<char> {
    "Argument "@ + arg + " already provided"@
}

/// The message for a word that names no reporter.
pub open spec fn unknown_reporter_message(word: Seq<char>) -> Seq<char> {
    "Unknown reporter: "@ + word + ". Available reporters are html-full-light, text-summary"@
}

/// The message for a word that names no report argument.
pub open spec fn unknown_argument_message(arg: Seq<char>) -> Seq<char> {
    "Unknown argument: "@ + arg
}

/// The message for a word that names no command.
pub open spec fn unknown_command_message(cmd: Seq<char>) -> Seq<char> {
    "Unknown command: "@ + cmd
}

/// The four command words differ pairwise; their lengths already do.
proof fn lemma_command_words_distinct()
    ensures
        "report"@ != "from-file"@,
        "report"@ != "to-file"@,
        "report"@ != "help"@,
        "from-file"@ != "to-file"@,
        "from-file"@ != "help"@,
        "to-file"@ != "help"@,
{
    reveal_strlit("report");
    reveal_strlit("from-file");
    reveal_strlit("to-file");
    reveal_strlit("help");
    assert("report"@.len() == 6 && "from-file"@.len() == 9 && "to-file"@.len() == 7
        && "help"@.len() == 4);
}

/// A hand-rolled command-line parser: it walks the argument words once and
/// accumulates the pieces of a configuration.
#[derive(Debug, PartialEq)]
pub struct CliConfigParser {
    pub reporter: Option<Reporter>,
    pub args: Vec<String>,
    pub step: usize,
    pub name: Option<String>,
    pub inputs: Vec<Input>,
    pub output: Option<String>,
    pub command: Option<String>,
    pub config_file: Option<String>,
    pub help: Option<String>,
}

/// The parser states that `build` can act on: a parsed file-writing command
/// always carries the file it was given.
pub open spec fn parser_wf(p: CliConfigParser) -> bool {
    p.command matches Some(c) && c@ == "to-file"@ ==> p.config_file is Some
}

/// What the report-argument loop accumulates: everything of the parser except
/// the argument words it walks and the command bookkeeping it never touches.
#[verifier::ext_equal]
pub struct ParserState {
    pub reporter: Option<Reporter>,
    pub step: int,
    pub name: Option<String>,
    pub inputs: Seq<Input>,
    pub output: Option<String>,
}

/// The accumulating state held in a parser.
pub open spec fn state_of(p: CliConfigParser) -> ParserState {
    ParserState {
        reporter: p.reporter,
        step: p.step as int,
        name: p.name,
        inputs: p.inputs@,
        output: p.output,
    }
}

/// Whether the word at the cursor exists and is a value: a word that starts
/// like an option is never a value.
pub open spec fn spec_has_value(args: Seq<String>, step: int) -> bool {
    0 <= step < args.len() && !seq_starts_with(args[step]@, "-"@)
}

/// Reading one single-valued argument at the cursor: the value when one is
/// there and the slot is still free, the exact error otherwise.
pub open spec fn spec_set_value(
    args: Seq<String>,
    step: int,
    current: Option<String>,
    arg_name: Seq<char>,
) -> Result<(int, String), Seq<char>> {
    if !spec_has_value(args, step) {
        Err(value_required_message(arg_name))
    } else if current is Some {
        Err(already_provided_message(arg_name))
    } else {
        Ok((step + 1, args[step]))
    }
}

/// Reading the reporter at the cursor: as `spec_set_value`, and the word must
/// name a reporter.
pub open spec fn spec_set_reporter(
    args: Seq<String>,
    step: int,
    current: Option<Reporter>,
    arg_name: Seq<char>,
) -> Result<(int, Reporter), Seq<char>> {
    if !spec_has_value(args, step) {
        Err(value_required_message(arg_name))
    } else if current is Some {
        Err(already_provided_message(arg_name))
    } else {
        match spec_reporter_from(args[step]@) {
            Some(rep) => Ok((step + 1, rep)),
            None => Err(unknown_reporter_message(args[step]@)),
        }
    }
}

/// Reading one input declaration at the cursor: one value is a bare path,
/// two are a name and a path, three are a name, a prefix and a path; a word
/// that starts like an option ends the declaration.
pub open spec fn spec_extract_input(args: Seq<String>, step: int, arg_name: Seq<char>) -> Result<
    (int, Input),
    Seq<char>,
> {
    if !spec_has_value(args, step) {
        Err(value_required_message(arg_name))
    } else if !spec_has_value(args, step + 1) {
        Ok((step + 1, Input { name: None, prefix: None, path: args[step] }))
    } else if !spec_has_value(args, step + 2) {
        Ok((step + 2, Input { name: Some(args[step]), prefix: None, path: args[step + 1] }))
    } else {
        Ok(
            (
                step + 3,
                Input {
                    name: Some(args[step]),
                    prefix: Some(args[step + 1]),
                    path: args[step + 2],
                },
            ),
        )
    }
}

/// The whole report-argument loop: words are read in order, each flag takes
/// its values, the first failure is the result; the words ran out exactly
/// when the cursor moved one past them.
pub open spec fn spec_report_loop(args: Seq<String>, st: ParserState) -> Result<
    ParserState,
    Seq<char>,
>
    decreases args.len() + 1 - st.step,
{
    if st.step >= args.len() {
        Ok(ParserState { step: st.step + 1, ..st })
    } else {
        let arg = args[st.step]@;
        let s1 = st.step + 1;
        if arg == "--reporter"@ || arg == "-r"@ {
            match spec_set_reporter(args, s1, st.reporter, arg) {
                Ok((s2, rep)) => spec_report_loop(
                    args,
                    ParserState { step: s2, reporter: Some(rep), ..st },
                ),
                Err(m) => Err(m),
            }
        } else if arg == "--name"@ || arg == "-n"@ {
            match spec_set_value(args, s1, st.name, arg) {
                Ok((s2, v)) => spec_report_loop(args, ParserState { step: s2, name: Some(v), ..st }),
                Err(m) => Err(m),
            }
        } else if arg == "--input"@ || arg == "-i"@ {
            match spec_extract_input(args, s1, arg) {
                Ok((s2, input)) => spec_report_loop(
                    args,
                    ParserState { step: s2, inputs: st.inputs.push(input), ..st },
                ),
                Err(m) => Err(m),
            }
        } else if arg == "--output"@ || arg == "-o"@ {
            match spec_set_value(args, s1, st.output, arg) {
                Ok((s2, v)) => spec_report_loop(
                    args,
                    ParserState { step: s2, output: Some(v), ..st },
                ),
                Err(m) => Err(m),
            }
        } else {
            Err(unknown_argument_message(arg))
        }
    }
}

/// Whether any word asks for help.
pub open spec fn spec_has_help(args: Seq<String>) -> bool {
    exists|i: int|
        0 <= i < args.len() && ((#[trigger] args[i])@ == "--help"@ || args[i]@ == "-h"@)
}

/// The help topic recorded for a run that asked for help: the first word when
/// it names a command, nothing otherwise.
pub open spec fn spec_help_topic(cmd: Seq<char>) -> Seq<char> {
    if cmd == "report"@ || cmd == "from-file"@ || cmd == "to-file"@ {
        cmd
    } else {
        Seq::empty()
    }
}

impl Default for CliConfigParser {
    fn default() -> (r: Self)
        ensures
            r.reporter is None && r.name is None && r.output is None && r.command is None
                && r.config_file is None && r.help is None,
            r.args@ == Seq::<String>::empty(),
            r.inputs@ == Seq::<Input>::empty(),
            r.step == 0,
            parser_wf(r),
    {
        CliConfigParser {
            reporter: None,
            args: Vec::new(),
            step: 0,
            name: None,
            inputs: Vec::new(),
            output: None,
            command: None,
            config_file: None,
            help: None,
        }
    }
}

impl CliConfigParser {
    pub fn new() -> (r: Self)
        ensures
            r.reporter is None && r.name is None && r.output is None && r.command is None
                && r.config_file is None && r.help is None,
            r.args@ == Seq::<String>::empty(),
            r.inputs@ == Seq::<Input>::empty(),
            r.step == 0,
            parser_wf(r),
    {
        Self::default()
    }

    /// Parses the argument words. Help anywhere turns the run into a help
    /// request; otherwise the first word picks the command and the rest are
    /// its arguments, as `spec_report_loop` reads them.
    pub fn parse(self, args: &[String]) -> (r: Result<Self, String>)
        requires
            self.step == 0,
            args@.len() < usize::MAX - 8,
        ensures
            r matches Ok(p) ==> parser_wf(p),
            args@.len() == 0 ==> (r matches Err(e) && e@ == "No command provided"@),
            args@.len() > 0 && spec_has_help(args@) ==> (r matches Ok(p) && (p.command matches Some(
                c,
            ) && c@ == "help"@) && (p.help matches Some(h) && h@ == spec_help_topic(args@[0]@))),
            args@.len() > 0 && !spec_has_help(args@) ==> {
                let cmd = args@[0]@;
                &&& (cmd == "report"@ ==> match spec_report_loop(
                    args@,
                    ParserState {
                        reporter: self.reporter,
                        step: 1,
                        name: self.name,
                        inputs: self.inputs@,
                        output: self.output,
                    },
                ) {
                    Ok(st) => (r matches Ok(p) && (p.command matches Some(c) && c@ == "report"@)
                        && state_of(p) == st && p.config_file == self.config_file && p.help
                        == self.help && p.args@ == args@),
                    Err(m) => (r matches Err(e) && e@ == m),
                })
                &&& (cmd == "from-file"@ ==> if !spec_has_value(args@, 1) {
                    r matches Err(e) && e@ == value_required_message("from-file"@)
                } else if args@.len() > 2 {
                    r matches Err(e) && e@
                        == "No other arguments are allowed with from-file command"@
                } else {
                    r matches Ok(p) && (p.command matches Some(c) && c@ == "from-file"@) && (
                    p.config_file matches Some(f) && f == args@[1])
                })
                &&& (cmd == "to-file"@ ==> if !spec_has_value(args@, 1) {
                    r matches Err(e) && e@ == value_required_message("to-file"@)
                } else {
                    match spec_report_loop(
                        args@,
                        ParserState {
                            reporter: self.reporter,
                            step: 2,
                            name: self.name,
                            inputs: self.inputs@,
                            output: self.output,
                        },
                    ) {
                        Ok(st) => (r matches Ok(p) && (p.command matches Some(c) && c@
                            == "to-file"@) && state_of(p) == st && (p.config_file matches Some(f)
                            && f == args@[1]) && p.args@ == args@),
                        Err(m) => (r matches Err(e) && e@ == m),
                    }
                })
                &&& (cmd == "help"@ ==> (r matches Ok(p) && (p.command matches Some(c) && c@
                    == "help"@) && (p.help matches Some(h) && h@ == Seq::<char>::empty())))
                &&& (cmd != "report"@ && cmd != "from-file"@ && cmd != "to-file"@ && cmd != "help"@
                    ==> (r matches Err(e) && e@ == unknown_command_message(cmd)))
            },
    {
        let mut this = self;
        this.args = slice_to_string_vec(args);
        proof {
            assert(this.args@.len() == args@.len());
        }

        let command = match this.next() {
            Some(c) => c,
            None => {
                proof {
                    reveal_strlit("No command provided");
                }
                return Err(String::from_str("No command provided"));
            },
        };
        proof {
            lemma_command_words_distinct();
            assert(command == args@[0]);
        }
        if this.detect_help() {
            this.command = Some(String::from_str("help"));
            if str_eq(command.as_str(), "report") || str_eq(command.as_str(), "from-file")
                || str_eq(command.as_str(), "to-file") {
                this.help = Some(command);
            } else {
                this.help = Some(String::new());
            }
            proof {
                reveal_strlit("help");
                reveal_strlit("to-file");
                assert("help"@.len() == 4 && "to-file"@.len() == 7);
                assert("help"@ != "to-file"@);
                assert(parser_wf(this));
            }
            return Ok(this);
        }

        if str_eq(command.as_str(), "report") {
            this.command = Some(String::from_str("report"));
            let ghost pre = state_of(this);
            proof {
                assert(pre =~= (ParserState {
                    reporter: self.reporter,
                    step: 1,
                    name: self.name,
                    inputs: self.inputs@,
                    output: self.output,
                }));
            }
            match this.parse_report_command() {
                Ok(()) => {},
                Err(e) => {
                    return Err(e);
                },
            }
            proof {
                reveal_strlit("report");
                reveal_strlit("to-file");
                assert("report"@[0] == 'r' && "to-file"@[0] == 't');
                assert("report"@ != "to-file"@);
                assert(parser_wf(this));
            }
            Ok(this)
        } else if str_eq(command.as_str(), "from-file") {
            let config_file = match this.get_next_value("from-file") {
                Ok(v) => v,
                Err(e) => {
                    return Err(e);
                },
            };
            this.config_file = Some(config_file);
            this.command = Some(String::from_str("from-file"));
            if this.args.len() > this.step {
                proof {
                    reveal_strlit("No other arguments are allowed with from-file command");
                }
                return Err(
                    String::from_str("No other arguments are allowed with from-file command"),
                );
            }
            proof {
                reveal_strlit("from-file");
                reveal_strlit("to-file");
                assert("from-file"@.len() == 9 && "to-file"@.len() == 7);
                assert("from-file"@ != "to-file"@);
                assert(parser_wf(this));
            }
            Ok(this)
        } else if str_eq(command.as_str(), "to-file") {
            let config_file = match this.get_next_value("to-file") {
                Ok(v) => v,
                Err(e) => {
                    return Err(e);
                },
            };
            this.config_file = Some(config_file);
            this.command = Some(String::from_str("to-file"));
            let ghost pre = state_of(this);
            proof {
                assert(pre =~= (ParserState {
                    reporter: self.reporter,
                    step: 2,
                    name: self.name,
                    inputs: self.inputs@,
                    output: self.output,
                }));
            }
            match this.parse_report_command() {
                Ok(()) => {},
                Err(e) => {
                    return Err(e);
                },
            }
            proof {
                assert(parser_wf(this));
            }
            Ok(this)
        } else if str_eq(command.as_str(), "help") {
            this.command = Some(String::from_str("help"));
            this.help = Some(String::new());
            proof {
                reveal_strlit("help");
                reveal_strlit("to-file");
                assert("help"@.len() == 4 && "to-file"@.len() == 7);
                assert("help"@ != "to-file"@);
                assert(parser_wf(this));
            }
            Ok(this)
        } else {
            let mut msg = String::from_str("Unknown command: ");
            msg.append(command.as_str());
            proof {
                reveal_strlit("Unknown command: ");
                assert(msg@ =~= unknown_command_message(args@[0]@));
            }
            Err(msg)
        }
    }

    /// Whether any argument asks for help.
    fn detect_help(&self) -> (r: bool)
        ensures
            r == spec_has_help(self.args@),
    {
        let mut i: usize = 0;
        while i < self.args.len()
            invariant
                i <= self.args@.len(),
                forall|j: int|
                    0 <= j < i ==> (#[trigger] self.args@[j])@ != "--help"@ && self.args@[j]@
                        != "-h"@,
            decreases self.args@.len() - i,
        {
            if str_eq(self.args[i].as_str(), "--help") || str_eq(self.args[i].as_str(), "-h") {
                return true;
            }
            i = i + 1;
        }
        false
    }

    /// Reads report arguments until the words run out: a reporter, a name,
    /// inputs and an output, in any order, exactly as `spec_report_loop`
    /// describes.
    fn parse_report_command(&mut self) -> (r: Result<(), String>)
        requires
            old(self).step <= old(self).args@.len(),
            old(self).args@.len() < usize::MAX - 8,
        ensures
            final(self).command == old(self).command,
            final(self).config_file == old(self).config_file,
            final(self).help == old(self).help,
            final(self).args == old(self).args,
            match spec_report_loop(old(self).args@, state_of(*old(self))) {
                Ok(st) => r is Ok && state_of(*final(self)) == st,
                Err(m) => (r matches Err(e) && e@ == m),
            },
    {
        loop
            invariant
                self.command == old(self).command,
                self.config_file == old(self).config_file,
                self.help == old(self).help,
                self.args == old(self).args,
                self.step <= self.args@.len() + 1,
                self.args@.len() < usize::MAX - 8,
                spec_report_loop(old(self).args@, state_of(*old(self))) == spec_report_loop(
                    self.args@,
                    state_of(*self),
                ),
            decreases self.args@.len() + 1 - self.step,
        {
            let ghost pre = state_of(*self);
            let arg = match self.next() {
                Some(a) => a,
                None => {
                    proof {
                        assert(state_of(*self) =~= (ParserState { step: pre.step + 1, ..pre }));
                        assert(spec_report_loop(self.args@, pre) == Ok::<ParserState, Seq<char>>(
                            state_of(*self),
                        ));
                    }
                    return Ok(());
                },
            };
            proof {
                assert(arg == self.args@[pre.step as int]);
                assert(state_of(*self) =~= (ParserState { step: pre.step + 1, ..pre }));
            }
            let r = if str_eq(arg.as_str(), "--reporter") || str_eq(arg.as_str(), "-r") {
                let r = self.set_reporter(arg.as_str());
                proof {
                    match spec_set_reporter(self.args@, pre.step + 1, pre.reporter, arg@) {
                        Ok((s2, rep)) => {
                            assert(state_of(*self) =~= (ParserState {
                                step: s2,
                                reporter: Some(rep),
                                ..pre
                            }));
                        },
                        Err(m) => {},
                    }
                }
                r
            } else if str_eq(arg.as_str(), "--name") || str_eq(arg.as_str(), "-n") {
                let r = self.set_name(arg.as_str());
                proof {
                    match spec_set_value(self.args@, pre.step + 1, pre.name, arg@) {
                        Ok((s2, v)) => {
                            assert(state_of(*self) =~= (ParserState {
                                step: s2,
                                name: Some(v),
                                ..pre
                            }));
                        },
                        Err(m) => {},
                    }
                }
                r
            } else if str_eq(arg.as_str(), "--input") || str_eq(arg.as_str(), "-i") {
                let r = self.add_input(arg.as_str());
                proof {
                    match spec_extract_input(self.args@, pre.step + 1, arg@) {
                        Ok((s2, input)) => {
                            assert(state_of(*self) =~= (ParserState {
                                step: s2,
                                inputs: pre.inputs.push(input),
                                ..pre
                            }));
                        },
                        Err(m) => {},
                    }
                }
                r
            } else if str_eq(arg.as_str(), "--output") || str_eq(arg.as_str(), "-o") {
                let r = self.set_output(arg.as_str());
                proof {
                    match spec_set_value(self.args@, pre.step + 1, pre.output, arg@) {
                        Ok((s2, v)) => {
                            assert(state_of(*self) =~= (ParserState {
                                step: s2,
                                output: Some(v),
                                ..pre
                            }));
                        },
                        Err(m) => {},
                    }
                }
                r
            } else {
                let mut msg = String::from_str("Unknown argument: ");
                msg.append(arg.as_str());
                proof {
                    reveal_strlit("Unknown argument: ");
                    assert(msg@ =~= unknown_argument_message(arg@));
                    assert(spec_report_loop(self.args@, pre) == Err::<ParserState, Seq<char>>(
                        unknown_argument_message(arg@),
                    ));
                }
                return Err(msg);
            };
            match r {
                Ok(()) => {},
                Err(e) => {
                    return Err(e);
                },
            }
        }
    }

    /// Takes the next argument word, if any; the cursor moves either way.
    fn next(&mut self) -> (r: Option<String>)
        requires
            old(self).step < usize::MAX,
        ensures
            final(self).step == old(self).step + 1,
            *final(self) == (CliConfigParser { step: final(self).step, ..*old(self) }),
            old(self).step < old(self).args@.len() ==> (r matches Some(v) && v
                == old(self).args@[old(self).step as int]),
            old(self).step >= old(self).args@.len() ==> r is None,
    {
        if self.step < self.args.len() {
            let value = self.args[self.step].clone();
            proof {
                assert(value@ == self.args@[self.step as int]@);
            }
            self.step = self.step + 1;
            Some(value)
        } else {
            self.step = self.step + 1;
            None
        }
    }

    /// Moves the cursor one word back, when it is not at the start.
    fn previous(&mut self)
        ensures
            old(self).step > 0 ==> *final(self) == (CliConfigParser {
                step: (old(self).step - 1) as usize,
                ..*old(self)
            }),
            old(self).step == 0 ==> *final(self) == *old(self),
    {
        if self.step > 0 {
            self.step = self.step - 1;
        }
    }

    /// Builds the report configuration; the output directory is required, the
    /// name and reporter fall back to their defaults.
    pub fn build_config(self) -> (r: Result<Config, String>)
        ensures
            self.output is None <==> (r matches Err(e) && e@ == "Argument --output is required"@),
            r matches Err(e) ==> e@ == "Argument --output is required"@,
            r matches Ok(c) ==> {
                &&& self.output matches Some(o) && c.output == o
                &&& (self.name matches Some(n) ==> c.name == n)
                &&& (self.name is None ==> c.name@ == "Test report"@)
                &&& c.inputs == self.inputs
                &&& (self.reporter matches Some(rep) ==> c.reporter == rep)
                &&& (self.reporter is None ==> c.reporter == Reporter::MpaHtmlLightReporter)
            },
    {
        let output = match self.output {
            Some(o) => o,
            None => {
                proof {
                    reveal_strlit("Argument --output is required");
                }
                return Err(String::from_str("Argument --output is required"));
            },
        };
        let name = match self.name {
            Some(n) => n,
            None => {
                proof {
                    reveal_strlit("Test report");
                }
                String::from_str("Test report")
            },
        };
        let reporter = match self.reporter {
            Some(r) => r,
            None => Reporter::default(),
        };
        Ok(Config { name, inputs: self.inputs, output, reporter })
    }

    /// Builds the parsed command: a report or file-writing command takes its
    /// configuration, reading a saved file or help takes its argument, and
    /// every error names what is missing.
    pub fn build(self) -> (r: Result<CliCommand, String>)
        requires
            parser_wf(self),
        ensures
            self.command is None ==> (r matches Err(e) && e@ == "No command provided"@),
            self.command matches Some(cw) ==> {
                let cmd = cw@;
                &&& (cmd == "report"@ ==> {
                    &&& (self.output is None ==> (r matches Err(e) && e@
                        == "Argument --output is required"@))
                    &&& (self.output matches Some(o) ==> (r matches Ok(cc) && cc matches
                        CliCommand::Report(c) && c.output == o && c.inputs == self.inputs && (
                    self.name matches Some(n) ==> c.name == n) && (self.name is None ==> c.name@
                        == "Test report"@) && (self.reporter matches Some(rep) ==> c.reporter
                        == rep) && (self.reporter is None ==> c.reporter
                        == Reporter::MpaHtmlLightReporter)))
                })
                &&& (cmd == "from-file"@ ==> {
                    &&& (self.config_file matches Some(f) ==> (r matches Ok(cc) && cc matches
                        CliCommand::FromFile(g) && g == f))
                    &&& (self.config_file is None ==> (r matches Err(e) && e@
                        == "Argument --from-file is required"@))
                })
                &&& (cmd == "to-file"@ ==> {
                    &&& (self.output is None ==> (r matches Err(e) && e@
                        == "Argument --to-file is required: Argument --output is required"@))
                    &&& (self.output matches Some(o) ==> (r matches Ok(cc) && cc matches
                        CliCommand::ToFile(g, c) && (self.config_file matches Some(f) && g == f)
                        && c.output == o && c.inputs == self.inputs && (self.name matches Some(n)
                        ==> c.name == n) && (self.name is None ==> c.name@ == "Test report"@) && (
                    self.reporter matches Some(rep) ==> c.reporter == rep) && (self.reporter
                        is None ==> c.reporter == Reporter::MpaHtmlLightReporter)))
                })
                &&& (cmd == "help"@ ==> (r matches Ok(cc) && cc matches CliCommand::Help(h) && (
                self.help matches Some(hh) ==> h == hh) && (self.help is None ==> h@ == Seq::<
                    char,
                >::empty())))
                &&& (cmd != "report"@ && cmd != "from-file"@ && cmd != "to-file"@ && cmd != "help"@
                    ==> (r matches Err(e) && e@ == "No command provided"@))
            },
    {
        proof {
            lemma_command_words_distinct();
        }
        let config_file = match &self.config_file {
            Some(f) => Some(f.clone()),
            None => None,
        };
        let command = match &self.command {
            Some(c) => c.clone(),
            None => {
                proof {
                    reveal_strlit("No command provided");
                }
                return Err(String::from_str("No command provided"));
            },
        };
        if str_eq(command.as_str(), "report") {
            match self.build_config() {
                Ok(c) => Ok(CliCommand::Report(c)),
                Err(e) => Err(e),
            }
        } else if str_eq(command.as_str(), "from-file") {
            match config_file {
                Some(f) => Ok(CliCommand::FromFile(f)),
                None => {
                    proof {
                        reveal_strlit("Argument --from-file is required");
                    }
                    Err(String::from_str("Argument --from-file is required"))
                },
            }
        } else if str_eq(command.as_str(), "to-file") {
            match self.build_config() {
                Ok(c) => {
                    let f = match config_file {
                        Some(f) => f,
                        None => String::new(),
                    };
                    Ok(CliCommand::ToFile(f, c))
                },
                Err(e) => {
                    let mut msg = String::from_str("Argument --to-file is required: ");
                    msg.append(e.as_str());
                    proof {
                        reveal_strlit("Argument --to-file is required: ");
                        reveal_strlit("Argument --output is required");
                        reveal_strlit(
                            "Argument --to-file is required: Argument --output is required",
                        );
                        assert(msg@
                            =~= "Argument --to-file is required: Argument --output is required"@);
                    }
                    Err(msg)
                },
            }
        } else if str_eq(command.as_str(), "help") {
            let h = match self.help {
                Some(h) => h,
                None => String::new(),
            };
            Ok(CliCommand::Help(h))
        } else {
            proof {
                reveal_strlit("No command provided");
            }
            Err(String::from_str("No command provided"))
        }
    }

    /// Takes the next word as a value; a word that starts like an option is
    /// not a value.
    fn get_next_value(&mut self, arg_name: &str) -> (r: Result<String, String>)
        requires
            old(self).step < usize::MAX,
        ensures
            final(self).step == old(self).step + 1,
            *final(self) == (CliConfigParser { step: final(self).step, ..*old(self) }),
            spec_has_value(old(self).args@, old(self).step as int) ==> (r matches Ok(v) && v
                == old(self).args@[old(self).step as int]),
            !spec_has_value(old(self).args@, old(self).step as int) ==> (r matches Err(e) && e@
                == value_required_message(arg_name@)),
    {
        match self.next() {
            Some(value) => {
                if !str_starts_with(value.as_str(), "-") {
                    Ok(value)
                } else {
                    Err(value_required(arg_name))
                }
            },
            None => Err(value_required(arg_name)),
        }
    }

    /// Reads one, two or three words after an input flag: a bare path, a name
    /// and a path, or a name, a prefix and a path, as `spec_extract_input`
    /// fixes them.
    fn extract_input_args(&mut self, arg_name: &str) -> (r: Result<Input, String>)
        requires
            old(self).step < usize::MAX - 3,
        ensures
            final(self).args == old(self).args,
            final(self).inputs == old(self).inputs,
            final(self).name == old(self).name,
            final(self).output == old(self).output,
            final(self).reporter == old(self).reporter,
            final(self).command == old(self).command,
            final(self).config_file == old(self).config_file,
            final(self).help == old(self).help,
            old(self).step < final(self).step <= old(self).step + 3,
            match spec_extract_input(old(self).args@, old(self).step as int, arg_name@) {
                Ok((s2, input)) => (r matches Ok(i) && i == input && final(self).step == s2),
                Err(m) => (r matches Err(e) && e@ == m),
            },
    {
        let arg1 = match self.get_next_value(arg_name) {
            Ok(v) => v,
            Err(e) => {
                return Err(e);
            },
        };
        let arg2 = match self.get_next_value(arg_name) {
            Ok(v) => v,
            Err(_) => {
                self.previous();
                return Ok(Input::from_path(arg1));
            },
        };
        let arg3 = match self.get_next_value(arg_name) {
            Ok(v) => v,
            Err(_) => {
                self.previous();
                return Ok(Input::from_name_and_path(arg1, arg2));
            },
        };
        Ok(Input::from_name_prefix_and_path(arg1, arg2, arg3))
    }

    /// Reads an input declaration and appends it.
    fn add_input(&mut self, arg_name: &str) -> (r: Result<(), String>)
        requires
            old(self).step < usize::MAX - 3,
        ensures
            final(self).args == old(self).args,
            final(self).name == old(self).name,
            final(self).output == old(self).output,
            final(self).reporter == old(self).reporter,
            final(self).command == old(self).command,
            final(self).config_file == old(self).config_file,
            final(self).help == old(self).help,
            old(self).step < final(self).step <= old(self).step + 3,
            match spec_extract_input(old(self).args@, old(self).step as int, arg_name@) {
                Ok((s2, input)) => (r is Ok && final(self).step == s2 && final(self).inputs@
                    == old(self).inputs@.push(input)),
                Err(m) => (r matches Err(e) && e@ == m),
            },
    {
        let input = match self.extract_input_args(arg_name) {
            Ok(i) => i,
            Err(e) => {
                return Err(e);
            },
        };
        self.inputs.push(input);
        Ok(())
    }

    /// Reads the report name; it may be given only once.
    fn set_name(&mut self, arg_name: &str) -> (r: Result<(), String>)
        requires
            old(self).step < usize::MAX,
        ensures
            final(self).args == old(self).args,
            final(self).inputs == old(self).inputs,
            final(self).output == old(self).output,
            final(self).reporter == old(self).reporter,
            final(self).command == old(self).command,
            final(self).config_file == old(self).config_file,
            final(self).help == old(self).help,
            final(self).step == old(self).step + 1,
            match spec_set_value(old(self).args@, old(self).step as int, old(self).name, arg_name@) {
                Ok((s2, v)) => (r is Ok && final(self).step == s2 && final(self).name == Some(v)),
                Err(m) => (r matches Err(e) && e@ == m),
            },
    {
        let name = match self.get_next_value(arg_name) {
            Ok(v) => v,
            Err(e) => {
                return Err(e);
            },
        };
        if self.name.is_some() {
            return Err(already_provided(arg_name));
        }
        self.name = Some(name);
        Ok(())
    }

    /// Reads the reporter; it may be given only once and must name a known
    /// reporter.
    fn set_reporter(&mut self, arg_name: &str) -> (r: Result<(), String>)
        requires
            old(self).step < usize::MAX,
        ensures
            final(self).args == old(self).args,
            final(self).inputs == old(self).inputs,
            final(self).name == old(self).name,
            final(self).output == old(self).output,
            final(self).command == old(self).command,
            final(self).config_file == old(self).config_file,
            final(self).help == old(self).help,
            final(self).step == old(self).step + 1,
            match spec_set_reporter(
                old(self).args@,
                old(self).step as int,
                old(self).reporter,
                arg_name@,
            ) {
                Ok((s2, rep)) => (r is Ok && final(self).step == s2 && final(self).reporter
                    == Some(rep)),
                Err(m) => (r matches Err(e) && e@ == m),
            },
    {
        let reporter = match self.get_next_value(arg_name) {
            Ok(v) => v,
            Err(e) => {
                return Err(e);
            },
        };
        if self.reporter.is_some() {
            return Err(already_provided(arg_name));
        }
        match Reporter::from_str(reporter.as_str()) {
            Some(r) => {
                self.reporter = Some(r);
                Ok(())
            },
            None => {
                let mut msg = String::from_str("Unknown reporter: ");
                msg.append(reporter.as_str());
                msg.append(". Available reporters are html-full-light, text-summary");
                proof {
                    reveal_strlit("Unknown reporter: ");
                    reveal_strlit(". Available reporters are html-full-light, text-summary");
                    assert(msg@ =~= unknown_reporter_message(reporter@));
                }
                Err(msg)
            },
        }
    }

    /// Reads the output directory; it may be given only once.
    fn set_output(&mut self, arg_name: &str) -> (r: Result<(), String>)
        requires
            old(self).step < usize::MAX,
        ensures
            final(self).args == old(self).args,
            final(self).inputs == old(self).inputs,
            final(self).name == old(self).name,
            final(self).reporter == old(self).reporter,
            final(self).command == old(self).command,
            final(self).config_file == old(self).config_file,
            final(self).help == old(self).help,
            final(self).step == old(self).step + 1,
            match spec_set_value(
                old(self).args@,
                old(self).step as int,
                old(self).output,
                arg_name@,
            ) {
                Ok((s2, v)) => (r is Ok && final(self).step == s2 && final(self).output == Some(v)),
                Err(m) => (r matches Err(e) && e@ == m),
            },
    {
        let output = match self.get_next_value(arg_name) {
            Ok(v) => v,
            Err(e) => {
                return Err(e);
            },
        };
        if self.output.is_some() {
            return Err(already_provided(arg_name));
        }
        self.output = Some(output);
        Ok(())
    }
}

/// The message for an argument missing its value.
fn value_required(arg_name: &str) -> (r: String)
    ensures
        r@ == value_required_message(arg_name@),
{
    let mut msg = String::from_str("Argument ");
    msg.append(arg_name);
    msg.append(" requires a value");
    proof {
        reveal_strlit("Argument ");
        reveal_strlit(" requires a value");
        assert(msg@ =~= value_required_message(arg_name@));
    }
    msg
}

/// The message for an argument given twice.
fn already_provided(arg_name: &str) -> (r: String)
    ensures
        r@ == already_provided_message(arg_name@),
{
    let mut msg = String::from_str("Argument ");
    msg.append(arg_name);
    msg.append(" already provided");
    proof {
        reveal_strlit("Argument ");
        reveal_strlit(" already provided");
        assert(msg@ =~= already_provided_message(arg_name@));
    }
    msg
}

/// Copies a borrowed argument list.
fn slice_to_string_vec(args: &[String]) -> (r: Vec<String>)
    ensures
        r@ == args@,
{
    let mut out: Vec<String> = Vec::new();
    let mut i: usize = 0;
    proof {
        assert(out@ =~= args@.take(0));
    }
    while i < args.len()
        invariant
            i <= args@.len(),
            out@ == args@.take(i as int),
        decreases args@.len() - i,
    {
        let ghost before = out@;
        let elem = args[i].clone();
        proof {
            assert(elem == args@[i as int]);
        }
        out.push(elem);
        i = i + 1;
        proof {
            assert(out@ =~= args@.take(i as int));
        }
    }
    proof {
        assert(args@.take(args@.len() as int) =~= args@);
    }
    out
}

} // verus!
