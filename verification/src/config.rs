use vstd::prelude::*;

use crate::text::str_eq;

verus! {

/// One declared coverage input: an optional display name, an optional
/// explicit root prefix, and the tracefile path.
#[derive(Debug, PartialEq)]
pub struct Input {
    pub name: Option<String>,
    pub prefix: Option<String>,
    pub path: String,
}

impl Input {
    /// An input with only a tracefile path.
    pub fn from_path(path: String) -> (r: Self)
        ensures
            r.name is None,
            r.prefix is None,
            r.path == path,
    {
        Input { name: None, prefix: None, path }
    }

    /// An input with a display name and a tracefile path.
    pub fn from_name_and_path(name: String, path: String) -> (r: Self)
        ensures
            r.name matches Some(n) && n == name,
            r.prefix is None,
            r.path == path,
    {
        Input { name: Some(name), prefix: None, path }
    }

    /// An input with a display name, an explicit prefix and a tracefile path.
    pub fn from_name_prefix_and_path(name: String, prefix: String, path: String) -> (r: Self)
        ensures
            r.name matches Some(n) && n == name,
            r.prefix matches Some(p) && p == prefix,
            r.path == path,
    {
        Input { name: Some(name), prefix: Some(prefix), path }
    }
}

impl Default for Input {
    fn default() -> (r: Self)
        ensures
            r.name is None,
            r.prefix is None,
            r.path@ == Seq::<char>::empty(),
    {
        Input { name: None, prefix: None, path: String::new() }
    }
}

/// The report style to produce.
#[derive(Debug, PartialEq, Clone, Copy, Eq, Structural)]
pub enum Reporter {
    MpaHtmlLightReporter,
    TextSummaryReporter,
}

/// The canonical command-line word of a reporter.
pub open spec fn reporter_word(r: Reporter) -> Seq<char> {
    match r {
        Reporter::MpaHtmlLightReporter => "html-full-light"@,
        Reporter::TextSummaryReporter => "text-summary"@,
    }
}

/// The reporter a command-line word selects, if any.
pub open spec fn spec_reporter_from(s: Seq<char>) -> Option<Reporter> {
    if s == "html"@ || s == "html-full"@ || s == "html-full-light"@ {
        Some(Reporter::MpaHtmlLightReporter)
    } else if s == "text-summary"@ {
        Some(Reporter::TextSummaryReporter)
    } else {
        None
    }
}

impl Reporter {
    /// Reads a reporter from its command-line word or one of its aliases.
    pub fn from_str(s: &str) -> (r: Option<Reporter>)
        ensures
            r == spec_reporter_from(s@),
    {
        if str_eq(s, "html") || str_eq(s, "html-full") || str_eq(s, "html-full-light") {
            Some(Reporter::MpaHtmlLightReporter)
        } else if str_eq(s, "text-summary") {
            Some(Reporter::TextSummaryReporter)
        } else {
            None
        }
    }

    /// The canonical word for this reporter.
    pub fn to_str(&self) -> (r: &'static str)
        ensures
            r@ == reporter_word(*self),
    {
        match self {
            Reporter::MpaHtmlLightReporter => "html-full-light",
            Reporter::TextSummaryReporter => "text-summary",
        }
    }

    /// The canonical words of every reporter.
    pub fn list_available() -> (r: Vec<&'static str>)
        ensures
            r@.len() == 2,
            r@[0]@ == "html-full-light"@,
            r@[1]@ == "text-summary"@,
    {
        let mut r: Vec<&'static str> = Vec::new();
        r.push("html-full-light");
        r.push("text-summary");
        r
    }
}

impl Default for Reporter {
    fn default() -> (r: Self)
        ensures
            r == Reporter::MpaHtmlLightReporter,
    {
        Reporter::MpaHtmlLightReporter
    }
}

/// A full report configuration: the report name, the declared inputs, the
/// output directory and the reporter.
#[derive(Debug, PartialEq)]
pub struct Config {
    pub name: String,
    pub inputs: Vec<Input>,
    pub output: String,
    pub reporter: Reporter,
}

impl Default for Config {
    fn default() -> (r: Self)
        ensures
            r.name@ == Seq::<char>::empty(),
            r.inputs@ == Seq::<Input>::empty(),
            r.output@ == Seq::<char>::empty(),
            r.reporter == Reporter::MpaHtmlLightReporter,
    {
        Config {
            name: String::new(),
            inputs: Vec::new(),
            output: String::new(),
            reporter: Reporter::MpaHtmlLightReporter,
        }
    }
}

} // verus!
