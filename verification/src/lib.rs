pub mod chip;
pub mod cli_output;
pub mod cli_parser;
pub mod code_line;
pub mod colors;
pub mod components;
pub mod config;
pub mod counters;
pub mod escape;
pub mod file_icon;
pub mod fixtures;
pub mod gauges;
pub mod html_builder;
pub mod input;
pub mod links;
pub mod multi_report;
pub mod paths;
pub mod records;
pub mod simple_html;
pub mod tested_file;
pub mod tested_module;
pub mod tested_root;
pub mod text;
pub mod text_renderer;

pub use chip::render_aggregated_coverage_chips;
pub use chip::CoverageChip;
pub use cli_output::CliOutput;
pub use cli_output::Printer;
pub use cli_parser::CliCommand;
pub use cli_parser::CliConfigParser;
pub use code_line::CodeLines;
pub use colors::get_percentage_class;
pub use colors::render_optional_percentage;
pub use components::ToHtml;
pub use config::Config;
pub use config::Input;
pub use config::Reporter;
pub use counters::AggregatedCoverage;
pub use counters::AggregatedCoverageCounters;
pub use escape::encode_minimal_text;
pub use file_icon::FileIcon;
pub use fixtures::AggregatedFixtures;
pub use gauges::CoverageGauges;
pub use gauges::Gauge;
pub use html_builder::HtmlNode;
pub use html_builder::HtmlTag;
pub use input::AggregatorInput;
pub use links::location_is_clean;
pub use links::location_is_under;
pub use links::LinkPayload;
pub use links::MpaLinksComputer;
pub use links::NodeLocation;
pub use multi_report::MultiReport;
pub use records::FileRecord;
pub use tested_file::TestedCodeFile;
pub use tested_module::TestedModule;
pub use tested_root::records_fit;
pub use tested_root::TestedRoot;
pub use text_renderer::TextSinglePageRenderer;
