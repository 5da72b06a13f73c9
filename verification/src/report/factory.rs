//! Choosing a reporter by report format.

use vstd::prelude::*;
use crate::analysis::errors::ReporterError;
use crate::analysis::result::AnalysisResult;
use crate::analysis::types::ReportFormat;
use crate::report::html::{html_report, HtmlReporter};
use crate::report::json::{json_report, JsonReporter};
use crate::report::markdown::{markdown_report, MarkdownReporter};
use crate::report::options::ReportOptions;
use crate::report::raw::{raw_report, RawReporter};

verus! {

/// A reporter of one of the four kinds.
#[derive(Debug, Clone, Copy)]
pub enum AnyReporter {
    Markdown(MarkdownReporter),
    Json(JsonReporter),
    Html(HtmlReporter),
    Raw(RawReporter),
}

/// The report that a reporter writes for `r` under `o`.
pub open spec fn report_of(rep: AnyReporter, r: AnalysisResult, o: ReportOptions) -> Seq<char> {
    match rep {
        AnyReporter::Markdown(_) => markdown_report(r, o),
        AnyReporter::Json(_) => json_report(r, o),
        AnyReporter::Html(_) => html_report(r, o),
        AnyReporter::Raw(x) => raw_report(r, x.writes_json()),
    }
}

/// The kind of reporter for a format.
pub open spec fn reporter_matches(f: ReportFormat, rep: AnyReporter) -> bool {
    match f {
        ReportFormat::Markdown => rep is Markdown,
        ReportFormat::Json => rep is Json,
        ReportFormat::Html => rep is Html,
        ReportFormat::Raw => rep matches AnyReporter::Raw(x) && !x.writes_json(),
        ReportFormat::RawJson => rep matches AnyReporter::Raw(x) && x.writes_json(),
    }
}

impl AnyReporter {
    /// The report of `result` with the default options.
    pub fn generate(&self, result: &AnalysisResult) -> (r: Result<String, ReporterError>)
        ensures
            r matches Ok(s) && s@ == report_of(*self, *result, ReportOptions::default_value()),
    {
        match self {
            AnyReporter::Markdown(m) => m.generate(result),
            AnyReporter::Json(j) => j.generate(result),
            AnyReporter::Html(h) => h.generate(result),
            AnyReporter::Raw(x) => x.generate(result),
        }
    }

    /// The report of `result` under `options`.
    pub fn generate_with_options(&self, result: &AnalysisResult, options: ReportOptions) -> (r: Result<String, ReporterError>)
        ensures
            r matches Ok(s) && s@ == report_of(*self, *result, options),
    {
        match self {
            AnyReporter::Markdown(m) => m.generate_with_options(result, options),
            AnyReporter::Json(j) => j.generate_with_options(result, options),
            AnyReporter::Html(h) => h.generate_with_options(result, options),
            AnyReporter::Raw(x) => x.generate_with_options(result, options),
        }
    }
}

/// Chooses the reporter for a report format.
#[derive(Debug, Clone, Copy)]
pub struct ReporterFactory;

impl ReporterFactory {
    /// The reporter for `format`: Markdown, JSON, HTML, or raw lines
    /// (pipe-delimited for `Raw`, JSON lines for `RawJson`).
    pub fn create(format: ReportFormat) -> (r: AnyReporter)
        ensures
            reporter_matches(format, r),
    {
        match format {
            ReportFormat::Markdown => AnyReporter::Markdown(MarkdownReporter::new()),
            ReportFormat::Json => AnyReporter::Json(JsonReporter::new()),
            ReportFormat::Html => AnyReporter::Html(HtmlReporter::new()),
            ReportFormat::Raw => AnyReporter::Raw(RawReporter::new()),
            ReportFormat::RawJson => AnyReporter::Raw(RawReporter::new_json_lines()),
        }
    }
}

} // verus!
