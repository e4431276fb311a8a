//! A matched line and its display form: optional sub-match highlighting,
//! one indentation unit, trailing whitespace stripped, and an optional
//! line-number prefix.

use crate::cli::CommandLineArgs;
use crate::cli::ConfigV;
use crate::search::highlight_matches;
use crate::search::highlighted_of;
use crate::search::Matcher;
use crate::text::dec_str_of;
use crate::text::trim_end_of;
use crate::text::trim_end_str;
use crate::text::usize_to_string;
use crate::utils::colorize;
use crate::utils::colorize_spec;
use crate::utils::PaintColor;
use vstd::prelude::*;
use vstd::string::StringExecFns;

verus! {

/// One matched line: its 0-based index in the file and its original,
/// untrimmed text.
pub struct Line {
    pub number: usize,
    pub content: String,
}

/// The mathematical shape of a matched line.
pub ghost struct LineV {
    pub number: nat,
    pub content: Seq<char>,
}

impl View for Line {
    type V = LineV;

    open spec fn view(&self) -> LineV {
        LineV { number: self.number as nat, content: self.content@ }
    }
}

/// The display form of one matched line. The content — highlighted when
/// colour is on — is indented by one tab and stripped of trailing
/// whitespace; when line numbers are on, the stored 0-based index is shown
/// in front, painted green under colour, followed by `": "`.
pub open spec fn fmt_line_spec(cfg: ConfigV, line: LineV) -> Seq<char> {
    let body = if cfg.display_color {
        highlighted_of(cfg.pattern, cfg.case_insensitive, line.content)
    } else {
        line.content
    };
    let formatted = "\t"@ + trim_end_of(body);
    if cfg.show_line_number {
        colorize_spec(PaintColor::Green, dec_str_of(line.number), cfg.display_color) + ": "@
            + formatted
    } else {
        formatted
    }
}

impl Line {
    pub fn new(number: usize, content: String) -> (r: Line)
        ensures
            r.number == number,
            r.content == content,
    {
        Line { number: number, content: content }
    }

    /// Render this line for output. The matcher must be the one compiled
    /// from the configuration's pattern: it is built once per run and
    /// reused here for every line.
    pub fn fmt_line(&self, matcher: &Matcher, config: &CommandLineArgs) -> (r: String)
        requires
            matcher.pattern_view() == config.pattern@,
            matcher.ci_view() == config.case_insensitive,
        ensures
            r@ == fmt_line_spec(config@, self@),
    {
        let body = if config.display_color {
            highlight_matches(matcher, self.content.as_str())
        } else {
            self.content.clone()
        };
        let mut formatted = "\t".to_owned();
        formatted.append(trim_end_str(body.as_str()));
        if config.show_line_number {
            let number = usize_to_string(self.number);
            let mut shown = colorize(PaintColor::Green, number.as_str(), config.display_color);
            shown.append(": ");
            shown.append(formatted.as_str());
            shown
        } else {
            formatted
        }
    }
}

} // verus!
