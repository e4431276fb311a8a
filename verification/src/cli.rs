//! The run configuration: a fully validated, immutable value created once
//! from parsed arguments and read-only for the lifetime of a run.

use vstd::prelude::*;

verus! {

/// All options of one run. `path` holds the inputs in the order they are to
/// be scanned; `max` is the global cap on printed results across the whole
/// run.
pub struct CommandLineArgs {
    pub pattern: String,
    pub path: Vec<String>,
    pub case_insensitive: bool,
    pub show_line_number: bool,
    pub display_color: bool,
    pub invert_match: bool,
    pub count: bool,
    pub stats: bool,
    pub line_regexp: bool,
    pub max: usize,
    pub no_filename: bool,
    pub files_without_match: bool,
    pub files_with_matches: bool,
}

/// The mathematical shape of a run configuration.
pub ghost struct ConfigV {
    pub pattern: Seq<char>,
    pub paths: Seq<Seq<char>>,
    pub case_insensitive: bool,
    pub show_line_number: bool,
    pub display_color: bool,
    pub invert_match: bool,
    pub count: bool,
    pub stats: bool,
    pub line_regexp: bool,
    pub max: nat,
    pub no_filename: bool,
    pub files_without_match: bool,
    pub files_with_matches: bool,
}

impl View for CommandLineArgs {
    type V = ConfigV;

    open spec fn view(&self) -> ConfigV {
        ConfigV {
            pattern: self.pattern@,
            paths: self.path@.map_values(|p: String| p@),
            case_insensitive: self.case_insensitive,
            show_line_number: self.show_line_number,
            display_color: self.display_color,
            invert_match: self.invert_match,
            count: self.count,
            stats: self.stats,
            line_regexp: self.line_regexp,
            max: self.max as nat,
            no_filename: self.no_filename,
            files_without_match: self.files_without_match,
            files_with_matches: self.files_with_matches,
        }
    }
}

} // verus!
