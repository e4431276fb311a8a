//! A line-oriented pattern-search library: given a regular-expression
//! pattern and a set of already-read file contents, it reports which lines
//! match (or, inverted, which do not), under a set of orthogonal output
//! modes, with a global cap on how many results are printed.

pub mod cli;
pub mod line;
pub mod search;
pub mod text;
pub mod utils;

use crate::cli::CommandLineArgs;
use crate::cli::ConfigV;
use crate::line::LineV;
use crate::search::get_regex;
use crate::search::get_all_matches;
use crate::search::has_match;
use crate::search::has_match_spec;
use crate::search::matches_spec;
use crate::search::pattern_ok;
use crate::line::fmt_line_spec;
use crate::text::dec_str_of;
use crate::text::lines_of;
use crate::text::usize_to_string;
use crate::utils::colorize;
use crate::utils::colorize_spec;
use crate::utils::PaintColor;
use vstd::prelude::*;
use vstd::string::StringExecFns;

verus! {

/// One input to a run: a path label and the file's full text content, read
/// by the caller — the library itself never touches the file system.
pub struct FileInput {
    pub path: String,
    pub content: String,
}

/// The mathematical shape of one input file.
pub ghost struct FileV {
    pub path: Seq<char>,
    pub content: Seq<char>,
}

impl View for FileInput {
    type V = FileV;

    open spec fn view(&self) -> FileV {
        FileV { path: self.path@, content: self.content@ }
    }
}

/// The fatal configuration errors of a run: no input files, or a pattern
/// the regex compiler rejects. Both are reported before any file is
/// scanned.
#[derive(Debug, PartialEq, Eq, Structural)]
pub enum RunError {
    NoFiles,
    InvalidPattern,
}

/// What a run produces: the output lines in order, and the aggregate
/// counters — files with matches, total matches, results printed.
pub struct RunOutput {
    pub lines: Vec<String>,
    pub file_count: usize,
    pub match_count: usize,
    pub printed_count: usize,
}

/// The accumulator threaded through the files of a run: the output lines
/// emitted so far and the three counters.
pub ghost struct RunState {
    pub lines: Seq<Seq<char>>,
    pub file_count: nat,
    pub match_count: nat,
    pub printed: nat,
}

/// The state before any file is processed.
pub open spec fn init_state() -> RunState {
    RunState { lines: Seq::empty(), file_count: 0, match_count: 0, printed: 0 }
}

/// Addition that saturates at `usize::MAX`, as the total-match counter
/// does.
pub open spec fn cap_add(a: nat, b: nat) -> nat {
    if a + b > usize::MAX {
        usize::MAX as nat
    } else {
        a + b
    }
}

/// The path header shown above a file's matches: a blank line, then the
/// path, painted cyan under colour.
pub open spec fn header_line_spec(cfg: ConfigV, path: Seq<char>) -> Seq<char> {
    "\n"@ + colorize_spec(PaintColor::Cyan, path, cfg.display_color)
}

/// The per-file line of count mode: the path, a separator, and the file's
/// match count.
pub open spec fn count_line_spec(path: Seq<char>, n: nat) -> Seq<char> {
    path + ": \t"@ + dec_str_of(n)
}

/// Emit the first `k` matched lines of one file, one output line per match,
/// each gated by the global truncation budget.
pub open spec fn emit_upto(cfg: ConfigV, st0: RunState, ms: Seq<LineV>, k: nat) -> RunState
    decreases k,
{
    if k == 0 {
        st0
    } else {
        let prev = emit_upto(cfg, st0, ms, (k - 1) as nat);
        if prev.printed < cfg.max {
            RunState {
                lines: prev.lines.push(fmt_line_spec(cfg, ms[k - 1])),
                file_count: prev.file_count,
                match_count: prev.match_count,
                printed: prev.printed + 1,
            }
        } else {
            prev
        }
    }
}

/// Process one file. In the file-name-only modes the file's path alone is
/// printed when the file qualifies — for `files_without_match`, when no
/// line matches the un-inverted per-line test. Otherwise the file's matches
/// are enumerated; a file with none produces no output at all, and one with
/// some bumps the file and match counters and emits either its count line
/// or its header and matched lines, all under the global budget.
pub open spec fn file_step(cfg: ConfigV, hide: bool, st: RunState, f: FileV) -> RunState {
    let lines = lines_of(f.content);
    if cfg.files_with_matches || cfg.files_without_match {
        let found = has_match_spec(cfg.pattern, cfg.case_insensitive, false, cfg.line_regexp, lines);
        let qualifies = if cfg.files_without_match {
            !found
        } else {
            found
        };
        if qualifies && st.printed < cfg.max {
            RunState {
                lines: st.lines.push(f.path),
                file_count: st.file_count,
                match_count: st.match_count,
                printed: st.printed + 1,
            }
        } else {
            st
        }
    } else {
        let ms = matches_spec(
            cfg.pattern,
            cfg.case_insensitive,
            cfg.invert_match,
            cfg.line_regexp,
            lines,
        );
        if ms.len() == 0 {
            st
        } else {
            let st1 = RunState {
                lines: st.lines,
                file_count: st.file_count + 1,
                match_count: cap_add(st.match_count, ms.len()),
                printed: st.printed,
            };
            if cfg.count {
                if st1.printed < cfg.max {
                    RunState {
                        lines: st1.lines.push(count_line_spec(f.path, ms.len())),
                        file_count: st1.file_count,
                        match_count: st1.match_count,
                        printed: st1.printed + 1,
                    }
                } else {
                    st1
                }
            } else {
                let st2 = if st1.printed < cfg.max && !hide {
                    RunState {
                        lines: st1.lines.push(header_line_spec(cfg, f.path)),
                        file_count: st1.file_count,
                        match_count: st1.match_count,
                        printed: st1.printed,
                    }
                } else {
                    st1
                };
                emit_upto(cfg, st2, ms, ms.len())
            }
        }
    }
}

/// The state after the first `n` files, in input order.
pub open spec fn run_upto(cfg: ConfigV, hide: bool, files: Seq<FileV>, n: nat) -> RunState
    decreases n,
{
    if n == 0 {
        init_state()
    } else {
        file_step(cfg, hide, run_upto(cfg, hide, files, (n - 1) as nat), files[n - 1])
    }
}

/// Path headers are suppressed when asked for, and always when there is
/// exactly one input.
pub open spec fn hide_filename_spec(cfg: ConfigV, nfiles: nat) -> bool {
    cfg.no_filename || nfiles == 1
}

/// The state after all files of a run.
pub open spec fn run_state_spec(cfg: ConfigV, files: Seq<FileV>) -> RunState {
    run_upto(cfg, hide_filename_spec(cfg, files.len()), files, files.len())
}

/// The notice shown when nothing at all was printed.
pub open spec fn no_result_line() -> Seq<char> {
    "There is no result"@
}

/// The aggregate summary line, with the hidden count when the budget
/// truncated the output.
pub open spec fn summary_line_spec(st: RunState) -> Seq<char> {
    if st.printed != st.match_count {
        "\n"@ + dec_str_of(st.match_count) + " match(es) found (including "@ + dec_str_of(
            (st.match_count - st.printed) as nat,
        ) + " hidden) in "@ + dec_str_of(st.file_count) + " file(s)."@
    } else {
        "\n"@ + dec_str_of(st.match_count) + " match(es) found in "@ + dec_str_of(st.file_count)
            + " file(s)."@
    }
}

/// What follows the per-file output: the no-result notice when nothing was
/// printed, else the aggregate summary when requested — only in the modes
/// that compute line-level match counts.
pub open spec fn summary_lines_spec(cfg: ConfigV, st: RunState) -> Seq<Seq<char>> {
    if st.printed == 0 {
        seq![no_result_line()]
    } else if cfg.stats && !cfg.files_with_matches && !cfg.files_without_match {
        seq![summary_line_spec(st)]
    } else {
        Seq::empty()
    }
}

/// Every output line of a run, in order.
pub open spec fn run_output_spec(cfg: ConfigV, files: Seq<FileV>) -> Seq<Seq<char>> {
    let st = run_state_spec(cfg, files);
    st.lines + summary_lines_spec(cfg, st)
}

/// Search every input in order and produce the run's output lines and
/// counters. The inputs' contents are supplied by the caller; writing the
/// lines out is the caller's concern too.
pub fn run(config: &CommandLineArgs, files: &Vec<FileInput>) -> (r: Result<RunOutput, RunError>)
    ensures
        files@.len() == 0 ==> r == Err::<RunOutput, RunError>(RunError::NoFiles),
        files@.len() > 0 && !pattern_ok(config.pattern@, config.case_insensitive) ==> r == Err::<
            RunOutput,
            RunError,
        >(RunError::InvalidPattern),
        files@.len() > 0 && pattern_ok(config.pattern@, config.case_insensitive) ==> r is Ok,
        r matches Ok(out) ==> ({
            let fv = files@.map_values(|f: FileInput| f@);
            let st = run_state_spec(config@, fv);
            &&& out.lines@.map_values(|l: String| l@) == run_output_spec(config@, fv)
            &&& out.file_count as nat == st.file_count
            &&& out.match_count as nat == st.match_count
            &&& out.printed_count as nat == st.printed
            &&& out.printed_count <= config.max
        }),
{
    if files.len() == 0 {
        return Err(RunError::NoFiles);
    }
    let matcher = match get_regex(config.pattern.as_str(), config.case_insensitive) {
        Some(m) => m,
        None => { return Err(RunError::InvalidPattern); },
    };
    let ghost cfg = config@;
    let ghost fv = files@.map_values(|f: FileInput| f@);
    let hide = config.no_filename || files.len() == 1;
    proof {
        assert(hide == hide_filename_spec(cfg, fv.len()));
    }
    let mut out_lines: Vec<String> = Vec::new();
    let mut file_count: usize = 0;
    let mut match_count: usize = 0;
    let mut printed_count: usize = 0;
    let nf = files.len();
    for idx in 0..nf
        invariant
            nf == files.len(),
            cfg == config@,
            fv == files@.map_values(|f: FileInput| f@),
            matcher.pattern_view() == cfg.pattern,
            matcher.ci_view() == cfg.case_insensitive,
            hide == hide_filename_spec(cfg, fv.len()),
            file_count <= idx,
            ({
                let st = run_upto(cfg, hide, fv, idx as nat);
                &&& out_lines@.map_values(|l: String| l@) == st.lines
                &&& file_count as nat == st.file_count
                &&& match_count as nat == st.match_count
                &&& printed_count as nat == st.printed
            }),
    {
        let ghost st0 = run_upto(cfg, hide, fv, idx as nat);
        let f = &files[idx];
        proof {
            assert(fv[idx as int] == files@[idx as int]@);
        }
        if config.files_with_matches || config.files_without_match {
            let found = has_match(&matcher, f.content.as_str(), false, config.line_regexp);
            let qualifies = if config.files_without_match {
                !found
            } else {
                found
            };
            if qualifies && printed_count < config.max {
                out_lines.push(f.path.clone());
                printed_count = printed_count + 1;
                proof {
                    assert(out_lines@.map_values(|l: String| l@) =~= st0.lines.push(
                        fv[idx as int].path,
                    ));
                }
            }
        } else {
            let results = get_all_matches(
                &matcher,
                f.content.as_str(),
                config.invert_match,
                config.line_regexp,
            );
            let ghost ms = matches_spec(
                cfg.pattern,
                cfg.case_insensitive,
                cfg.invert_match,
                cfg.line_regexp,
                lines_of(fv[idx as int].content),
            );
            proof {
                assert(results@.map_values(|l: crate::line::Line| l@) == ms);
            }
            if results.len() > 0 {
                file_count = file_count + 1;
                match_count = match_count.saturating_add(results.len());
                let ghost st1 = RunState {
                    lines: st0.lines,
                    file_count: st0.file_count + 1,
                    match_count: cap_add(st0.match_count, ms.len()),
                    printed: st0.printed,
                };
                if config.count {
                    if printed_count < config.max {
                        let mut l = f.path.clone();
                        l.append(": \t");
                        l.append(usize_to_string(results.len()).as_str());
                        out_lines.push(l);
                        printed_count = printed_count + 1;
                        proof {
                            assert(out_lines@.map_values(|s: String| s@) =~= st1.lines.push(
                                count_line_spec(fv[idx as int].path, ms.len()),
                            ));
                        }
                    }
                } else {
                    if printed_count < config.max && !hide {
                        let mut h = "\n".to_owned();
                        h.append(
                            colorize(
                                PaintColor::Cyan,
                                f.path.as_str(),
                                config.display_color,
                            ).as_str(),
                        );
                        out_lines.push(h);
                        proof {
                            assert(out_lines@.map_values(|s: String| s@) =~= st1.lines.push(
                                header_line_spec(cfg, fv[idx as int].path),
                            ));
                        }
                    }
                    let ghost st2 = if st1.printed < cfg.max && !hide {
                        RunState {
                            lines: st1.lines.push(header_line_spec(cfg, fv[idx as int].path)),
                            file_count: st1.file_count,
                            match_count: st1.match_count,
                            printed: st1.printed,
                        }
                    } else {
                        st1
                    };
                    let nr = results.len();
                    for k in 0..nr
                        invariant
                            nr == results.len(),
                            cfg == config@,
                            matcher.pattern_view() == cfg.pattern,
                            matcher.ci_view() == cfg.case_insensitive,
                            results@.map_values(|l: crate::line::Line| l@) == ms,
                            ({
                                let st = emit_upto(cfg, st2, ms, k as nat);
                                &&& out_lines@.map_values(|l: String| l@) == st.lines
                                &&& file_count as nat == st.file_count
                                &&& match_count as nat == st.match_count
                                &&& printed_count as nat == st.printed
                            }),
                    {
                        let ghost stk = emit_upto(cfg, st2, ms, k as nat);
                        if printed_count < config.max {
                            let rendered = results[k].fmt_line(&matcher, config);
                            out_lines.push(rendered);
                            printed_count = printed_count + 1;
                            proof {
                                assert(ms[k as int] == results@[k as int]@);
                                assert(out_lines@.map_values(|l: String| l@) =~= stk.lines.push(
                                    fmt_line_spec(cfg, ms[k as int]),
                                ));
                            }
                        }
                    }
                    proof {
                        assert(emit_upto(cfg, st2, ms, nr as nat) == emit_upto(
                            cfg,
                            st2,
                            ms,
                            ms.len(),
                        ));
                    }
                }
            }
        }
        proof {
            assert(run_upto(cfg, hide, fv, (idx + 1) as nat) == file_step(
                cfg,
                hide,
                st0,
                fv[idx as int],
            ));
        }
    }
    let ghost st_final = run_upto(cfg, hide, fv, fv.len() as nat);
    proof {
        assert(st_final == run_state_spec(cfg, fv));
    }
    if printed_count == 0 {
        out_lines.push("There is no result".to_owned());
    } else if config.stats && !config.files_with_matches && !config.files_without_match {
        proof {
            lemma_printed_le_total(cfg, hide, fv, fv.len());
        }
        if printed_count != match_count {
            let mut l = "\n".to_owned();
            l.append(usize_to_string(match_count).as_str());
            l.append(" match(es) found (including ");
            l.append(usize_to_string(match_count - printed_count).as_str());
            l.append(" hidden) in ");
            l.append(usize_to_string(file_count).as_str());
            l.append(" file(s).");
            out_lines.push(l);
        } else {
            let mut l = "\n".to_owned();
            l.append(usize_to_string(match_count).as_str());
            l.append(" match(es) found in ");
            l.append(usize_to_string(file_count).as_str());
            l.append(" file(s).");
            out_lines.push(l);
        }
    }
    proof {
        assert(out_lines@.map_values(|l: String| l@) =~= run_output_spec(cfg, fv));
        lemma_printed_within_budget(cfg, hide, fv, fv.len());
    }
    Ok(RunOutput {
        lines: out_lines,
        file_count: file_count,
        match_count: match_count,
        printed_count: printed_count,
    })
}

proof fn lemma_emit_upto_bounds(cfg: ConfigV, st0: RunState, ms: Seq<LineV>, k: nat)
    ensures
        emit_upto(cfg, st0, ms, k).file_count == st0.file_count,
        emit_upto(cfg, st0, ms, k).match_count == st0.match_count,
        st0.printed <= emit_upto(cfg, st0, ms, k).printed <= st0.printed + k,
        st0.printed <= cfg.max ==> emit_upto(cfg, st0, ms, k).printed <= cfg.max,
    decreases k,
{
    if k > 0 {
        lemma_emit_upto_bounds(cfg, st0, ms, (k - 1) as nat);
    }
}

proof fn lemma_emit_upto_exhausted(cfg: ConfigV, st0: RunState, ms: Seq<LineV>, k: nat)
    requires
        st0.printed >= cfg.max,
    ensures
        emit_upto(cfg, st0, ms, k) == st0,
    decreases k,
{
    if k > 0 {
        lemma_emit_upto_exhausted(cfg, st0, ms, (k - 1) as nat);
    }
}

/// Once the truncation budget is spent, processing a further file emits
/// nothing at all — no header, no matched line, no count line, no path —
/// however many matches the file holds.
pub proof fn lemma_exhausted_budget_emits_nothing(cfg: ConfigV, hide: bool, st: RunState, f: FileV)
    requires
        st.printed >= cfg.max,
    ensures
        file_step(cfg, hide, st, f).lines == st.lines,
        file_step(cfg, hide, st, f).printed == st.printed,
{
    if !(cfg.files_with_matches || cfg.files_without_match) {
        let ms = matches_spec(
            cfg.pattern,
            cfg.case_insensitive,
            cfg.invert_match,
            cfg.line_regexp,
            lines_of(f.content),
        );
        if ms.len() > 0 && !cfg.count {
            let st1 = RunState {
                lines: st.lines,
                file_count: st.file_count + 1,
                match_count: cap_add(st.match_count, ms.len()),
                printed: st.printed,
            };
            lemma_emit_upto_exhausted(cfg, st1, ms, ms.len());
        }
    }
}

/// The truncation budget holds globally: across however many files and
/// matches a run has, the number of printed results never exceeds the
/// configured cap.
pub proof fn lemma_printed_within_budget(cfg: ConfigV, hide: bool, files: Seq<FileV>, n: nat)
    ensures
        run_upto(cfg, hide, files, n).printed <= cfg.max,
        run_upto(cfg, hide, files, n).file_count <= n,
        run_upto(cfg, hide, files, n).match_count <= usize::MAX,
    decreases n,
{
    if n > 0 {
        lemma_printed_within_budget(cfg, hide, files, (n - 1) as nat);
        let st = run_upto(cfg, hide, files, (n - 1) as nat);
        let f = files[n - 1];
        if !(cfg.files_with_matches || cfg.files_without_match) {
            let ms = matches_spec(
                cfg.pattern,
                cfg.case_insensitive,
                cfg.invert_match,
                cfg.line_regexp,
                lines_of(f.content),
            );
            if ms.len() > 0 && !cfg.count {
                let st1 = RunState {
                    lines: st.lines,
                    file_count: st.file_count + 1,
                    match_count: cap_add(st.match_count, ms.len()),
                    printed: st.printed,
                };
                let st2 = if st1.printed < cfg.max && !hide {
                    RunState {
                        lines: st1.lines.push(header_line_spec(cfg, f.path)),
                        file_count: st1.file_count,
                        match_count: st1.match_count,
                        printed: st1.printed,
                    }
                } else {
                    st1
                };
                lemma_emit_upto_bounds(cfg, st2, ms, ms.len());
            }
        }
    }
}

/// The same configuration with path headers switched off.
pub open spec fn with_no_filename(cfg: ConfigV) -> ConfigV {
    ConfigV {
        pattern: cfg.pattern,
        paths: cfg.paths,
        case_insensitive: cfg.case_insensitive,
        show_line_number: cfg.show_line_number,
        display_color: cfg.display_color,
        invert_match: cfg.invert_match,
        count: cfg.count,
        stats: cfg.stats,
        line_regexp: cfg.line_regexp,
        max: cfg.max,
        no_filename: true,
        files_without_match: cfg.files_without_match,
        files_with_matches: cfg.files_with_matches,
    }
}

proof fn lemma_emit_upto_ignores_no_filename(cfg: ConfigV, st0: RunState, ms: Seq<LineV>, k: nat)
    ensures
        emit_upto(with_no_filename(cfg), st0, ms, k) == emit_upto(cfg, st0, ms, k),
    decreases k,
{
    if k > 0 {
        lemma_emit_upto_ignores_no_filename(cfg, st0, ms, (k - 1) as nat);
    }
}

/// When exactly one path is supplied, the path header is suppressed even
/// when `no_filename` is off: the run's output is exactly what it would be
/// with `no_filename` set.
pub proof fn lemma_single_path_hides_filename(cfg: ConfigV, files: Seq<FileV>)
    requires
        files.len() == 1,
    ensures
        run_output_spec(cfg, files) == run_output_spec(with_no_filename(cfg), files),
{
    let cfg2 = with_no_filename(cfg);
    let f = files[0];
    assert(run_upto(cfg, true, files, 0) == init_state());
    assert(run_upto(cfg2, true, files, 0) == init_state());
    assert(run_upto(cfg, true, files, 1) == file_step(cfg, true, init_state(), f));
    assert(run_upto(cfg2, true, files, 1) == file_step(cfg2, true, init_state(), f));
    if !(cfg.files_with_matches || cfg.files_without_match) {
        let ms = matches_spec(
            cfg.pattern,
            cfg.case_insensitive,
            cfg.invert_match,
            cfg.line_regexp,
            lines_of(f.content),
        );
        if ms.len() > 0 && !cfg.count {
            let st1 = RunState {
                lines: init_state().lines,
                file_count: init_state().file_count + 1,
                match_count: cap_add(init_state().match_count, ms.len()),
                printed: init_state().printed,
            };
            lemma_emit_upto_ignores_no_filename(cfg, st1, ms, ms.len());
        }
    }
    assert(run_state_spec(cfg, files) == run_state_spec(cfg2, files));
}

/// In the modes that enumerate matches, the number of printed results never
/// exceeds the total number of matches found: every printed line or
/// count-mode entry is backed by at least one match.
pub proof fn lemma_printed_le_total(cfg: ConfigV, hide: bool, files: Seq<FileV>, n: nat)
    requires
        !cfg.files_with_matches,
        !cfg.files_without_match,
        cfg.max <= usize::MAX,
    ensures
        run_upto(cfg, hide, files, n).printed <= run_upto(cfg, hide, files, n).match_count,
    decreases n,
{
    if n > 0 {
        lemma_printed_le_total(cfg, hide, files, (n - 1) as nat);
        lemma_printed_within_budget(cfg, hide, files, (n - 1) as nat);
        let st = run_upto(cfg, hide, files, (n - 1) as nat);
        let f = files[n - 1];
        let ms = matches_spec(
            cfg.pattern,
            cfg.case_insensitive,
            cfg.invert_match,
            cfg.line_regexp,
            lines_of(f.content),
        );
        if ms.len() > 0 && !cfg.count {
            let st1 = RunState {
                lines: st.lines,
                file_count: st.file_count + 1,
                match_count: cap_add(st.match_count, ms.len()),
                printed: st.printed,
            };
            let st2 = if st1.printed < cfg.max && !hide {
                RunState {
                    lines: st1.lines.push(header_line_spec(cfg, f.path)),
                    file_count: st1.file_count,
                    match_count: st1.match_count,
                    printed: st1.printed,
                }
            } else {
                st1
            };
            lemma_emit_upto_bounds(cfg, st2, ms, ms.len());
        }
    }
}

} // verus!
