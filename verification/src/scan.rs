//! The scan as a whole: what each candidate file adds to the output and to the
//! count, and how the count becomes the exit status.

use crate::duplicates::duplicate_count;
use crate::findings::{check_dmi, duplicate_lines, raised};
use crate::icon::icon_keys;
use crate::message::{
    format_summary, format_unopened, format_unparsed, format_unresolved, summary_line, texts,
    unopened_line, unparsed_line, unresolved_line,
};
use crate::state::StateKey;
use dmi::icon::Icon;
use vstd::prelude::*;

verus! {

/// How a scan reports and how it ends.
#[derive(Clone, Copy, Debug)]
pub struct Options {
    /// End with status 0 instead of the number of duplicates found.
    pub donterror: bool,
    /// Print a warning for each file that cannot be read.
    pub warn_read: bool,
    /// Print findings as error annotations for automated log processing.
    pub actions_fmt: bool,
}

impl Default for Options {
    fn default() -> (options: Self)
        ensures
            options == (Options { donterror: false, warn_read: true, actions_fmt: false }),
    {
        Options { donterror: false, warn_read: true, actions_fmt: false }
    }
}

/// What became of one candidate file.
#[derive(Debug)]
pub enum FileOutcome {
    /// The directory entry could not be resolved to a path.
    Unresolved { cause: String },
    /// The file could not be opened.
    Unopened { path: String, cause: String },
    /// The file was opened but is no well-formed icon.
    Unparsed { path: String, cause: String },
    /// The file was loaded.
    Loaded { path: String, icon: Icon },
}

/// A file outcome as contracts see it: texts, and of a loaded icon its keys.
pub enum Outcome {
    Unresolved { cause: Seq<char> },
    Unopened { path: Seq<char>, cause: Seq<char> },
    Unparsed { path: Seq<char>, cause: Seq<char> },
    Loaded { path: Seq<char>, keys: Seq<StateKey> },
}

impl View for FileOutcome {
    type V = Outcome;

    open spec fn view(&self) -> Outcome {
        match *self {
            FileOutcome::Unresolved { cause } => Outcome::Unresolved { cause: cause@ },
            FileOutcome::Unopened { path, cause } => Outcome::Unopened {
                path: path@,
                cause: cause@,
            },
            FileOutcome::Unparsed { path, cause } => Outcome::Unparsed {
                path: path@,
                cause: cause@,
            },
            FileOutcome::Loaded { path, icon } => Outcome::Loaded {
                path: path@,
                keys: icon_keys(icon),
            },
        }
    }
}

/// The outcomes of a list of files, as contracts see them.
pub open spec fn outcomes_of(files: Seq<FileOutcome>) -> Seq<Outcome> {
    files.map_values(|file: FileOutcome| file@)
}

/// The number of duplicates that one file adds to the count.
pub open spec fn outcome_findings(outcome: Outcome) -> nat {
    match outcome {
        Outcome::Loaded { path, keys } => duplicate_count(keys),
        _ => 0,
    }
}

/// The lines that one file adds to the output.
///
/// A loaded icon adds its findings, whatever the options say of warnings. A
/// file that could not be read adds one warning where warnings are asked
/// for, and nothing otherwise.
pub open spec fn outcome_lines(outcome: Outcome, options: Options) -> Seq<Seq<char>> {
    match outcome {
        Outcome::Loaded { path, keys } => duplicate_lines(path, keys, options.actions_fmt),
        Outcome::Unresolved { cause } => if options.warn_read {
            seq![unresolved_line(cause)]
        } else {
            Seq::empty()
        },
        Outcome::Unopened { path, cause } => if options.warn_read {
            seq![unopened_line(path, cause)]
        } else {
            Seq::empty()
        },
        Outcome::Unparsed { path, cause } => if options.warn_read {
            seq![unparsed_line(path, cause, options.actions_fmt)]
        } else {
            Seq::empty()
        },
    }
}

/// The number of duplicates among all the files of a scan.
pub open spec fn total_findings(outcomes: Seq<Outcome>) -> nat
    decreases outcomes.len(),
{
    if outcomes.len() == 0 {
        0
    } else {
        total_findings(outcomes.drop_last()) + outcome_findings(outcomes.last())
    }
}

/// The lines that the files of a scan add to the output, file after file.
pub open spec fn scan_lines(outcomes: Seq<Outcome>, options: Options) -> Seq<Seq<char>>
    decreases outcomes.len(),
{
    if outcomes.len() == 0 {
        Seq::empty()
    } else {
        scan_lines(outcomes.drop_last(), options) + outcome_lines(outcomes.last(), options)
    }
}

/// The exit status of a scan that counted `error_count` duplicates.
pub open spec fn exit_status_of(error_count: int, donterror: bool) -> int {
    if donterror {
        0
    } else {
        error_count
    }
}

/// Takes in what became of one file.
///
/// Returns the lines to print for it and raises `error_count` by the
/// duplicates found in it. Only a loaded icon can raise the count.
pub fn record_outcome(outcome: &FileOutcome, options: &Options, error_count: &mut i32) -> (lines:
    Vec<String>)
    ensures
        texts(lines@) == outcome_lines(outcome@, *options),
        *final(error_count) == raised(*old(error_count) as int, outcome_findings(outcome@)),
{
    match outcome {
        FileOutcome::Loaded { path, icon } => check_dmi(
            icon,
            path.as_str(),
            error_count,
            options.actions_fmt,
        ),
        FileOutcome::Unresolved { cause } => {
            let line = format_unresolved(cause.as_str());
            warning(line, options.warn_read)
        },
        FileOutcome::Unopened { path, cause } => {
            let line = format_unopened(path.as_str(), cause.as_str());
            warning(line, options.warn_read)
        },
        FileOutcome::Unparsed { path, cause } => {
            let line = format_unparsed(path.as_str(), cause.as_str(), options.actions_fmt);
            warning(line, options.warn_read)
        },
    }
}

/// The warning `line` alone where warnings are asked for, else no line.
fn warning(line: String, loud: bool) -> (lines: Vec<String>)
    ensures
        texts(lines@) == if loud {
            seq![line@]
        } else {
            Seq::<Seq<char>>::empty()
        },
{
    let mut lines: Vec<String> = Vec::new();
    if loud {
        lines.push(line);
        assert(texts(lines@) =~= seq![line@]);
    } else {
        assert(texts(lines@) =~= Seq::<Seq<char>>::empty());
    }
    lines
}

/// The exit status of a scan that counted `error_count` duplicates: the count
/// itself, or 0 where `donterror` is set.
pub fn exit_status(error_count: i32, donterror: bool) -> (status: i32)
    ensures
        status == exit_status_of(error_count as int, donterror),
{
    if donterror {
        0
    } else {
        error_count
    }
}

/// What a finished scan has to show.
#[derive(Debug)]
pub struct ScanReport {
    /// The lines to print, in order; the last is the summary.
    pub lines: Vec<String>,
    /// The number of duplicates found.
    pub error_count: i32,
    /// The status to end the process with.
    pub status: i32,
}

/// Runs a whole scan over what became of its files, in the order given.
///
/// The report holds the lines of each file in turn and then the summary, the
/// number of duplicates over all files, and the exit status that the options
/// make of that number.
pub fn scan_all(files: &Vec<FileOutcome>, options: &Options) -> (report: ScanReport)
    ensures
        texts(report.lines@) == scan_lines(outcomes_of(files@), *options).push(
            summary_line(report.error_count as int),
        ),
        report.error_count == raised(0, total_findings(outcomes_of(files@))),
        report.status == exit_status_of(report.error_count as int, options.donterror),
{
    let ghost outcomes = outcomes_of(files@);
    let mut lines: Vec<String> = Vec::new();
    let mut error_count: i32 = 0;
    let mut i: usize = 0;
    assert(texts(lines@) =~= scan_lines(outcomes.take(0), *options));
    while i < files.len()
        invariant
            i <= files.len(),
            outcomes == outcomes_of(files@),
            texts(lines@) == scan_lines(outcomes.take(i as int), *options),
            error_count == raised(0, total_findings(outcomes.take(i as int))),
        decreases files.len() - i,
    {
        let ghost lines_before = lines@;
        let mut added = record_outcome(&files[i], options, &mut error_count);
        let ghost added_lines = added@;
        lines.append(&mut added);
        proof {
            assert(outcomes.take(i + 1).drop_last() =~= outcomes.take(i as int));
            assert(outcomes.take(i + 1).last() == files@[i as int]@);
            assert(texts(lines@) =~= texts(lines_before) + texts(added_lines));
        }
        i += 1;
    }
    assert(outcomes.take(i as int) =~= outcomes);
    let summary = format_summary(error_count);
    let ghost lines_before = lines@;
    lines.push(summary);
    assert(texts(lines@) =~= texts(lines_before).push(summary@));
    ScanReport { lines, error_count, status: exit_status(error_count, options.donterror) }
}

/// Scanning one list of files after another finds the duplicates of both, and
/// prints the lines of the first list and then those of the second.
pub proof fn lemma_scan_is_additive(first: Seq<Outcome>, second: Seq<Outcome>, options: Options)
    ensures
        total_findings(first + second) == total_findings(first) + total_findings(second),
        scan_lines(first + second, options) == scan_lines(first, options) + scan_lines(
            second,
            options,
        ),
    decreases second.len(),
{
    if second.len() == 0 {
        assert(first + second =~= first);
        assert(scan_lines(first, options) + scan_lines(second, options) =~= scan_lines(
            first,
            options,
        ));
    } else {
        lemma_scan_is_additive(first, second.drop_last(), options);
        assert((first + second).drop_last() =~= first + second.drop_last());
        assert((first + second).last() == second.last());
        assert(scan_lines(first + second, options) =~= scan_lines(first, options) + scan_lines(
            second,
            options,
        ));
    }
}

/// A file that could not be resolved, opened or parsed adds no duplicate. It
/// adds exactly one line where warnings are asked for, and none otherwise.
pub proof fn lemma_unread_file_adds_nothing(outcome: Outcome, options: Options)
    requires
        !(outcome is Loaded),
    ensures
        outcome_findings(outcome) == 0,
        outcome_lines(outcome, options).len() == if options.warn_read {
            1nat
        } else {
            0nat
        },
{
}

/// The findings of a loaded icon are printed whether or not warnings are
/// asked for.
pub proof fn lemma_findings_ignore_warnings(outcome: Outcome, quiet: Options, loud: Options)
    requires
        outcome is Loaded,
        quiet.actions_fmt == loud.actions_fmt,
    ensures
        outcome_lines(outcome, quiet) == outcome_lines(outcome, loud),
{
}

/// A scan depends on nothing but what became of its files and the options:
/// two scans that meet the same outcomes in the same order find the same
/// number of duplicates and print the same lines in the same order.
pub proof fn lemma_scan_repeats(first: Seq<FileOutcome>, second: Seq<FileOutcome>, options: Options)
    requires
        outcomes_of(first) == outcomes_of(second),
    ensures
        raised(0, total_findings(outcomes_of(first))) == raised(
            0,
            total_findings(outcomes_of(second)),
        ),
        scan_lines(outcomes_of(first), options) == scan_lines(outcomes_of(second), options),
{
}

} // verus!
