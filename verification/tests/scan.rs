use dmi::icon::{Icon, IconState};
use duplicate_states::scan::{exit_status, record_outcome, scan_all, FileOutcome, Options};

fn loaded(path: &str, states: &[(&str, bool)]) -> FileOutcome {
    let states = states
        .iter()
        .map(|(name, movement)| IconState {
            name: name.to_string(),
            movement: *movement,
            ..Default::default()
        })
        .collect();
    FileOutcome::Loaded { path: path.to_string(), icon: Icon { states, ..Default::default() } }
}

fn unopened(path: &str) -> FileOutcome {
    FileOutcome::Unopened { path: path.to_string(), cause: "No such file".to_string() }
}

fn quiet() -> Options {
    Options { donterror: false, warn_read: false, actions_fmt: false }
}

#[test]
fn default_options() {
    let options = Options::default();
    assert!(!options.donterror);
    assert!(options.warn_read);
    assert!(!options.actions_fmt);
}

#[test]
fn unopened_file_with_warnings() {
    let mut count = 0;
    let lines = record_outcome(&unopened("a.dmi"), &Options::default(), &mut count);
    assert_eq!(count, 0);
    assert_eq!(lines, vec!["Couldn't read file at a.dmi : No such file".to_string()]);
}

#[test]
fn unopened_file_without_warnings() {
    let mut count = 0;
    let lines = record_outcome(&unopened("a.dmi"), &quiet(), &mut count);
    assert_eq!(count, 0);
    assert!(lines.is_empty());
}

#[test]
fn unopened_file_has_no_annotated_form() {
    let options = Options { donterror: false, warn_read: true, actions_fmt: true };
    let mut count = 0;
    let lines = record_outcome(&unopened("a.dmi"), &options, &mut count);
    assert_eq!(lines, vec!["Couldn't read file at a.dmi : No such file".to_string()]);
}

#[test]
fn unresolved_entry() {
    let outcome = FileOutcome::Unresolved { cause: "loop".to_string() };
    let mut count = 2;
    let lines = record_outcome(&outcome, &Options::default(), &mut count);
    assert_eq!(count, 2);
    assert_eq!(lines, vec!["Couldn't read path:loop".to_string()]);
    assert!(record_outcome(&outcome, &quiet(), &mut count).is_empty());
    assert_eq!(count, 2);
}

#[test]
fn unparsed_file() {
    let outcome =
        FileOutcome::Unparsed { path: "b.dmi".to_string(), cause: "truncated".to_string() };
    let mut count = 0;
    let plain = record_outcome(&outcome, &Options::default(), &mut count);
    assert_eq!(plain, vec!["Couldn't read DMI at b.dmi : truncated".to_string()]);
    let annotated = record_outcome(
        &outcome,
        &Options { donterror: false, warn_read: true, actions_fmt: true },
        &mut count,
    );
    assert_eq!(
        annotated,
        vec!["::error file=b.dmi,title=Weird DMI format::Couldn't read DMI at b.dmi : truncated"
            .to_string()]
    );
    assert!(record_outcome(&outcome, &quiet(), &mut count).is_empty());
    assert_eq!(count, 0);
}

#[test]
fn findings_are_printed_without_warnings() {
    let outcome = loaded("c.dmi", &[("a", false), ("a", false)]);
    let mut count = 0;
    let lines = record_outcome(&outcome, &quiet(), &mut count);
    assert_eq!(count, 1);
    assert_eq!(lines, vec!["Duplicate state in c.dmi : a".to_string()]);
}

#[test]
fn exit_status_is_the_count() {
    assert_eq!(exit_status(5, false), 5);
    assert_eq!(exit_status(0, false), 0);
    assert_eq!(exit_status(i32::MAX, false), i32::MAX);
}

#[test]
fn exit_status_suppressed() {
    assert_eq!(exit_status(5, true), 0);
    assert_eq!(exit_status(0, true), 0);
}

#[test]
fn five_duplicates_with_and_without_suppression() {
    let files = vec![
        loaded("a.dmi", &[("s", false), ("s", false), ("s", false), ("s", false)]),
        loaded("b.dmi", &[("t", true), ("u", false), ("t", true), ("u", false)]),
    ];
    let report = scan_all(&files, &Options::default());
    assert_eq!(report.error_count, 5);
    assert_eq!(report.status, 5);
    let suppressed =
        scan_all(&files, &Options { donterror: true, warn_read: true, actions_fmt: false });
    assert_eq!(suppressed.error_count, 5);
    assert_eq!(suppressed.status, 0);
    assert_eq!(suppressed.lines, report.lines);
}

#[test]
fn two_search_paths_with_one_duplicate_each() {
    let first = vec![loaded("one/a.dmi", &[("x", false), ("x", false)])];
    let second = vec![loaded("two/a.dmi", &[("y", true), ("y", true)])];
    assert_eq!(scan_all(&first, &Options::default()).error_count, 1);
    assert_eq!(scan_all(&second, &Options::default()).error_count, 1);
    let both = vec![
        loaded("one/a.dmi", &[("x", false), ("x", false)]),
        loaded("two/a.dmi", &[("y", true), ("y", true)]),
    ];
    let report = scan_all(&both, &Options::default());
    assert_eq!(report.error_count, 2);
    assert_eq!(
        report.lines,
        vec![
            "Duplicate state in one/a.dmi : x".to_string(),
            "Duplicate state in two/a.dmi : y".to_string(),
            "Complete, 2 duplicates found.".to_string(),
        ]
    );
}

#[test]
fn scan_of_nothing() {
    let report = scan_all(&Vec::new(), &Options::default());
    assert_eq!(report.error_count, 0);
    assert_eq!(report.status, 0);
    assert_eq!(report.lines, vec!["Complete, 0 duplicates found.".to_string()]);
}

#[test]
fn scan_twice_gives_the_same_report() {
    let files = vec![
        unopened("gone.dmi"),
        loaded("a.dmi", &[("s", false), ("s", true), ("s", false)]),
        FileOutcome::Unparsed { path: "bad.dmi".to_string(), cause: "no header".to_string() },
        loaded("b.dmi", &[("t", false), ("t", false), ("t", false)]),
    ];
    let options = Options { donterror: false, warn_read: true, actions_fmt: true };
    let first = scan_all(&files, &options);
    let second = scan_all(&files, &options);
    assert_eq!(first.lines, second.lines);
    assert_eq!(first.error_count, second.error_count);
    assert_eq!(first.status, second.status);
    assert_eq!(first.error_count, 3);
    assert_eq!(first.lines.len(), 6);
}

#[test]
fn unread_files_leave_the_total_alone() {
    let files = vec![
        unopened("gone.dmi"),
        loaded("a.dmi", &[("s", false), ("s", false)]),
        FileOutcome::Unresolved { cause: "denied".to_string() },
    ];
    let report = scan_all(&files, &quiet());
    assert_eq!(report.error_count, 1);
    assert_eq!(
        report.lines,
        vec![
            "Duplicate state in a.dmi : s".to_string(),
            "Complete, 1 duplicates found.".to_string(),
        ]
    );
    let loud = scan_all(&files, &Options::default());
    assert_eq!(loud.error_count, 1);
    assert_eq!(
        loud.lines,
        vec![
            "Couldn't read file at gone.dmi : No such file".to_string(),
            "Duplicate state in a.dmi : s".to_string(),
            "Couldn't read path:denied".to_string(),
            "Complete, 1 duplicates found.".to_string(),
        ]
    );
}
