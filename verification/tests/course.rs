use cargo_up::registry::{build_finished, exact_requirement, find_package, upgrader_name};
use cargo_up::session::{advance, may_write, opening, Event, Phase};
use cargo_up::runner::{in_workspace, starts_with};
use cargo_up::{runner, Plan, RunError, SemverVersion};

fn after(events: &[Event]) -> Phase {
    events.iter().fold(Phase::Validating, |phase, event| advance(phase, *event))
}

#[test]
fn a_run_goes_through_its_phases_in_order() {
    assert_eq!(after(&[]), Phase::Validating);
    assert_eq!(after(&[Event::Chosen]), Phase::Preloading);
    assert_eq!(after(&[Event::Chosen, Event::Prepared]), Phase::Walking);
    assert_eq!(after(&[Event::Chosen, Event::Prepared, Event::FileWalked, Event::FileWalked]), Phase::Walking);
    assert_eq!(after(&[Event::Chosen, Event::Prepared, Event::FileWalked, Event::AllWalked]), Phase::Applying);
    assert_eq!(
        after(&[Event::Chosen, Event::Prepared, Event::AllWalked, Event::FileWritten, Event::AllWritten]),
        Phase::Done
    );
}

#[test]
fn files_are_written_only_while_applying() {
    assert!(!may_write(Phase::Validating));
    assert!(!may_write(Phase::Preloading));
    assert!(!may_write(Phase::Walking));
    assert!(may_write(Phase::Applying));
    assert!(!may_write(Phase::Done));
    assert!(!may_write(Phase::Aborted));
}

#[test]
fn a_refused_run_never_writes() {
    let all = [
        Event::Refused,
        Event::NothingRegistered,
        Event::Chosen,
        Event::Prepared,
        Event::InitFailed,
        Event::FileWalked,
        Event::HookFailed,
        Event::AllWalked,
        Event::FileWritten,
        Event::AllWritten,
        Event::IoFailed,
    ];
    for first in [Event::Refused, Event::NothingRegistered] {
        let mut phase = advance(Phase::Validating, first);
        for event in all.iter().chain(all.iter().rev()) {
            phase = advance(phase, *event);
            assert!(!may_write(phase));
        }
        assert_eq!(phase, if first == Event::Refused { Phase::Aborted } else { Phase::Done });
    }
}

#[test]
fn a_failure_before_applying_aborts() {
    assert_eq!(after(&[Event::Chosen, Event::InitFailed]), Phase::Aborted);
    assert_eq!(after(&[Event::Chosen, Event::IoFailed]), Phase::Aborted);
    assert_eq!(after(&[Event::Chosen, Event::Prepared, Event::FileWalked, Event::HookFailed]), Phase::Aborted);
    assert_eq!(
        after(&[Event::Chosen, Event::Prepared, Event::HookFailed, Event::AllWalked, Event::FileWritten]),
        Phase::Aborted
    );
    assert_eq!(after(&[Event::Chosen, Event::Prepared, Event::AllWalked, Event::IoFailed]), Phase::Done);
}

#[test]
fn events_out_of_place_change_nothing() {
    assert_eq!(after(&[Event::AllWalked]), Phase::Validating);
    assert_eq!(after(&[Event::Chosen, Event::AllWalked]), Phase::Preloading);
    assert_eq!(after(&[Event::Chosen, Event::Prepared, Event::Chosen, Event::AllWritten]), Phase::Walking);
}

#[test]
fn the_start_of_a_run_opens_its_course() {
    let mut below = runner().unwrap();
    let refused = below.start("upgradee", &SemverVersion::new(0, 1, 0), SemverVersion::new(0, 3, 0));
    assert!(matches!(refused, Err(RunError::NotMinimum(_, _))));
    assert_eq!(opening(&refused), Event::Refused);
    assert!(below.get_version().is_none());

    let mut nothing = runner().unwrap();
    let none = nothing.start("upgradee", &SemverVersion::new(0, 2, 0), SemverVersion::new(0, 9, 0));
    assert!(matches!(none, Ok(Plan::NoChanges)));
    assert_eq!(opening(&none), Event::NothingRegistered);

    let mut fine = runner().unwrap();
    let chosen = fine.start("upgradee", &SemverVersion::new(0, 2, 0), SemverVersion::new(0, 4, 0));
    assert!(matches!(chosen, Ok(Plan::Upgrade { version: 1, .. })));
    assert_eq!(opening(&chosen), Event::Chosen);
    assert!(fine.get_version().unwrap().version().same(&SemverVersion::new(0, 4, 0)));
}

#[test]
fn a_dependency_is_found_by_its_normalized_name() {
    let names: Vec<String> = ["serde", "cargo-up", "cargo_up", "clap"].iter().map(|s| s.to_string()).collect();
    assert_eq!(find_package(&names, "cargo_up"), Some(1));
    assert_eq!(find_package(&names, "cargo-up"), Some(1));
    assert_eq!(find_package(&names, "clap"), Some(3));
    assert_eq!(find_package(&names, "notfound"), None);
    assert_eq!(find_package(&Vec::new(), "clap"), None);
}

#[test]
fn an_upgrader_is_named_after_its_dependency() {
    assert_eq!(upgrader_name("upgradee"), "upgradee_up");
    assert_eq!(upgrader_name("cargo-up"), "cargo_up_up");
}

#[test]
fn an_exact_requirement_is_quoted() {
    assert_eq!(exact_requirement("0.3.0"), "\"=0.3.0\"");
    assert_eq!(exact_requirement(""), "\"=\"");
}

#[test]
fn a_build_is_finished_where_cargo_says_so() {
    assert!(build_finished("   Compiling runner v0.0.0\n    Finished dev [unoptimized + debuginfo] target(s) in 2.1s"));
    assert!(build_finished("Finished"));
    assert!(!build_finished("error: could not compile `runner`"));
    assert!(!build_finished("finished"));
    assert!(!build_finished(""));
}

fn parts(path: &str) -> Vec<String> {
    path.split('/').filter(|p| !p.is_empty()).map(|p| p.to_string()).collect()
}

#[test]
fn a_path_lies_below_its_root_by_whole_components() {
    assert!(starts_with(&parts("/work/on/src/main.rs"), &parts("/work/on")));
    assert!(starts_with(&parts("/work/on"), &parts("/work/on")));
    assert!(starts_with(&parts("/work/on"), &parts("")));
    assert!(!starts_with(&parts("/work/only/src/main.rs"), &parts("/work/on")));
    assert!(!starts_with(&parts("/work"), &parts("/work/on")));
    assert!(!starts_with(&parts("/other/on/src"), &parts("/work/on")));
}

#[test]
fn a_source_root_is_walked_where_a_package_of_it_lies_in_the_workspace() {
    let root = parts("/work/on");
    assert!(in_workspace(&vec![parts("/home/registry/dep/src/lib.rs"), parts("/work/on/src/main.rs")], &root));
    assert!(!in_workspace(&vec![parts("/home/registry/dep/src/lib.rs"), parts("/work/upgradee/src/lib.rs")], &root));
    assert!(!in_workspace(&vec![], &root));
}
