use permcheck::probe::{capabilities_for, probe_command, verdict, Capability, PermissionResult, ProbeOutcome};

#[test]
fn command_runs_test_as_user() {
    let cmd = probe_command("alice", Capability::Read, "/srv/data");
    assert_eq!(cmd, vec!["sudo", "-u", "alice", "test", "-r", "/srv/data"]);
    let cmd = probe_command("bob", Capability::Write, "x");
    assert_eq!(cmd[4], "-w");
    let cmd = probe_command("bob", Capability::Traverse, "x");
    assert_eq!(cmd[4], "-x");
}

#[test]
fn capabilities_depend_on_kind() {
    assert_eq!(
        capabilities_for(true),
        vec![Capability::Read, Capability::Write, Capability::Traverse]
    );
    assert_eq!(capabilities_for(false), vec![Capability::Read, Capability::Write]);
}

#[test]
fn verdict_is_fail_closed() {
    assert!(verdict(ProbeOutcome::Exited { success: true }));
    assert!(!verdict(ProbeOutcome::Exited { success: false }));
    assert!(!verdict(ProbeOutcome::NotRun));
}

#[test]
fn unrun_probes_deny_everything() {
    let dir = PermissionResult::from_outcomes(
        ProbeOutcome::NotRun,
        ProbeOutcome::NotRun,
        Some(ProbeOutcome::NotRun),
    );
    assert_eq!(dir, PermissionResult { read: false, write: false, traverse: Some(false) });
    let file = PermissionResult::from_outcomes(ProbeOutcome::NotRun, ProbeOutcome::NotRun, None);
    assert_eq!(file, PermissionResult { read: false, write: false, traverse: None });
}

#[test]
fn outcomes_judged_one_by_one() {
    let p = PermissionResult::from_outcomes(
        ProbeOutcome::Exited { success: true },
        ProbeOutcome::Exited { success: false },
        Some(ProbeOutcome::Exited { success: true }),
    );
    assert_eq!(p, PermissionResult { read: true, write: false, traverse: Some(true) });
    assert_eq!(
        PermissionResult::uniform(false, true),
        PermissionResult { read: true, write: true, traverse: None }
    );
}

#[test]
fn letters_of_capabilities() {
    assert_eq!(Capability::Read.letter(), "R");
    assert_eq!(Capability::Write.letter(), "W");
    assert_eq!(Capability::Traverse.letter(), "T");
    assert_eq!(Capability::Traverse.test_flag(), "-x");
}
