use rtl_action::supervisor::{BusyPolicy, SubmitDecision, Supervisor};

#[test]
fn skip_if_busy_leaves_mapping_unchanged() {
    let mut s = Supervisor::new(BusyPolicy::SkipIfBusy);
    s.record_spawn(41).expect("fresh pid must insert");
    assert_eq!(s.running_count(), 1);

    // A second matching event arrives: the decision is to skip, and nothing
    // about the mapping changes — still exactly the first action.
    assert!(s.should_skip());
    assert_eq!(s.running_count(), 1);

    // Once the first action is reaped, the next event proceeds.
    s.record_exit(41);
    assert!(!s.should_skip());
    assert_eq!(s.running_count(), 0);
}

#[test]
fn allow_never_skips() {
    let mut s = Supervisor::new(BusyPolicy::Allow);
    s.record_spawn(1).unwrap();
    s.record_spawn(2).unwrap();
    assert!(!s.should_skip());
    assert_eq!(s.running_count(), 2);
}

#[test]
fn kill_busy_then_run_reaps_all_then_runs_one() {
    let mut s = Supervisor::new(BusyPolicy::KillBusyThenRun);
    s.record_spawn(10).unwrap();
    s.record_spawn(20).unwrap();
    s.record_spawn(30).unwrap();
    assert_eq!(s.running_count(), 3);

    // The drain: each step removes one running action, which the caller then
    // signals and awaits before taking the next.
    let mut killed = Vec::new();
    while let Some(pid) = s.take_busy() {
        killed.push(pid);
    }
    killed.sort();
    assert_eq!(killed, vec![10, 20, 30]);
    assert_eq!(s.running_count(), 0);

    // Then the new action starts: the mapping holds exactly that one entry.
    s.record_spawn(99).expect("mapping is empty, insert must succeed");
    assert_eq!(s.running_count(), 1);
    assert!(s.take_busy() == Some(99));
}

#[test]
fn pid_collision_is_reported_and_changes_nothing() {
    let mut s = Supervisor::new(BusyPolicy::Allow);
    s.record_spawn(7).unwrap();
    assert!(s.record_spawn(7).is_err());
    assert_eq!(s.running_count(), 1);
}

#[test]
fn record_exit_of_unknown_pid_is_a_no_op() {
    let mut s = Supervisor::new(BusyPolicy::Allow);
    s.record_spawn(5).unwrap();
    s.record_exit(6);
    assert_eq!(s.running_count(), 1);
    s.record_exit(5);
    assert_eq!(s.running_count(), 0);
    s.record_exit(5);
    assert_eq!(s.running_count(), 0);
}

#[test]
fn submit_decisions_by_policy() {
    let mut skip = Supervisor::new(BusyPolicy::SkipIfBusy);
    assert_eq!(skip.decide_submit(), SubmitDecision::Start);
    skip.record_spawn(1).unwrap();
    assert_eq!(skip.decide_submit(), SubmitDecision::Skip);

    let mut kill = Supervisor::new(BusyPolicy::KillBusyThenRun);
    assert_eq!(kill.decide_submit(), SubmitDecision::DrainThenStart);
    kill.record_spawn(1).unwrap();
    assert_eq!(kill.decide_submit(), SubmitDecision::DrainThenStart);

    let mut allow = Supervisor::new(BusyPolicy::Allow);
    allow.record_spawn(1).unwrap();
    assert_eq!(allow.decide_submit(), SubmitDecision::Start);
}

#[test]
fn policy_is_fixed_for_the_lifetime() {
    let s = Supervisor::new(BusyPolicy::KillBusyThenRun);
    assert_eq!(s.policy(), BusyPolicy::KillBusyThenRun);
}
