use simhark::batch::{
    batch_state_index, check_roster, group_chunks, max_chunk_world_count, rerun_indices,
    rerun_matches, setup_slots, take_next_chunk,
};
use simhark::report::{printed_statuses, report_headline, status_line};
use simhark::testcli::{should_trace, TestCli, TestReportMode};
use simhark::testing::{
    all_finished, count_outcome, record_outcomes, time_out_all, world_advances, TestCase, TestOutcome, TestPlan, TestReport, TestStatus,
    TestStatusKind, TestSuite, TestSuiteSnapshot,
};

fn s(x: &str) -> String {
    x.to_string()
}

#[test]
fn plan_flattens_suites_with_paths() {
    let plan = TestPlan::new()
        .suite(TestSuite::new(s("drive")).test(s("straight"), 1).test(s("turn"), 2))
        .suite(
            TestSuite::new(s("kick"))
                .subtests(s("chip"), vec![TestCase::new(s("short"), 3), TestCase::new(s("long"), 4)]),
        );
    let names: Vec<String> = plan.into_cases().iter().map(|c| c.display_name()).collect();
    assert_eq!(
        names,
        vec!["drive / straight", "drive / turn", "kick / chip / short", "kick / chip / long"]
    );
}

#[test]
fn groups_are_chunked() {
    let groups = vec![vec![1], vec![2, 3], vec![4], vec![5, 6, 7]];
    assert_eq!(max_chunk_world_count(&groups, 2), 4);
    assert_eq!(group_chunks(groups, 2), vec![vec![1, 2, 3], vec![4, 5, 6, 7]]);
    let mut pending = vec![vec![1], vec![2, 3], vec![4]];
    assert_eq!(take_next_chunk(&mut pending, 2), vec![1, 2, 3]);
    assert_eq!(pending, vec![vec![4]]);
    assert_eq!(take_next_chunk(&mut pending, 5), vec![4]);
    assert!(pending.is_empty());
}

#[test]
fn statuses_follow_outcomes() {
    let mut st = TestStatus::running(0, vec![s("a")], s("a"), 0);
    st.apply_outcome(TestOutcome::Running, 3);
    assert_eq!(st.outcome, TestStatusKind::Running);
    assert_eq!(st.frame, 3);
    st.apply_outcome(TestOutcome::Failed(s("ball lost")), 4);
    assert!(st.is_failure());
    st.apply_outcome(TestOutcome::Passed, 5);
    assert_eq!(st.outcome, TestStatusKind::Failed);
    assert_eq!(st.message.as_deref(), Some("ball lost"));
    let mut t = TestStatus::running(1, vec![], s("b"), 0);
    t.apply_timeout(99, 100);
    assert_eq!(t.outcome, TestStatusKind::Running);
    t.apply_timeout(100, 100);
    assert_eq!(t.outcome, TestStatusKind::TimedOut);
    assert_eq!(t.message.as_deref(), Some("timed out after 100 ticks"));
    let all = vec![st.clone(), t.clone()];
    assert!(all_finished(&all));
    assert_eq!(count_outcome(&all, TestStatusKind::TimedOut), 1);
}

#[test]
fn reports_and_snapshots() {
    let mut passed = TestStatus::running(0, vec![], s("p"), 0);
    passed.apply_outcome(TestOutcome::Passed, 10);
    let mut failed = TestStatus::running(1, vec![], s("f"), 0);
    failed.apply_outcome(TestOutcome::Failed(s("why")), 12);
    let mut r: TestReport<u8> = TestReport::empty();
    r.extend(TestReport { statuses: vec![passed.clone(), failed.clone()], final_states: vec![1] });
    assert_eq!(r.passed(), 1);
    assert_eq!(r.failed(), 1);
    assert!(!r.is_success());
    let snap = r.viewer_snapshot();
    assert_eq!((snap.passed, snap.failed, snap.timed_out, snap.running), (1, 1, 0, 0));
    let mut a = TestSuiteSnapshot::of_statuses(vec![passed.clone()]);
    a.extend(TestSuiteSnapshot::of_statuses(vec![failed.clone()]));
    assert_eq!(a.tests.len(), 2);
    assert_eq!(a.failed, 1);

    assert_eq!(report_headline(1, 1), "testing finished: 1 passed, 1 failed");
    assert_eq!(status_line(&failed), "[failed] frame=12 world=1 f: why");
    assert_eq!(status_line(&passed), "[passed] frame=10 world=0 p");
    let statuses = vec![passed, failed.clone(), failed];
    assert_eq!(printed_statuses(&statuses, 3, TestReportMode::Summary), Vec::<usize>::new());
    assert_eq!(printed_statuses(&statuses, 3, TestReportMode::All), vec![0, 1, 2]);
    assert_eq!(printed_statuses(&statuses, 3, TestReportMode::Failures), vec![1, 2]);
    assert_eq!(printed_statuses(&statuses, 2, TestReportMode::FailureDetails), vec![1]);
}

#[test]
fn cli_options() {
    let cli = TestCli::parse(vec![s("--failures"), s("--trace"), s("kick"), s("--trace-every"), s("0")]).unwrap();
    assert_eq!(cli.report, TestReportMode::Failures);
    assert_eq!(cli.trace_patterns, vec![s("kick")]);
    assert_eq!(cli.trace_every, 1);
    assert_eq!(
        TestCli::parse(vec![s("--bogus")]).unwrap_err(),
        "unknown argument: --bogus\nrun with --help for available test diagnostics"
    );
    assert_eq!(TestCli::parse(vec![s("--trace")]).unwrap_err(), "--trace requires a test name pattern");
    assert_eq!(
        TestCli::parse(vec![s("--trace-every"), s("x")]).unwrap_err(),
        "invalid --trace-every value: x"
    );
    assert!(TestCli::parse(vec![s("-h")]).unwrap().help);
    assert!(should_trace("kick / chip", &vec![s("chip")], None));
    assert!(!should_trace("kick / chip", &vec![s("drive")], None));
    assert!(!should_trace("kick / chip", &vec![], Some(&vec![s("other")])));
}

#[test]
fn rosters_and_slots() {
    assert!(check_roster(&vec![0, 1, 2], &vec![0]).is_none());
    assert!(check_roster(&vec![0, 0], &vec![]).is_some());
    assert!(check_roster(&vec![16], &vec![]).is_some());
    assert_eq!(setup_slots(&vec![2, 0], 3), vec![Some(1), None, Some(0)]);
}

#[test]
fn reruns() {
    assert_eq!(rerun_indices(&vec![5, 1, 9, 1], 6), vec![1, 5]);
    assert_eq!(batch_state_index(7, 3), 2);
    assert_eq!(batch_state_index(1, 3), 1);
    assert_eq!(batch_state_index(1, 0), 0);
    let current = vec![s("a"), s("b"), s("a"), s("c")];
    let fresh = vec![s("a"), s("b"), s("a2"), s("a")];
    assert_eq!(rerun_matches(&current, &fresh, &vec![0, 1, 2, 3]), vec![(0, 3), (1, 1)]);
}

#[test]
fn batch_steps_update_running_tests_only() {
    let mut passed = TestStatus::running(0, vec![], s("p"), 0);
    passed.apply_outcome(TestOutcome::Passed, 2);
    let mut statuses = vec![
        TestStatus::running(0, vec![], s("a"), 0),
        passed,
        TestStatus::running(2, vec![], s("c"), 0),
    ];
    record_outcomes(
        &mut statuses,
        vec![TestOutcome::Failed(s("off field")), TestOutcome::Failed(s("late")), TestOutcome::Running],
        &vec![5, 5, 5],
    );
    assert_eq!(statuses[0].outcome, TestStatusKind::Failed);
    assert_eq!(statuses[0].message.as_deref(), Some("off field"));
    assert_eq!(statuses[1].outcome, TestStatusKind::Passed);
    assert_eq!(statuses[1].frame, 2);
    assert_eq!(statuses[2].outcome, TestStatusKind::Running);
    assert_eq!(statuses[2].frame, 5);
    time_out_all(&mut statuses, &vec![5, 5, 600], 600);
    assert_eq!(statuses[2].outcome, TestStatusKind::TimedOut);
    assert_eq!(statuses[2].message.as_deref(), Some("timed out after 600 ticks"));
    assert_eq!(statuses[0].outcome, TestStatusKind::Failed);
    assert!(world_advances(TestStatusKind::Running, true));
    assert!(!world_advances(TestStatusKind::Passed, true));
    assert!(world_advances(TestStatusKind::Passed, false));
}

#[test]
fn viewer_snapshot_copies_every_status() {
    let mut failed = TestStatus::running(1, vec![s("kick"), s("f")], s("kick / f"), 0);
    failed.apply_outcome(TestOutcome::Failed(s("why")), 12);
    let running = TestStatus::running(0, vec![s("r")], s("r"), 3);
    let r: TestReport<u8> = TestReport { statuses: vec![running, failed], final_states: vec![] };
    let snap = r.viewer_snapshot();
    assert_eq!(snap.tests.len(), 2);
    assert_eq!(snap.tests[0].name, "r");
    assert_eq!(snap.tests[0].outcome, TestStatusKind::Running);
    assert_eq!(snap.tests[1].path, vec![s("kick"), s("f")]);
    assert_eq!(snap.tests[1].outcome, TestStatusKind::Failed);
    assert_eq!(snap.tests[1].message.as_deref(), Some("why"));
    assert_eq!(snap.tests[1].frame, 12);
    assert_eq!((snap.failed, snap.running), (1, 1));
}

#[test]
fn plan_cases_are_the_suites_cases_in_order() {
    let empty: TestPlan<u8> = TestPlan::new();
    assert!(empty.into_cases().is_empty());
    let a = TestSuite::new(s("a")).test(s("x"), 1u8);
    let b = TestSuite::new(s("b")).test(s("y"), 2u8).test(s("z"), 3u8);
    let expect: Vec<String> = vec![s("a / x"), s("b / y"), s("b / z")];
    let got: Vec<String> = TestPlan::new().suite(a).suite(b).into_cases().iter().map(|c| c.display_name()).collect();
    assert_eq!(got, expect);
}

#[test]
fn report_count_laws() {
    let mut f = TestStatus::running(0, vec![], s("f"), 0);
    f.apply_outcome(TestOutcome::Failed(s("x")), 1);
    let mut t = TestStatus::running(1, vec![], s("t"), 0);
    t.apply_timeout(5, 5);
    let mut p = TestStatus::running(2, vec![], s("p"), 0);
    p.apply_outcome(TestOutcome::Passed, 1);
    let r = TestStatus::running(3, vec![], s("r"), 0);
    let rep: TestReport<u8> = TestReport { statuses: vec![f, t, p, r], final_states: vec![] };
    assert_eq!(rep.failed(), rep.statuses.iter().filter(|x| x.is_failure()).count());
    assert!(rep.passed() + rep.failed() <= rep.statuses.len());
    assert_eq!(rep.is_success(), rep.statuses.iter().all(|x| !x.is_failure()));
}

#[test]
fn roster_problems_in_order() {
    let p = check_roster(&vec![0, 20, 0], &vec![1, 1]).unwrap();
    assert_eq!(format!("{p:?}"), "IdOutOfRange { team: Blue, id: 20 }");
    let q = check_roster(&vec![0, 1], &vec![3, 3]).unwrap();
    assert_eq!(format!("{q:?}"), "DuplicateId { team: Yellow, id: 3 }");
    let many: Vec<usize> = (0..17).collect();
    let r = check_roster(&vec![0, 0], &many).unwrap();
    assert_eq!(format!("{r:?}"), "TooManyRobots { team: Yellow, count: 17 }");
}

#[test]
fn batches_take_size_groups_at_a_time() {
    assert_eq!(group_chunks(vec![vec![1], vec![], vec![2], vec![], vec![]], 2), vec![vec![1], vec![2]]);
    assert_eq!(group_chunks(vec![vec![1], vec![2], vec![3]], 1), vec![vec![1], vec![2], vec![3]]);
}
