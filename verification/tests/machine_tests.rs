use course_runner::parsing::{JsonCourse, JsonTest, JsonTestSuite, ParsingError, TestResult};
use course_runner::runner::{Event, RunnerVersion, TestRunner, TestRunnerState};

fn mk_test(name: &str, optional: bool) -> JsonTest {
    JsonTest {
        name: name.to_string(),
        optional,
        cmd: "true".to_string(),
        message_on_fail: format!("{name} failed"),
        message_on_success: format!("{name} passed"),
    }
}

fn mk_suite(name: &str, optional: bool, tests: Vec<JsonTest>) -> JsonTestSuite {
    JsonTestSuite { name: name.to_string(), optional, tests }
}

fn mk_course(version: &str, suites: Vec<JsonTestSuite>) -> JsonCourse {
    JsonCourse {
        version: version.to_string(),
        name: "Rust Basics".to_string(),
        instructor: "Ada".to_string(),
        course_id: 42,
        suites,
    }
}

fn drive_runner(mut runner: TestRunner, outcomes: Vec<TestResult>) -> (TestRunner, Vec<Event>) {
    let mut events = Vec::new();
    let mut queue = outcomes.into_iter();
    while runner.state != TestRunnerState::Finish {
        let outcome = if runner.expects_outcome() {
            Some(queue.next().expect("the machine asked for more outcomes than scripted"))
        } else {
            None
        };
        let (next, step_events) = runner.run(outcome);
        events.extend(step_events);
        runner = next;
    }
    assert!(queue.next().is_none(), "scripted outcomes were left unconsumed");
    (runner, events)
}

fn drive(course: JsonCourse, outcomes: Vec<TestResult>) -> (TestRunner, Vec<Event>) {
    drive_runner(TestRunner::new(Ok(course)), outcomes)
}

fn test_headers(events: &[Event]) -> Vec<String> {
    events
        .iter()
        .filter_map(|e| match e {
            Event::TestHeader { name, .. } => Some(name.clone()),
            _ => None,
        })
        .collect()
}

fn suite_headers(events: &[Event]) -> Vec<String> {
    events
        .iter()
        .filter_map(|e| match e {
            Event::SuiteHeader { name, .. } => Some(name.clone()),
            _ => None,
        })
        .collect()
}

fn final_score(events: &[Event]) -> Option<u64> {
    events.iter().find_map(|e| match e {
        Event::FinalScore { hundredths } => Some(*hundredths),
        _ => None,
    })
}

fn error_line(events: &[Event]) -> Option<String> {
    events.iter().find_map(|e| match e {
        Event::ErrorLine { reason } => Some(reason.clone()),
        _ => None,
    })
}

#[test]
fn empty_course_reaches_passed_with_full_score() {
    let (runner, events) = drive(mk_course("1.0", vec![]), vec![]);
    assert_eq!(runner.success, 0);
    assert_eq!(events.len(), 2);
    assert!(matches!(
        events[0],
        Event::CourseBanner { test_count: 0, .. }
    ));
    assert_eq!(final_score(&events), Some(10000));
}

#[test]
fn all_pass_scores_full_regardless_of_optional_flags() {
    let course = mk_course(
        "1.0",
        vec![
            mk_suite("basics", false, vec![mk_test("t1", false), mk_test("t2", true)]),
            mk_suite("extras", true, vec![mk_test("t3", false)]),
        ],
    );
    let out = "ok".to_string();
    let (runner, events) = drive(
        course,
        vec![
            TestResult::Pass(out.clone()),
            TestResult::Pass(out.clone()),
            TestResult::Pass(out),
        ],
    );
    assert_eq!(runner.success, 3);
    assert_eq!(final_score(&events), Some(10000));
}

#[test]
fn mandatory_failure_halts_and_later_suite_is_never_entered() {
    let course = mk_course(
        "1.0",
        vec![
            mk_suite(
                "suite a",
                false,
                vec![mk_test("setup", false), mk_test("compile", false)],
            ),
            mk_suite("suite b", false, vec![mk_test("later", false)]),
        ],
    );
    let (runner, events) = drive(
        course,
        vec![
            TestResult::Pass("fine".to_string()),
            TestResult::Fail("boom".to_string()),
        ],
    );
    assert_eq!(runner.success, 1);
    assert_eq!(test_headers(&events), vec!["setup", "compile"]);
    assert_eq!(suite_headers(&events), vec!["suite a"]);
    assert_eq!(error_line(&events), Some("Failed test compile".to_string()));
    assert_eq!(final_score(&events), None);
}

#[test]
fn no_test_after_a_mandatory_failure_is_executed() {
    let course = mk_course(
        "1.0",
        vec![mk_suite(
            "only",
            false,
            vec![mk_test("first", false), mk_test("second", false), mk_test("third", false)],
        )],
    );
    let (_, events) = drive(course, vec![TestResult::Fail("err".to_string())]);
    assert_eq!(test_headers(&events), vec!["first"]);
    assert_eq!(error_line(&events), Some("Failed test first".to_string()));
}

#[test]
fn optional_test_failure_in_mandatory_suite_continues() {
    let course = mk_course(
        "1.0",
        vec![mk_suite(
            "main",
            false,
            vec![mk_test("shaky", true), mk_test("solid", false)],
        )],
    );
    let (runner, events) = drive(
        course,
        vec![
            TestResult::Fail("nope".to_string()),
            TestResult::Pass("fine".to_string()),
        ],
    );
    assert_eq!(runner.success, 1);
    assert_eq!(test_headers(&events), vec!["shaky", "solid"]);
    assert_eq!(final_score(&events), Some(5000));
}

#[test]
fn mandatory_test_failure_in_optional_suite_continues() {
    let course = mk_course(
        "1.0",
        vec![
            mk_suite("bonus", true, vec![mk_test("hard", false)]),
            mk_suite("main", false, vec![mk_test("easy", false)]),
        ],
    );
    let (runner, events) = drive(
        course,
        vec![
            TestResult::Fail("nope".to_string()),
            TestResult::Pass("fine".to_string()),
        ],
    );
    assert_eq!(runner.success, 1);
    assert_eq!(test_headers(&events), vec!["hard", "easy"]);
    assert_eq!(final_score(&events), Some(5000));
}

#[test]
fn score_counts_optional_tests_in_the_denominator() {
    let course = mk_course(
        "1.0",
        vec![mk_suite(
            "main",
            false,
            vec![mk_test("a", false), mk_test("b", false), mk_test("c", true)],
        )],
    );
    let (_, events) = drive(
        course,
        vec![
            TestResult::Pass("ok".to_string()),
            TestResult::Pass("ok".to_string()),
            TestResult::Fail("no".to_string()),
        ],
    );
    // 2 of 3 tests passed: 66.666...% rounds to 66.67%.
    assert_eq!(final_score(&events), Some(6667));
}

#[test]
fn score_one_of_three_rounds_down() {
    let course = mk_course(
        "1.0",
        vec![mk_suite(
            "main",
            true,
            vec![mk_test("a", false), mk_test("b", false), mk_test("c", false)],
        )],
    );
    let (_, events) = drive(
        course,
        vec![
            TestResult::Pass("ok".to_string()),
            TestResult::Fail("no".to_string()),
            TestResult::Fail("no".to_string()),
        ],
    );
    // 1 of 3 tests passed: 33.333...% rounds to 33.33%.
    assert_eq!(final_score(&events), Some(3333));
}

#[test]
fn score_rounds_half_up_at_two_decimals() {
    let tests: Vec<JsonTest> = (0..32).map(|k| mk_test(&format!("t{k}"), false)).collect();
    let course = mk_course("1.0", vec![mk_suite("many", true, tests)]);
    let mut outcomes = vec![TestResult::Pass("ok".to_string())];
    for _ in 0..31 {
        outcomes.push(TestResult::Fail("no".to_string()));
    }
    let (_, events) = drive(course, outcomes);
    // 1 of 32 tests passed: 3.125% rounds half up to 3.13%.
    assert_eq!(final_score(&events), Some(313));
}

#[test]
fn traversal_follows_declaration_order_and_reordering_reorders() {
    let ordered = mk_course(
        "1.0",
        vec![
            mk_suite("s1", false, vec![mk_test("alpha", false), mk_test("beta", false)]),
            mk_suite("s2", false, vec![mk_test("gamma", false)]),
        ],
    );
    let pass = || TestResult::Pass("ok".to_string());
    let (_, events) = drive(ordered, vec![pass(), pass(), pass()]);
    assert_eq!(suite_headers(&events), vec!["s1", "s2"]);
    assert_eq!(test_headers(&events), vec!["alpha", "beta", "gamma"]);

    let reordered = mk_course(
        "1.0",
        vec![
            mk_suite("s2", false, vec![mk_test("gamma", false)]),
            mk_suite("s1", false, vec![mk_test("alpha", false), mk_test("beta", false)]),
        ],
    );
    let (_, events) = drive(reordered, vec![pass(), pass(), pass()]);
    assert_eq!(suite_headers(&events), vec!["s2", "s1"]);
    assert_eq!(test_headers(&events), vec!["gamma", "alpha", "beta"]);
}

#[test]
fn optional_suite_with_all_failures_still_passes_with_zero_score() {
    let course = mk_course(
        "1.0",
        vec![mk_suite(
            "bonus",
            true,
            vec![mk_test("x", false), mk_test("y", false)],
        )],
    );
    let (runner, events) = drive(
        course,
        vec![
            TestResult::Fail("no".to_string()),
            TestResult::Fail("no".to_string()),
        ],
    );
    assert_eq!(runner.success, 0);
    assert_eq!(test_headers(&events), vec!["x", "y"]);
    assert_eq!(error_line(&events), None);
    assert_eq!(final_score(&events), Some(0));
}

#[test]
fn missing_file_reports_failure_naming_the_path_and_runs_nothing() {
    let runner = TestRunner::new(Err(ParsingError::FileOpenError("./tests.json".to_string())));
    match &runner.state {
        TestRunnerState::Failed(reason) => {
            assert_eq!(reason, "failed to open course file at ./tests.json");
        }
        other => panic!("expected the failed state, got {other:?}"),
    }
    let (_, events) = drive_runner(runner, vec![]);
    assert_eq!(
        error_line(&events),
        Some("failed to open course file at ./tests.json".to_string())
    );
    assert!(test_headers(&events).is_empty());
    assert_eq!(final_score(&events), None);
}

#[test]
fn unsupported_version_is_reported_and_nothing_runs() {
    let course = mk_course(
        "2.0",
        vec![mk_suite("main", false, vec![mk_test("t", false)])],
    );
    let (_, events) = drive(course, vec![]);
    assert_eq!(
        events,
        vec![Event::UnsupportedVersion { version: "2.0".to_string() }]
    );
}

#[test]
fn empty_suite_is_a_legal_no_op_traversal() {
    let course = mk_course(
        "1.0",
        vec![
            mk_suite("empty", false, vec![]),
            mk_suite("real", false, vec![mk_test("only", false)]),
        ],
    );
    let (runner, events) = drive(course, vec![TestResult::Pass("ok".to_string())]);
    assert_eq!(runner.success, 1);
    assert_eq!(suite_headers(&events), vec!["empty", "real"]);
    assert_eq!(test_headers(&events), vec!["only"]);
    assert_eq!(final_score(&events), Some(10000));
}

#[test]
fn test_output_events_carry_the_configured_messages() {
    let course = mk_course(
        "1.0",
        vec![mk_suite("main", true, vec![mk_test("a", false), mk_test("b", false)])],
    );
    let (_, events) = drive(
        course,
        vec![
            TestResult::Pass("stdout here".to_string()),
            TestResult::Fail("stderr here".to_string()),
        ],
    );
    let outputs: Vec<&Event> = events
        .iter()
        .filter(|e| matches!(e, Event::TestOutput { .. }))
        .collect();
    assert_eq!(outputs.len(), 2);
    assert_eq!(
        *outputs[0],
        Event::TestOutput {
            passed: true,
            output: "stdout here".to_string(),
            message: "a passed".to_string(),
        }
    );
    assert_eq!(
        *outputs[1],
        Event::TestOutput {
            passed: false,
            output: "stderr here".to_string(),
            message: "b failed".to_string(),
        }
    );
}

#[test]
fn course_banner_names_course_and_counts_every_test() {
    let course = mk_course(
        "1.0",
        vec![
            mk_suite("a", false, vec![mk_test("t1", false), mk_test("t2", true)]),
            mk_suite("b", true, vec![mk_test("t3", false)]),
        ],
    );
    let runner = TestRunner::new(Ok(course));
    let (next, events) = runner.run(None);
    assert_eq!(
        events,
        vec![Event::CourseBanner {
            name: "Rust Basics".to_string(),
            instructor: "Ada".to_string(),
            test_count: 3,
        }]
    );
    assert_eq!(next.state, TestRunnerState::NewSuite(0));
}

#[test]
fn runner_version_delegates_and_undefined_is_finished() {
    let course = mk_course("1.0", vec![mk_suite("a", false, vec![mk_test("t", false)])]);
    let mut runner = RunnerVersion::new(Ok(course));
    assert_eq!(runner.state(), TestRunnerState::Loaded);
    let mut events = Vec::new();
    let mut fed = false;
    while runner.state() != TestRunnerState::Finish {
        let outcome = if runner.expects_outcome() {
            fed = true;
            Some(TestResult::Pass("ok".to_string()))
        } else {
            None
        };
        let (next, step_events) = runner.run(outcome);
        events.extend(step_events);
        runner = next;
    }
    assert!(fed);
    assert_eq!(final_score(&events), Some(10000));

    assert_eq!(RunnerVersion::Undefined.state(), TestRunnerState::Finish);

    let failed = RunnerVersion::new(Err(ParsingError::CourseFmtError("bad json".to_string())));
    assert_eq!(failed.state(), TestRunnerState::Failed("bad json".to_string()));
}
