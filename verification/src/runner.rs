//! The execution state machine over a loaded course.
//!
//! The machine is driven one step at a time: each call to [`TestRunner::run`]
//! performs one unit of observable work (announce the course, announce a
//! suite, record one test's outcome, report the summary) and returns the new
//! machine together with the presentation events that step emitted. Running
//! a test's command is the caller's job: when the machine stands at a test
//! ([`TestRunner::expects_outcome`]), the caller executes the command and
//! hands the resulting [`TestResult`] to `run`.

use vstd::prelude::*;
use vstd::string::StringExecFns;
use vstd::arithmetic::div_mod::{lemma_div_is_ordered, lemma_div_multiples_vanish_fancy};
use vstd::arithmetic::mul::lemma_mul_inequality;
use crate::parsing::{JsonCourse, JsonTest, JsonTestSuite, ParsingError, TestResult};

verus! {

/// Relies on `String::push`: appends one character at the end.
pub assume_specification[ String::push ](s: &mut String, c: char)
    ensures
        final(s)@ == old(s)@.push(c),
;

/// The number of tests held by the first `n` suites.
pub open spec fn tests_in_prefix(suites: Seq<JsonTestSuite>, n: int) -> nat
    decreases n,
{
    if n <= 0 {
        0
    } else {
        tests_in_prefix(suites, n - 1) + suites[n - 1].tests@.len()
    }
}

/// The number of tests across all suites of the course, mandatory and
/// optional alike.
pub open spec fn total_tests(c: JsonCourse) -> nat {
    tests_in_prefix(c.suites@, c.suites@.len() as int)
}

pub proof fn lemma_prefix_monotone(suites: Seq<JsonTestSuite>, m: int, n: int)
    requires
        0 <= m <= n,
    ensures
        tests_in_prefix(suites, m) <= tests_in_prefix(suites, n),
    decreases n,
{
    if m < n {
        lemma_prefix_monotone(suites, m, n - 1);
    }
}

/// The schema version this engine understands.
pub open spec fn version_supported(c: JsonCourse) -> bool {
    c.version@ == "1.0"@
}

/// Decides whether the course declares the supported schema version.
pub fn check_version(course: &JsonCourse) -> (r: bool)
    ensures
        r == version_supported(*course),
{
    let supported: String = "1.0".to_owned();
    course.version == supported
}

/// The final score in hundredths of a percent: the share of passed tests
/// among all tests of the course, rounded half up to two decimal places.
/// A course with no tests at all counts as fully passed.
pub open spec fn score_hundredths(success: nat, total: nat) -> nat {
    if total == 0 {
        10000
    } else {
        ((success * 10000 + total / 2) as int / total as int) as nat
    }
}

/// The reason reported when a mandatory test fails in a mandatory suite.
pub open spec fn failure_reason(test_name: Seq<char>) -> Seq<char> {
    "Failed test "@ + test_name
}

/// The states of the machine. `NewSuite(i)` stands before suite `i`'s
/// header, `NewTest(i, j)` before test `j` of suite `i`. `Failed` carries
/// the reason the run was cut short. `Finish` is terminal.
#[derive(Debug, Clone, PartialEq, Eq)]
pub enum TestRunnerState {
    Loaded,
    NewSuite(usize),
    NewTest(usize, usize),
    Failed(String),
    Passed,
    Finish,
}

/// One unit of observable output emitted by a step of the machine. The
/// caller renders these however it likes; the machine itself never touches
/// a terminal.
#[derive(Debug, Clone, PartialEq, Eq)]
pub enum Event {
    /// The course banner: name, instructor, and how many tests lie ahead.
    CourseBanner { name: String, instructor: String, test_count: usize },
    /// A suite's header, with its optional marker.
    SuiteHeader { name: String, optional: bool },
    /// A test's header, with its optional marker.
    TestHeader { name: String, optional: bool },
    /// A test's captured output together with the configured message.
    TestOutput { passed: bool, output: String, message: String },
    /// The run was cut short; carries the reason.
    ErrorLine { reason: String },
    /// The final score, in hundredths of a percent.
    FinalScore { hundredths: u64 },
    /// The course declares a schema version this engine does not know.
    UnsupportedVersion { version: String },
}

/// The machine: the loaded course, the current state, and the count of
/// passed tests so far.
pub struct TestRunner {
    pub success: usize,
    pub state: TestRunnerState,
    pub course: JsonCourse,
}

/// Position indices named by the state stay inside the course.
pub open spec fn state_wf(c: JsonCourse, s: TestRunnerState) -> bool {
    match s {
        TestRunnerState::NewSuite(i) => i < c.suites@.len(),
        TestRunnerState::NewTest(i, j) => i < c.suites@.len()
            && j < c.suites@[i as int].tests@.len(),
        _ => true,
    }
}

/// The state that follows suite `i`'s header: the suite's first test, or,
/// for a suite with no tests, the next suite's header or the overall pass.
pub open spec fn state_after_suite_header(c: JsonCourse, i: usize) -> TestRunnerState {
    if c.suites@[i as int].tests@.len() > 0 {
        TestRunnerState::NewTest(i, 0)
    } else if i + 1 < c.suites@.len() {
        TestRunnerState::NewSuite((i + 1) as usize)
    } else {
        TestRunnerState::Passed
    }
}

/// The state that follows test `(i, j)` when the run is not cut short: the
/// next test of the suite, the next suite's header, or the overall pass.
pub open spec fn state_after_test(c: JsonCourse, i: usize, j: usize) -> TestRunnerState {
    if j + 1 < c.suites@[i as int].tests@.len() {
        TestRunnerState::NewTest(i, (j + 1) as usize)
    } else if i + 1 < c.suites@.len() {
        TestRunnerState::NewSuite((i + 1) as usize)
    } else {
        TestRunnerState::Passed
    }
}

impl TestRunner {
    /// How many tests stand strictly before the machine's current position
    /// in traversal order; an upper bound on the passed-test counter.
    pub open spec fn position_bound(self) -> nat {
        match self.state {
            TestRunnerState::Loaded => 0,
            TestRunnerState::NewSuite(i) => tests_in_prefix(self.course.suites@, i as int),
            TestRunnerState::NewTest(i, j) => (tests_in_prefix(self.course.suites@, i as int)
                + j) as nat,
            _ => total_tests(self.course),
        }
    }

    /// The machine's invariant: the total test count fits the machine word,
    /// the position is inside the course, and the passed-test counter never
    /// exceeds the number of tests already traversed.
    pub open spec fn wf(self) -> bool {
        &&& total_tests(self.course) <= usize::MAX
        &&& self.course.suites@.len() <= usize::MAX
        &&& state_wf(self.course, self.state)
        &&& self.success <= self.position_bound()
    }

    /// Whether the next step runs a test, so that `run` must be handed an
    /// outcome.
    pub open spec fn spec_expects_outcome(self) -> bool {
        version_supported(self.course) && self.state matches TestRunnerState::NewTest(_, _)
    }

    /// Whether the next step runs a test. When this returns true, the caller
    /// executes the current test's command and passes the outcome to `run`.
    pub fn expects_outcome(&self) -> (r: bool)
        ensures
            r == self.spec_expects_outcome(),
    {
        match &self.state {
            TestRunnerState::NewTest(_, _) => check_version(&self.course),
            _ => false,
        }
    }

    /// The test the machine stands at, if any: the one whose command the
    /// caller must run next.
    pub fn current_test(&self) -> (r: Option<&JsonTest>)
        requires
            self.wf(),
        ensures
            match r {
                Some(t) => self.state matches TestRunnerState::NewTest(i, j)
                    && *t == self.course.suites@[i as int].tests@[j as int],
                None => !(self.state matches TestRunnerState::NewTest(_, _)),
            },
    {
        match &self.state {
            TestRunnerState::NewTest(i, j) => Some(&self.course.suites[*i].tests[*j]),
            _ => None,
        }
    }
}

/// The transition relation of the machine: one step from `pre` with the
/// given test outcome (present exactly when `pre` stands at a test under a
/// supported version) yields `post` and emits `events`.
pub open spec fn step_spec(
    pre: TestRunner,
    outcome: Option<TestResult>,
    post: TestRunner,
    events: Seq<Event>,
) -> bool {
    let c = pre.course;
    &&& post.course == c
    &&& if !version_supported(c) {
        &&& post.state is Finish
        &&& post.success == pre.success
        &&& events.len() == 1
        &&& events[0] matches Event::UnsupportedVersion { version } && version@ == c.version@
    } else {
        match pre.state {
            TestRunnerState::Loaded => {
                &&& post.success == pre.success
                &&& post.state == (if c.suites@.len() == 0 {
                    TestRunnerState::Passed
                } else {
                    TestRunnerState::NewSuite(0)
                })
                &&& events.len() == 1
                &&& events[0] matches Event::CourseBanner { name, instructor, test_count }
                    && name@ == c.name@
                    && instructor@ == c.instructor@
                    && test_count == total_tests(c)
            },
            TestRunnerState::NewSuite(i) => {
                let suite = c.suites@[i as int];
                &&& post.success == pre.success
                &&& post.state == state_after_suite_header(c, i)
                &&& events.len() == 1
                &&& events[0] matches Event::SuiteHeader { name, optional }
                    && name@ == suite.name@
                    && optional == suite.optional
            },
            TestRunnerState::NewTest(i, j) => {
                let suite = c.suites@[i as int];
                let test = suite.tests@[j as int];
                &&& events.len() == 2
                &&& events[0] matches Event::TestHeader { name, optional }
                    && name@ == test.name@
                    && optional == test.optional
                &&& match outcome {
                    Some(TestResult::Pass(out)) => {
                        &&& events[1] matches Event::TestOutput { passed, output, message }
                            && passed == true
                            && output@ == out@
                            && message@ == test.message_on_success@
                        &&& post.success == pre.success + 1
                        &&& post.state == state_after_test(c, i, j)
                    },
                    Some(TestResult::Fail(err)) => {
                        &&& events[1] matches Event::TestOutput { passed, output, message }
                            && passed == false
                            && output@ == err@
                            && message@ == test.message_on_fail@
                        &&& post.success == pre.success
                        &&& if !test.optional && !suite.optional {
                            post.state matches TestRunnerState::Failed(reason)
                                && reason@ == failure_reason(test.name@)
                        } else {
                            post.state == state_after_test(c, i, j)
                        }
                    },
                    None => false,
                }
            },
            TestRunnerState::Failed(msg) => {
                &&& post.success == pre.success
                &&& post.state is Finish
                &&& events.len() == 1
                &&& events[0] matches Event::ErrorLine { reason } && reason@ == msg@
            },
            TestRunnerState::Passed => {
                &&& post.success == pre.success
                &&& post.state is Finish
                &&& events.len() == 1
                &&& events[0] matches Event::FinalScore { hundredths }
                    && hundredths == score_hundredths(pre.success as nat, total_tests(c))
            },
            TestRunnerState::Finish => {
                &&& post.success == pre.success
                &&& post.state is Finish
                &&& events.len() == 0
            },
        }
    }
}

/// One step preserves the machine's invariant and leaves the course as it
/// was.
pub proof fn lemma_step_preserves_wf(
    pre: TestRunner,
    outcome: Option<TestResult>,
    post: TestRunner,
    events: Seq<Event>,
)
    requires
        pre.wf(),
        step_spec(pre, outcome, post, events),
    ensures
        post.wf(),
        post.course == pre.course,
{
    let c = pre.course;
    lemma_position_bound_le_total(pre);
    if version_supported(c) {
        match pre.state {
            TestRunnerState::NewSuite(i) => {
                lemma_prefix_monotone(c.suites@, i as int, c.suites@.len() as int);
            },
            TestRunnerState::NewTest(i, j) => {
                lemma_prefix_monotone(c.suites@, i as int + 1, c.suites@.len() as int);
                assert(tests_in_prefix(c.suites@, i as int + 1)
                    == tests_in_prefix(c.suites@, i as int)
                    + c.suites@[i as int].tests@.len());
            },
            _ => {},
        }
    }
}

/// The number of tests traversed so far never exceeds the course's total.
pub proof fn lemma_position_bound_le_total(r: TestRunner)
    requires
        r.wf(),
    ensures
        r.position_bound() <= total_tests(r.course),
{
    let c = r.course;
    match r.state {
        TestRunnerState::NewSuite(i) => {
            lemma_prefix_monotone(c.suites@, i as int, c.suites@.len() as int);
        },
        TestRunnerState::NewTest(i, j) => {
            lemma_prefix_monotone(c.suites@, i as int + 1, c.suites@.len() as int);
            assert(tests_in_prefix(c.suites@, i as int + 1)
                == tests_in_prefix(c.suites@, i as int)
                + c.suites@[i as int].tests@.len());
        },
        _ => {},
    }
}

/// Counts every test in the course, or reports that the count does not fit
/// in `usize`.
pub fn course_test_count(course: &JsonCourse) -> (r: Option<usize>)
    ensures
        course.suites@.len() <= usize::MAX,
        match r {
            Some(n) => n == total_tests(*course) && total_tests(*course) <= usize::MAX,
            None => total_tests(*course) > usize::MAX,
        },
{
    let mut acc: usize = 0;
    let mut k: usize = 0;
    let n = course.suites.len();
    while k < n
        invariant
            0 <= k <= n,
            n == course.suites@.len(),
            acc == tests_in_prefix(course.suites@, k as int),
        decreases n - k,
    {
        let len = course.suites[k].tests.len();
        if acc <= usize::MAX - len {
            acc = acc + len;
        } else {
            proof {
                lemma_prefix_monotone(course.suites@, k as int + 1, n as int);
            }
            return None;
        }
        k = k + 1;
    }
    Some(acc)
}

/// Counts every test in a course whose total is known to fit.
fn test_count_bounded(course: &JsonCourse) -> (n: usize)
    requires
        total_tests(*course) <= usize::MAX,
    ensures
        n == total_tests(*course),
{
    let mut acc: usize = 0;
    let mut k: usize = 0;
    let n = course.suites.len();
    while k < n
        invariant
            0 <= k <= n,
            n == course.suites@.len(),
            acc == tests_in_prefix(course.suites@, k as int),
            total_tests(*course) <= usize::MAX,
        decreases n - k,
    {
        proof {
            lemma_prefix_monotone(course.suites@, k as int + 1, n as int);
        }
        acc = acc + course.suites[k].tests.len();
        k = k + 1;
    }
    acc
}

/// Computes the final score in hundredths of a percent.
fn compute_score(success: usize, total: usize) -> (r: u64)
    requires
        success <= total,
    ensures
        r == score_hundredths(success as nat, total as nat),
        r <= 10000,
{
    if total == 0 {
        10000
    } else {
        let s = success as u128;
        let t = total as u128;
        proof {
            lemma_mul_inequality(s as int, t as int, 10000);
            assert(t * 10000 <= 0xffffffffffffffff * 10000) by (nonlinear_arith)
                requires t <= 0xffffffffffffffff,
            ;
        }
        let num = s * 10000 + t / 2;
        let q = num / t;
        proof {
            lemma_div_is_ordered(num as int, (t * 10000 + t / 2) as int, t as int);
            lemma_div_multiples_vanish_fancy(10000, (t / 2) as int, t as int);
        }
        q as u64
    }
}

/// The state the machine advances to after test `(i, j)` when the run goes
/// on.
fn advance_position(course: &JsonCourse, i: usize, j: usize) -> (s: TestRunnerState)
    requires
        i < course.suites@.len(),
        j < course.suites@[i as int].tests@.len(),
    ensures
        s == state_after_test(*course, i, j),
{
    let tlen = course.suites[i].tests.len();
    let slen = course.suites.len();
    if j + 1 < tlen {
        TestRunnerState::NewTest(i, j + 1)
    } else if i + 1 < slen {
        TestRunnerState::NewSuite(i + 1)
    } else {
        TestRunnerState::Passed
    }
}

impl TestRunner {
    /// Builds the machine from the result of loading the course file. A
    /// loading error puts the machine directly on the failed trajectory,
    /// with the error's description as the reason; the placeholder course
    /// it is given holds no suites and the supported version tag.
    pub fn new(loaded: Result<JsonCourse, ParsingError>) -> (r: TestRunner)
        requires
            loaded matches Ok(course) ==> total_tests(course) <= usize::MAX
                && course.suites@.len() <= usize::MAX,
        ensures
            r.wf(),
            r.success == 0,
            match loaded {
                Ok(course) => r.course == course && r.state is Loaded,
                Err(e) => {
                    &&& r.state matches TestRunnerState::Failed(reason)
                        && reason@ == e.spec_message()
                    &&& version_supported(r.course)
                    &&& total_tests(r.course) == 0
                },
            },
    {
        match loaded {
            Ok(course) => TestRunner { success: 0, state: TestRunnerState::Loaded, course },
            Err(e) => {
                let reason = e.message();
                let course = JsonCourse {
                    version: "1.0".to_owned(),
                    name: String::new(),
                    instructor: String::new(),
                    course_id: 0,
                    suites: Vec::new(),
                };
                TestRunner { success: 0, state: TestRunnerState::Failed(reason), course }
            },
        }
    }

    /// Advances the machine by one step. The outcome of running the current
    /// test's command must be supplied exactly when the machine stands at a
    /// test under a supported version; every other step takes `None`.
    pub fn run(self, outcome: Option<TestResult>) -> (r: (TestRunner, Vec<Event>))
        requires
            self.wf(),
            outcome is Some <==> self.spec_expects_outcome(),
        ensures
            r.0.wf(),
            step_spec(self, outcome, r.0, r.1@),
    {
        let ghost pre = self;
        let TestRunner { success, state, course } = self;
        if !check_version(&course) {
            let events = vec![Event::UnsupportedVersion { version: course.version.clone() }];
            let post = TestRunner { success, state: TestRunnerState::Finish, course };
            proof {
                lemma_step_preserves_wf(pre, outcome, post, events@);
            }
            (post, events)
        } else {
            match state {
                TestRunnerState::Loaded => {
                    let test_count = test_count_bounded(&course);
                    let events = vec![Event::CourseBanner {
                        name: course.name.clone(),
                        instructor: course.instructor.clone(),
                        test_count,
                    }];
                    let next = if course.suites.len() == 0 {
                        TestRunnerState::Passed
                    } else {
                        TestRunnerState::NewSuite(0)
                    };
                    let post = TestRunner { success, state: next, course };
                    proof {
                        lemma_step_preserves_wf(pre, outcome, post, events@);
                    }
                    (post, events)
                },
                TestRunnerState::NewSuite(i) => {
                    let events = vec![Event::SuiteHeader {
                        name: course.suites[i].name.clone(),
                        optional: course.suites[i].optional,
                    }];
                    let slen = course.suites.len();
                    let next = if course.suites[i].tests.len() > 0 {
                        TestRunnerState::NewTest(i, 0)
                    } else if i + 1 < slen {
                        TestRunnerState::NewSuite(i + 1)
                    } else {
                        TestRunnerState::Passed
                    };
                    let post = TestRunner { success, state: next, course };
                    proof {
                        lemma_step_preserves_wf(pre, outcome, post, events@);
                    }
                    (post, events)
                },
                TestRunnerState::NewTest(i, j) => {
                    let suite_optional = course.suites[i].optional;
                    let test_optional = course.suites[i].tests[j].optional;
                    let mut events: Vec<Event> = Vec::new();
                    events.push(Event::TestHeader {
                        name: course.suites[i].tests[j].name.clone(),
                        optional: test_optional,
                    });
                    match outcome {
                        Some(TestResult::Pass(out)) => {
                            events.push(Event::TestOutput {
                                passed: true,
                                output: out,
                                message: course.suites[i].tests[j].message_on_success.clone(),
                            });
                            proof {
                                lemma_prefix_monotone(
                                    course.suites@,
                                    i as int + 1,
                                    course.suites@.len() as int,
                                );
                            }
                            let next = advance_position(&course, i, j);
                            let post = TestRunner { success: success + 1, state: next, course };
                            proof {
                                lemma_step_preserves_wf(
                                    pre,
                                    Some(TestResult::Pass(out)),
                                    post,
                                    events@,
                                );
                            }
                            (post, events)
                        },
                        Some(TestResult::Fail(err)) => {
                            events.push(Event::TestOutput {
                                passed: false,
                                output: err,
                                message: course.suites[i].tests[j].message_on_fail.clone(),
                            });
                            if !test_optional && !suite_optional {
                                let mut reason = "Failed test ".to_owned();
                                reason.append(course.suites[i].tests[j].name.as_str());
                                let post = TestRunner {
                                    success,
                                    state: TestRunnerState::Failed(reason),
                                    course,
                                };
                                proof {
                                    lemma_step_preserves_wf(
                                        pre,
                                        Some(TestResult::Fail(err)),
                                        post,
                                        events@,
                                    );
                                }
                                (post, events)
                            } else {
                                let next = advance_position(&course, i, j);
                                let post = TestRunner { success, state: next, course };
                                proof {
                                    lemma_step_preserves_wf(
                                        pre,
                                        Some(TestResult::Fail(err)),
                                        post,
                                        events@,
                                    );
                                }
                                (post, events)
                            }
                        },
                        None => vstd::pervasive::unreached(),
                    }
                },
                TestRunnerState::Failed(msg) => {
                    let events = vec![Event::ErrorLine { reason: msg }];
                    let post = TestRunner { success, state: TestRunnerState::Finish, course };
                    proof {
                        lemma_step_preserves_wf(pre, outcome, post, events@);
                    }
                    (post, events)
                },
                TestRunnerState::Passed => {
                    let total = test_count_bounded(&course);
                    let hundredths = compute_score(success, total);
                    let events = vec![Event::FinalScore { hundredths }];
                    let post = TestRunner { success, state: TestRunnerState::Finish, course };
                    proof {
                        lemma_step_preserves_wf(pre, outcome, post, events@);
                    }
                    (post, events)
                },
                TestRunnerState::Finish => {
                    let events: Vec<Event> = Vec::new();
                    let post = TestRunner { success, state: TestRunnerState::Finish, course };
                    proof {
                        lemma_step_preserves_wf(pre, outcome, post, events@);
                    }
                    (post, events)
                },
            }
        }
    }
}

/// A runner selected by the schema version of the loaded course.
/// `Undefined` stands for a course no runner could be built for.
pub enum RunnerVersion {
    V1(TestRunner),
    Undefined,
}

impl RunnerVersion {
    pub open spec fn wf(self) -> bool {
        match self {
            RunnerVersion::V1(r) => r.wf(),
            RunnerVersion::Undefined => true,
        }
    }

    pub open spec fn spec_expects_outcome(self) -> bool {
        match self {
            RunnerVersion::V1(r) => r.spec_expects_outcome(),
            RunnerVersion::Undefined => false,
        }
    }

    /// Builds a runner from the result of loading the course file. A course
    /// whose total test count overflows the machine word gets no runner;
    /// a loading error gets a runner that reports it and stops.
    pub fn new(loaded: Result<JsonCourse, ParsingError>) -> (r: RunnerVersion)
        ensures
            r.wf(),
            match loaded {
                Ok(course) => {
                    if total_tests(course) <= usize::MAX {
                        r matches RunnerVersion::V1(t)
                            && t.course == course
                            && t.state is Loaded
                            && t.success == 0
                    } else {
                        r is Undefined
                    }
                },
                Err(e) => r matches RunnerVersion::V1(t)
                    && t.state matches TestRunnerState::Failed(reason)
                    && reason@ == e.spec_message()
                    && t.success == 0
                    && version_supported(t.course)
                    && total_tests(t.course) == 0,
            },
    {
        match loaded {
            Ok(course) => {
                match course_test_count(&course) {
                    Some(_) => RunnerVersion::V1(TestRunner::new(Ok(course))),
                    None => RunnerVersion::Undefined,
                }
            },
            Err(e) => RunnerVersion::V1(TestRunner::new(Err(e))),
        }
    }

    /// Advances the runner by one step, handing any test outcome through to
    /// the machine. An undefined runner stays undefined and emits nothing.
    pub fn run(self, outcome: Option<TestResult>) -> (r: (RunnerVersion, Vec<Event>))
        requires
            self.wf(),
            outcome is Some <==> self.spec_expects_outcome(),
        ensures
            r.0.wf(),
            match self {
                RunnerVersion::V1(pre) => r.0 matches RunnerVersion::V1(post)
                    && step_spec(pre, outcome, post, r.1@),
                RunnerVersion::Undefined => r.0 is Undefined && r.1@.len() == 0,
            },
    {
        match self {
            RunnerVersion::V1(runner) => {
                let (post, events) = runner.run(outcome);
                (RunnerVersion::V1(post), events)
            },
            RunnerVersion::Undefined => (RunnerVersion::Undefined, Vec::new()),
        }
    }

    /// Whether the next step runs a test.
    pub fn expects_outcome(&self) -> (r: bool)
        ensures
            r == self.spec_expects_outcome(),
    {
        match self {
            RunnerVersion::V1(runner) => runner.expects_outcome(),
            RunnerVersion::Undefined => false,
        }
    }

    /// The current state of the runner; an undefined runner is finished.
    pub fn state(&self) -> (s: TestRunnerState)
        ensures
            match self {
                RunnerVersion::V1(t) => s == t.state,
                RunnerVersion::Undefined => s is Finish,
            },
    {
        match self {
            RunnerVersion::V1(t) => {
                match &t.state {
                    TestRunnerState::Loaded => TestRunnerState::Loaded,
                    TestRunnerState::NewSuite(i) => TestRunnerState::NewSuite(*i),
                    TestRunnerState::NewTest(i, j) => TestRunnerState::NewTest(*i, *j),
                    TestRunnerState::Failed(m) => TestRunnerState::Failed(m.clone()),
                    TestRunnerState::Passed => TestRunnerState::Passed,
                    TestRunnerState::Finish => TestRunnerState::Finish,
                }
            },
            RunnerVersion::Undefined => TestRunnerState::Finish,
        }
    }
}

/// What remains of a character sequence once every line break is widened
/// into a break followed by the frame's gutter.
pub open spec fn newline_unit(c: char) -> Seq<char> {
    if c == '\n' {
        "\n    \u{2502}"@
    } else {
        seq![c]
    }
}

/// `s` with every line break widened into a break plus the frame's gutter.
pub open spec fn replaced_newlines(s: Seq<char>) -> Seq<char>
    decreases s.len(),
{
    if s.len() == 0 {
        Seq::empty()
    } else {
        newline_unit(s[0]) + replaced_newlines(s.drop_first())
    }
}

proof fn lemma_replaced_push(s: Seq<char>, c: char)
    ensures
        replaced_newlines(s.push(c)) == replaced_newlines(s) + newline_unit(c),
    decreases s.len(),
{
    if s.len() == 0 {
        reveal_with_fuel(replaced_newlines, 2);
        assert(s.push(c).drop_first() =~= Seq::<char>::empty());
        assert(replaced_newlines(s.push(c)) =~= replaced_newlines(s) + newline_unit(c));
    } else {
        assert(s.push(c).drop_first() =~= s.drop_first().push(c));
        lemma_replaced_push(s.drop_first(), c);
        assert(s.push(c)[0] == s[0]);
        assert(replaced_newlines(s.push(c))
            == newline_unit(s[0]) + replaced_newlines(s.drop_first().push(c)));
        assert(newline_unit(s[0]) + (replaced_newlines(s.drop_first()) + newline_unit(c))
            =~= (newline_unit(s[0]) + replaced_newlines(s.drop_first())) + newline_unit(c));
        assert(replaced_newlines(s.push(c)) =~= replaced_newlines(s) + newline_unit(c));
    }
}

/// The frame drawn around one test's captured output and its configured
/// message.
pub open spec fn formatted_output(output: Seq<char>, msg: Seq<char>) -> Seq<char> {
    "    \u{256d}\u{2500}[ output ]"@ + replaced_newlines(output) + "\n    \u{2570}\u{2500}[ "@
        + msg + " ]"@
}

/// Formats one test's captured output: a frame around the output, each of
/// its line breaks widened with a gutter, closed by the given message.
pub fn format_output(output: &str, msg: &str) -> (r: String)
    ensures
        r@ == formatted_output(output@, msg@),
{
    let mut r: String = "    \u{256d}\u{2500}[ output ]".to_owned();
    let n = output.unicode_len();
    let mut i: usize = 0;
    while i < n
        invariant
            i <= n,
            n == output@.len(),
            r@ == "    \u{256d}\u{2500}[ output ]"@ + replaced_newlines(output@.take(i as int)),
        decreases n - i,
    {
        let c = output.get_char(i);
        if c == '\n' {
            r.append("\n    \u{2502}");
        } else {
            r.push(c);
        }
        proof {
            assert(output@.take(i as int + 1)
                =~= output@.take(i as int).push(output@[i as int]));
            lemma_replaced_push(output@.take(i as int), output@[i as int]);
            if output@[i as int] == '\n' {
                assert(r@ =~= "    \u{256d}\u{2500}[ output ]"@
                    + replaced_newlines(output@.take(i as int + 1)));
            } else {
                assert(r@ =~= "    \u{256d}\u{2500}[ output ]"@
                    + replaced_newlines(output@.take(i as int + 1)));
            }
        }
        i = i + 1;
    }
    proof {
        assert(output@.take(n as int) =~= output@);
    }
    r.append("\n    \u{2570}\u{2500}[ ");
    r.append(msg);
    r.append(" ]");
    proof {
        assert(r@ =~= formatted_output(output@, msg@));
    }
    r
}

} // verus!
