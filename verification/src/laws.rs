//! The laws the execution machine obeys, stated over the transition
//! relation [`step_spec`] and proved once and for all. A run is pictured as
//! a trace: a sequence of machines `rs`, the outcomes handed to each step
//! `outs`, and the events each step emitted `evs`, related pointwise by
//! `step_spec`.

use vstd::prelude::*;
use vstd::arithmetic::div_mod::{lemma_basic_div, lemma_div_multiples_vanish_fancy};
use crate::parsing::TestResult;
use crate::runner::{
    Event, TestRunner, TestRunnerState, failure_reason, lemma_prefix_monotone,
    lemma_step_preserves_wf, score_hundredths, state_after_test, step_spec, tests_in_prefix,
    total_tests, version_supported,
};

verus! {

/// Law: a course with no suites at all completes successfully. From
/// `Loaded` the machine passes in one step, and the summary step reports
/// the full score of 100%, which is how the score over an empty set of
/// tests is defined.
pub proof fn lemma_empty_course_passes(
    r0: TestRunner,
    r1: TestRunner,
    e1: Seq<Event>,
    r2: TestRunner,
    e2: Seq<Event>,
)
    requires
        r0.wf(),
        r0.state is Loaded,
        r0.success == 0,
        version_supported(r0.course),
        r0.course.suites@.len() == 0,
        step_spec(r0, None, r1, e1),
        step_spec(r1, None, r2, e2),
    ensures
        r1.state is Passed,
        r2.state is Finish,
        e2.len() == 1,
        e2[0] matches Event::FinalScore { hundredths } && hundredths == 10000,
{
    assert(total_tests(r0.course) == 0);
}

/// Law: a failing test halts the run only when both the test and its
/// enclosing suite are mandatory. An optional test failing inside a
/// mandatory suite, or a mandatory test failing inside an optional suite,
/// advances traversal exactly as a passing test would, without touching
/// the counter of passed tests.
pub proof fn lemma_optional_failure_does_not_halt(
    pre: TestRunner,
    err: String,
    post: TestRunner,
    events: Seq<Event>,
    i: usize,
    j: usize,
)
    requires
        pre.wf(),
        version_supported(pre.course),
        pre.state == TestRunnerState::NewTest(i, j),
        pre.course.suites@[i as int].optional
            || pre.course.suites@[i as int].tests@[j as int].optional,
        step_spec(pre, Some(TestResult::Fail(err)), post, events),
    ensures
        !(post.state matches TestRunnerState::Failed(_)),
        post.state == state_after_test(pre.course, i, j),
        post.success == pre.success,
{
}

/// Law: a mandatory test failing inside a mandatory suite halts the run at
/// once: the machine enters `Failed` with a reason naming that test, and
/// the counter of passed tests is untouched.
pub proof fn lemma_mandatory_failure_halts_step(
    pre: TestRunner,
    err: String,
    post: TestRunner,
    events: Seq<Event>,
    i: usize,
    j: usize,
)
    requires
        pre.wf(),
        version_supported(pre.course),
        pre.state == TestRunnerState::NewTest(i, j),
        !pre.course.suites@[i as int].optional,
        !pre.course.suites@[i as int].tests@[j as int].optional,
        step_spec(pre, Some(TestResult::Fail(err)), post, events),
    ensures
        post.state matches TestRunnerState::Failed(reason)
            && reason@ == failure_reason(pre.course.suites@[i as int].tests@[j as int].name@),
        post.success == pre.success,
{
}

/// Law: once a mandatory test fails in a mandatory suite, no test after it
/// in traversal order is ever executed. The step after the failure stands
/// in `Failed`, every state after that in `Finish`, and in particular the
/// machine never stands at a test again.
pub proof fn lemma_mandatory_failure_halts_run(
    rs: Seq<TestRunner>,
    outs: Seq<Option<TestResult>>,
    evs: Seq<Seq<Event>>,
    m: int,
    n: int,
)
    requires
        outs.len() >= rs.len() - 1,
        evs.len() >= rs.len() - 1,
        forall|k: int| 0 <= k < rs.len() - 1
            ==> #[trigger] step_spec(rs[k], outs[k], rs[k + 1], evs[k]),
        0 <= m < n < rs.len(),
        version_supported(rs[m].course),
        rs[m].state matches TestRunnerState::NewTest(i, j)
            && !rs[m].course.suites@[i as int].optional
            && !rs[m].course.suites@[i as int].tests@[j as int].optional,
        outs[m] matches Some(TestResult::Fail(_)),
    ensures
        rs[m + 1].state matches TestRunnerState::Failed(_),
        rs[n].state matches TestRunnerState::Failed(_) || rs[n].state is Finish,
        !(rs[n].state matches TestRunnerState::NewTest(_, _)),
    decreases n,
{
    assert(step_spec(rs[m], outs[m], rs[m + 1], evs[m]));
    if n > m + 1 {
        lemma_mandatory_failure_halts_run(rs, outs, evs, m, n - 1);
        let p = n - 1;
        assert(step_spec(rs[p], outs[p], rs[p + 1], evs[p]));
        assert(rs[p + 1] == rs[n]);
    }
}

/// A machine whose counter equals the number of tests that stand before
/// its position: the shape every run keeps while no test fails.
pub open spec fn on_track(r: TestRunner) -> bool {
    &&& r.wf()
    &&& match r.state {
        TestRunnerState::Loaded => r.success == 0,
        TestRunnerState::NewSuite(i) => r.success == tests_in_prefix(
            r.course.suites@,
            i as int,
        ),
        TestRunnerState::NewTest(i, j) => r.success == tests_in_prefix(
            r.course.suites@,
            i as int,
        ) + j,
        TestRunnerState::Passed => r.success == total_tests(r.course),
        _ => true,
    }
}

/// One step whose outcome is not a failure keeps the machine on track.
pub proof fn lemma_pass_step_on_track(
    pre: TestRunner,
    outcome: Option<TestResult>,
    post: TestRunner,
    events: Seq<Event>,
)
    requires
        on_track(pre),
        step_spec(pre, outcome, post, events),
        !(outcome matches Some(TestResult::Fail(_))),
    ensures
        on_track(post),
        post.course == pre.course,
{
    lemma_step_preserves_wf(pre, outcome, post, events);
    let c = pre.course;
    if version_supported(c) {
        match pre.state {
            TestRunnerState::NewSuite(i) => {
                assert(tests_in_prefix(c.suites@, i as int + 1)
                    == tests_in_prefix(c.suites@, i as int)
                    + c.suites@[i as int].tests@.len());
            },
            TestRunnerState::NewTest(i, j) => {
                assert(tests_in_prefix(c.suites@, i as int + 1)
                    == tests_in_prefix(c.suites@, i as int)
                    + c.suites@[i as int].tests@.len());
            },
            _ => {},
        }
    }
}

proof fn lemma_trace_on_track(
    rs: Seq<TestRunner>,
    outs: Seq<Option<TestResult>>,
    evs: Seq<Seq<Event>>,
    k: int,
)
    requires
        0 <= k < rs.len(),
        outs.len() >= rs.len() - 1,
        evs.len() >= rs.len() - 1,
        forall|t: int| 0 <= t < rs.len() - 1
            ==> #[trigger] step_spec(rs[t], outs[t], rs[t + 1], evs[t]),
        forall|t: int| 0 <= t < rs.len() - 1
            ==> !((#[trigger] outs[t]) matches Some(TestResult::Fail(_))),
        on_track(rs[0]),
    ensures
        on_track(rs[k]),
        rs[k].course == rs[0].course,
    decreases k,
{
    if k > 0 {
        lemma_trace_on_track(rs, outs, evs, k - 1);
        let p = k - 1;
        assert(step_spec(rs[p], outs[p], rs[p + 1], evs[p]));
        assert(rs[p + 1] == rs[k]);
        lemma_pass_step_on_track(rs[p], outs[p], rs[k], evs[p]);
    }
}

/// Law: the score of a run that passed every one of `t` tests is exactly
/// 100%.
pub proof fn lemma_score_all_passed(t: nat)
    ensures
        score_hundredths(t, t) == 10000,
{
    if t > 0 {
        lemma_div_multiples_vanish_fancy(10000, (t / 2) as int, t as int);
        assert((t * 10000 + t / 2) as int == (t as int) * 10000 + (t / 2) as int);
    }
}

/// Law: the score of a completed run in which no test passed is exactly
/// 0%, as long as the course holds at least one test.
pub proof fn lemma_score_none_passed(t: nat)
    requires
        t > 0,
    ensures
        score_hundredths(0, t) == 0,
{
    lemma_basic_div((t / 2) as int, t as int);
}

/// Law: when every outcome handed to the machine along a run is a pass,
/// and the run reaches `Passed`, the summary step reports the full score
/// of 100%, whatever the optional flags of the suites and tests say.
pub proof fn lemma_all_pass_full_score(
    rs: Seq<TestRunner>,
    outs: Seq<Option<TestResult>>,
    evs: Seq<Seq<Event>>,
    k: int,
)
    requires
        0 <= k < rs.len() - 1,
        outs.len() >= rs.len() - 1,
        evs.len() >= rs.len() - 1,
        forall|t: int| 0 <= t < rs.len() - 1
            ==> #[trigger] step_spec(rs[t], outs[t], rs[t + 1], evs[t]),
        forall|t: int| 0 <= t < rs.len() - 1
            ==> !((#[trigger] outs[t]) matches Some(TestResult::Fail(_))),
        rs[0].wf(),
        rs[0].state is Loaded,
        rs[0].success == 0,
        version_supported(rs[0].course),
        rs[k].state is Passed,
    ensures
        evs[k].len() == 1,
        evs[k][0] matches Event::FinalScore { hundredths } && hundredths == 10000,
{
    lemma_trace_on_track(rs, outs, evs, k);
    assert(step_spec(rs[k], outs[k], rs[k + 1], evs[k]));
    lemma_score_all_passed(total_tests(rs[k].course));
}

/// The traversal position a state stands at; a suite's header sits just
/// before the suite's first test.
pub open spec fn visit_pos(s: TestRunnerState) -> (int, int) {
    match s {
        TestRunnerState::NewSuite(i) => (i as int, -1),
        TestRunnerState::NewTest(i, j) => (i as int, j as int),
        _ => (0, 0),
    }
}

/// Strict lexicographic order on traversal positions.
pub open spec fn pos_lt(a: (int, int), b: (int, int)) -> bool {
    a.0 < b.0 || (a.0 == b.0 && a.1 < b.1)
}

/// Law: traversal proceeds strictly in declaration order and skips
/// nothing. Every step from one traversal state to another moves the
/// position strictly forward in lexicographic order, and moves the number
/// of tests that stand before the position by exactly one when a test was
/// run and not at all when a suite header was shown — so no test between
/// the two positions is ever passed over.
pub proof fn lemma_traversal_in_order(
    pre: TestRunner,
    outcome: Option<TestResult>,
    post: TestRunner,
    events: Seq<Event>,
)
    requires
        pre.wf(),
        version_supported(pre.course),
        step_spec(pre, outcome, post, events),
        pre.state matches TestRunnerState::NewSuite(_)
            || pre.state matches TestRunnerState::NewTest(_, _),
        post.state matches TestRunnerState::NewSuite(_)
            || post.state matches TestRunnerState::NewTest(_, _),
    ensures
        pos_lt(visit_pos(pre.state), visit_pos(post.state)),
        post.position_bound() == pre.position_bound() + (if pre.state matches TestRunnerState::NewTest(_, _) {
            1nat
        } else {
            0nat
        }),
{
    let c = pre.course;
    match pre.state {
        TestRunnerState::NewSuite(i) => {
            lemma_prefix_monotone(c.suites@, i as int + 1, c.suites@.len() as int);
            assert(tests_in_prefix(c.suites@, i as int + 1)
                == tests_in_prefix(c.suites@, i as int)
                + c.suites@[i as int].tests@.len());
        },
        TestRunnerState::NewTest(i, j) => {
            lemma_prefix_monotone(c.suites@, i as int + 1, c.suites@.len() as int);
            assert(tests_in_prefix(c.suites@, i as int + 1)
                == tests_in_prefix(c.suites@, i as int)
                + c.suites@[i as int].tests@.len());
        },
        _ => {},
    }
}


/// How many steps the machine can still take before standing in `Finish`:
/// a measure that every step strictly decreases.
pub open spec fn steps_remaining(r: TestRunner) -> int {
    let total = total_tests(r.course) as int;
    let slen = r.course.suites@.len() as int;
    match r.state {
        TestRunnerState::Loaded => 3 + total + slen,
        TestRunnerState::NewSuite(i) => 2 + (total - tests_in_prefix(
            r.course.suites@,
            i as int,
        )) + (slen - i),
        TestRunnerState::NewTest(i, j) => 2 + (total - tests_in_prefix(
            r.course.suites@,
            i as int,
        ) - j) + (slen - i - 1),
        TestRunnerState::Failed(_) => 1,
        TestRunnerState::Passed => 1,
        TestRunnerState::Finish => 0,
    }
}

/// Law: every run terminates. While the machine is not finished each step
/// strictly decreases the non-negative measure `steps_remaining`, so a
/// driver that steps until `Finish` always gets there, whether the course
/// is exhausted, a mandatory test fails, or the version is unsupported.
pub proof fn lemma_run_terminates(
    pre: TestRunner,
    outcome: Option<TestResult>,
    post: TestRunner,
    events: Seq<Event>,
)
    requires
        pre.wf(),
        step_spec(pre, outcome, post, events),
        !(pre.state is Finish),
    ensures
        0 < steps_remaining(pre),
        0 <= steps_remaining(post) < steps_remaining(pre),
{
    lemma_step_preserves_wf(pre, outcome, post, events);
    let c = pre.course;
    match pre.state {
        TestRunnerState::NewSuite(i) => {
            lemma_prefix_monotone(c.suites@, i as int, c.suites@.len() as int);
            assert(tests_in_prefix(c.suites@, i as int + 1)
                == tests_in_prefix(c.suites@, i as int)
                + c.suites@[i as int].tests@.len());
        },
        TestRunnerState::NewTest(i, j) => {
            lemma_prefix_monotone(c.suites@, i as int + 1, c.suites@.len() as int);
            assert(tests_in_prefix(c.suites@, i as int + 1)
                == tests_in_prefix(c.suites@, i as int)
                + c.suites@[i as int].tests@.len());
        },
        _ => {},
    }
    match post.state {
        TestRunnerState::NewSuite(i) => {
            lemma_prefix_monotone(c.suites@, i as int, c.suites@.len() as int);
        },
        TestRunnerState::NewTest(i, j) => {
            lemma_prefix_monotone(c.suites@, i as int + 1, c.suites@.len() as int);
            assert(tests_in_prefix(c.suites@, i as int + 1)
                == tests_in_prefix(c.suites@, i as int)
                + c.suites@[i as int].tests@.len());
        },
        _ => {},
    }
}

} // verus!
