//! Bookkeeping of the batch test runner: named test cases grouped into suites
//! and plans, per-world statuses, reports, and how root groups are chunked
//! into concurrently simulated batches.
use vstd::prelude::*;
use crate::text::{join, join_spec, views, push_decimal, decimal_digits};

verus! {

/// Verdict of a test after looking at one world state.
#[derive(Debug, Clone, PartialEq, Eq)]
pub enum TestOutcome {
    Running,
    Passed,
    Failed(String),
}

/// A test together with its name path (suite names, then the test's name).
pub struct TestCase<T> {
    pub path: Vec<String>,
    pub test: T,
}

/// `path` with `name` in front.
pub open spec fn prefixed(name: Seq<char>, path: Seq<Seq<char>>) -> Seq<Seq<char>> {
    seq![name] + path
}

impl<T> TestCase<T> {
    /// The character sequences of the path.
    pub open spec fn path_view(&self) -> Seq<Seq<char>> {
        views(self.path@)
    }

    /// A test named `name` at the top level.
    pub fn new(name: String, test: T) -> (res: TestCase<T>)
        ensures
            res.path_view() == seq![name@],
            res.test == test,
    {
        let mut path: Vec<String> = Vec::new();
        path.push(name);
        let res = TestCase { path, test };
        assert(res.path_view() =~= seq![name@]);
        res
    }

    /// A test with an explicit name path.
    pub fn with_path(path: Vec<String>, test: T) -> (res: TestCase<T>)
        ensures
            res.path_view() == views(path@),
            res.test == test,
    {
        TestCase { path, test }
    }

    /// The path joined with `" / "`.
    pub fn display_name(&self) -> (res: String)
        ensures
            res@ == join_spec(self.path_view(), " / "@),
    {
        join(&self.path, " / ")
    }

    /// Puts `name` in front of the path.
    pub fn prefix_path(&mut self, name: &String)
        ensures
            final(self).path_view() == prefixed(name@, old(self).path_view()),
            final(self).test == old(self).test,
    {
        let ghost before = self.path_view();
        self.path.insert(0, name.clone());
        assert(self.path_view() =~= prefixed(name@, before));
    }
}

/// Moves every case of `cases` to the end of `out`, with `name` put in front
/// of each path.
fn append_prefixed<T>(out: &mut Vec<TestCase<T>>, name: &String, cases: Vec<TestCase<T>>)
    ensures
        final(out)@.len() == old(out)@.len() + cases@.len(),
        forall|i: int| 0 <= i < old(out)@.len() ==> #[trigger] final(out)@[i] == old(out)@[i],
        forall|i: int|
            0 <= i < cases@.len() ==> (#[trigger] final(out)@[old(out)@.len() + i]).path_view()
                == prefixed(name@, cases@[i].path_view()) && final(out)@[old(out)@.len() + i].test
                == cases@[i].test,
{
    let ghost orig = cases@;
    let ghost start = out@;
    let total = cases.len();
    let mut rest = cases;
    let mut k: usize = 0;
    while rest.len() > 0
        invariant
            k + rest@.len() == orig.len(),
            orig.len() == total,
            rest@ == orig.subrange(k as int, orig.len() as int),
            out@.len() == start.len() + k,
            forall|i: int| 0 <= i < start.len() ==> #[trigger] out@[i] == start[i],
            forall|i: int|
                0 <= i < k ==> (#[trigger] out@[start.len() + i]).path_view() == prefixed(
                    name@,
                    orig[i].path_view(),
                ) && out@[start.len() + i].test == orig[i].test,
        decreases rest@.len(),
    {
        let mut case = rest.remove(0);
        case.prefix_path(name);
        out.push(case);
        assert(rest@ =~= orig.subrange(k + 1, orig.len() as int));
        k = k + 1;
    }
}

/// The name path and test of each case.
pub open spec fn case_views<T>(cases: Seq<TestCase<T>>) -> Seq<(Seq<Seq<char>>, T)> {
    Seq::new(cases.len(), |i: int| (cases[i].path_view(), cases[i].test))
}

/// The cases a suite hands out: its cases in order, each with the suite's
/// name in front of its path.
pub open spec fn suite_case_views<T>(s: TestSuite<T>) -> Seq<(Seq<Seq<char>>, T)> {
    Seq::new(s.cases@.len(), |i: int| (prefixed(s.name@, s.cases@[i].path_view()), s.cases@[i].test))
}

/// The cases of a plan: each suite's cases, suite after suite.
pub open spec fn plan_case_views<T>(groups: Seq<TestSuite<T>>) -> Seq<(Seq<Seq<char>>, T)>
    decreases groups.len(),
{
    if groups.len() == 0 {
        Seq::empty()
    } else {
        plan_case_views(groups.drop_last()) + suite_case_views(groups.last())
    }
}

/// A plan's cases are the concatenation of its suites' cases in the order
/// the suites were added: the empty plan has none, and adding a suite
/// appends that suite's cases.
pub proof fn plan_cases_concatenate<T>(groups: Seq<TestSuite<T>>, suite: TestSuite<T>)
    ensures
        plan_case_views(Seq::<TestSuite<T>>::empty()) == Seq::<(Seq<Seq<char>>, T)>::empty(),
        plan_case_views(groups.push(suite)) == plan_case_views(groups) + suite_case_views(suite),
{
    assert(groups.push(suite).drop_last() =~= groups);
}

/// A named suite of test cases.
pub struct TestSuite<T> {
    pub name: String,
    pub cases: Vec<TestCase<T>>,
}

impl<T> TestSuite<T> {
    /// An empty suite.
    pub fn new(name: String) -> (res: TestSuite<T>)
        ensures
            res.name@ == name@,
            res.cases@.len() == 0,
    {
        TestSuite { name, cases: Vec::new() }
    }

    /// The suite with one more test, named `name`, at the end.
    pub fn test(self, name: String, test: T) -> (res: TestSuite<T>)
        ensures
            res.name == self.name,
            res.cases@.len() == self.cases@.len() + 1,
            forall|i: int| 0 <= i < self.cases@.len() ==> #[trigger] res.cases@[i] == self.cases@[i],
            res.cases@.last().path_view() == seq![name@],
            res.cases@.last().test == test,
    {
        let mut suite = self;
        suite.cases.push(TestCase::new(name, test));
        suite
    }

    /// The suite with `cases` appended as a group named `name`: each path gets
    /// `name` in front.
    pub fn subtests(self, name: String, cases: Vec<TestCase<T>>) -> (res: TestSuite<T>)
        ensures
            res.name == self.name,
            res.cases@.len() == self.cases@.len() + cases@.len(),
            forall|i: int| 0 <= i < self.cases@.len() ==> #[trigger] res.cases@[i] == self.cases@[i],
            forall|i: int|
                0 <= i < cases@.len() ==> (#[trigger] res.cases@[self.cases@.len() + i]).path_view()
                    == prefixed(name@, cases@[i].path_view()) && res.cases@[self.cases@.len()
                    + i].test == cases@[i].test,
    {
        let mut suite = self;
        append_prefixed(&mut suite.cases, &name, cases);
        suite
    }

    /// The suite's cases, each with the suite's name in front of its path.
    pub fn into_cases(self) -> (res: Vec<TestCase<T>>)
        ensures
            res@.len() == self.cases@.len(),
            forall|i: int|
                0 <= i < res@.len() ==> (#[trigger] res@[i]).path_view() == prefixed(
                    self.name@,
                    self.cases@[i].path_view(),
                ) && res@[i].test == self.cases@[i].test,
            case_views(res@) == suite_case_views(self),
    {
        let mut out: Vec<TestCase<T>> = Vec::new();
        let ghost cases = self.cases@;
        append_prefixed(&mut out, &self.name, self.cases);
        assert forall|i: int| 0 <= i < out@.len() implies (#[trigger] out@[i]).path_view() == prefixed(
            self.name@,
            cases[i].path_view(),
        ) && out@[i].test == cases[i].test by {
            assert(out@[0 + i] == out@[i]);
        }
        assert(case_views(out@) =~= suite_case_views(self));
        out
    }
}

/// Suites whose root groups are run in order.
pub struct TestPlan<T> {
    pub groups: Vec<TestSuite<T>>,
}

impl<T> TestPlan<T> {
    /// A plan with no suites.
    pub fn new() -> (res: TestPlan<T>)
        ensures
            res.groups@.len() == 0,
    {
        TestPlan { groups: Vec::new() }
    }

    /// The plan with one more suite at the end.
    pub fn suite(self, suite: TestSuite<T>) -> (res: TestPlan<T>)
        ensures
            res.groups@ == self.groups@.push(suite),
    {
        let mut plan = self;
        plan.groups.push(suite);
        plan
    }

    /// One group per suite, each holding that suite's cases (see
    /// [`TestSuite::into_cases`]).
    pub fn into_groups(self) -> (res: Vec<Vec<TestCase<T>>>)
        ensures
            res@.len() == self.groups@.len(),
            forall|g: int|
                0 <= g < res@.len() ==> (#[trigger] res@[g])@.len() == self.groups@[g].cases@.len(),
            forall|g: int, i: int|
                0 <= g < res@.len() && 0 <= i < res@[g]@.len() ==> (#[trigger] res@[g]@[i]).path_view()
                    == prefixed(self.groups@[g].name@, self.groups@[g].cases@[i].path_view())
                    && res@[g]@[i].test == self.groups@[g].cases@[i].test,
    {
        let ghost orig = self.groups@;
        let mut rest = self.groups;
        let mut out: Vec<Vec<TestCase<T>>> = Vec::new();
        while rest.len() > 0
            invariant
                out@.len() + rest@.len() == orig.len(),
                rest@ == orig.subrange(out@.len() as int, orig.len() as int),
                forall|g: int|
                    0 <= g < out@.len() ==> (#[trigger] out@[g])@.len() == orig[g].cases@.len(),
                forall|g: int, i: int|
                    0 <= g < out@.len() && 0 <= i < out@[g]@.len() ==> (#[trigger] out@[g]@[i]).path_view()
                        == prefixed(orig[g].name@, orig[g].cases@[i].path_view())
                        && out@[g]@[i].test == orig[g].cases@[i].test,
            decreases rest@.len(),
        {
            let suite = rest.remove(0);
            let ghost g = out@.len();
            assert(suite == orig[g as int]);
            let cases = suite.into_cases();
            out.push(cases);
            assert(rest@ =~= orig.subrange(out@.len() as int, orig.len() as int));
        }
        out
    }

    /// Every case of every suite, suite by suite: case `i` of suite `g`
    /// stands after all cases of the suites before it.
    pub fn into_cases(self) -> (res: Vec<TestCase<T>>)
        ensures
            res@.len() == total_cases(self.groups@),
            forall|g: int, i: int|
                0 <= g < self.groups@.len() && 0 <= i < self.groups@[g].cases@.len() ==> {
                    let c = #[trigger] res@[total_cases(self.groups@.subrange(0, g)) + i];
                    &&& c.path_view() == prefixed(
                        self.groups@[g].name@,
                        self.groups@[g].cases@[i].path_view(),
                    )
                    &&& c.test == self.groups@[g].cases@[i].test
                },
            case_views(res@) == plan_case_views(self.groups@),
    {
        let ghost orig = self.groups@;
        let groups = self.into_groups();
        let ghost gs = groups@;
        let total = groups.len();
        let mut rest = groups;
        let mut out: Vec<TestCase<T>> = Vec::new();
        let mut k: usize = 0;
        proof {
            assert(orig.subrange(0, 0) =~= Seq::<TestSuite<T>>::empty());
        }
        while rest.len() > 0
            invariant
                k + rest@.len() == gs.len(),
                gs.len() == total,
                gs.len() == orig.len(),
                rest@ == gs.subrange(k as int, gs.len() as int),
                forall|g: int| 0 <= g < gs.len() ==> (#[trigger] gs[g])@.len() == orig[g].cases@.len(),
                forall|g: int, i: int|
                    0 <= g < gs.len() && 0 <= i < gs[g]@.len() ==> (#[trigger] gs[g]@[i]).path_view()
                        == prefixed(orig[g].name@, orig[g].cases@[i].path_view())
                        && gs[g]@[i].test == orig[g].cases@[i].test,
                out@.len() == total_cases(orig.subrange(0, k as int)),
                case_views(out@) == plan_case_views(orig.subrange(0, k as int)),
                forall|g: int, i: int|
                    0 <= g < k && 0 <= i < orig[g].cases@.len() ==> {
                        let c = #[trigger] out@[total_cases(orig.subrange(0, g)) + i];
                        &&& c.path_view() == prefixed(orig[g].name@, orig[g].cases@[i].path_view())
                        &&& c.test == orig[g].cases@[i].test
                    },
            decreases rest@.len(),
        {
            let mut group = rest.remove(0);
            assert(group == gs[k as int]);
            let ghost before = out@;
            proof {
                assert(orig.subrange(0, k + 1).drop_last() =~= orig.subrange(0, k as int));
                lemma_total_cases_prefix(orig, k as int);
            }
            out.append(&mut group);
            proof {
                assert(case_views(gs[k as int]@) =~= suite_case_views(orig[k as int]));
                assert(case_views(out@) =~= case_views(before) + case_views(gs[k as int]@));
                assert(orig.subrange(0, k + 1).last() == orig[k as int]);
                assert(case_views(out@) == plan_case_views(orig.subrange(0, k + 1)));
                assert forall|g: int, i: int|
                    0 <= g < k + 1 && 0 <= i < orig[g].cases@.len() implies {
                        let c = #[trigger] out@[total_cases(orig.subrange(0, g)) + i];
                        &&& c.path_view() == prefixed(orig[g].name@, orig[g].cases@[i].path_view())
                        &&& c.test == orig[g].cases@[i].test
                    } by {
                    lemma_total_cases_prefix(orig, g);
                    if g < k {
                        lemma_total_cases_monotonic(orig, g + 1, k as int);
                        assert(out@[total_cases(orig.subrange(0, g)) + i] == before[total_cases(
                            orig.subrange(0, g),
                        ) + i]);
                    } else {
                        assert(out@[total_cases(orig.subrange(0, g)) + i] == gs[k as int]@[i]);
                    }
                }
            }
            assert(rest@ =~= gs.subrange(k + 1, gs.len() as int));
            k = k + 1;
        }
        assert(orig.subrange(0, k as int) =~= orig);
        out
    }
}

proof fn lemma_total_cases_prefix<T>(groups: Seq<TestSuite<T>>, g: int)
    requires
        0 <= g < groups.len(),
    ensures
        total_cases(groups.subrange(0, g + 1)) == total_cases(groups.subrange(0, g))
            + groups[g].cases@.len(),
{
    assert(groups.subrange(0, g + 1).drop_last() =~= groups.subrange(0, g));
}

proof fn lemma_total_cases_monotonic<T>(groups: Seq<TestSuite<T>>, a: int, b: int)
    requires
        0 <= a <= b <= groups.len(),
    ensures
        total_cases(groups.subrange(0, a)) <= total_cases(groups.subrange(0, b)),
    decreases b - a,
{
    if a < b {
        lemma_total_cases_prefix(groups, b - 1);
        lemma_total_cases_monotonic(groups, a, b - 1);
    }
}

/// Number of cases across suites.
pub open spec fn total_cases<T>(groups: Seq<TestSuite<T>>) -> nat
    decreases groups.len(),
{
    if groups.len() == 0 {
        0
    } else {
        total_cases(groups.drop_last()) + groups.last().cases@.len()
    }
}

/// Final or current state of one test world.
#[derive(Debug, Clone, Copy, PartialEq, Eq, Structural)]
pub enum TestStatusKind {
    Running,
    Passed,
    Failed,
    TimedOut,
}

impl TestStatusKind {
    /// The snake_case name of the status.
    pub fn as_str(&self) -> (res: &'static str)
        ensures
            *self == TestStatusKind::Running ==> res@ == "running"@,
            *self == TestStatusKind::Passed ==> res@ == "passed"@,
            *self == TestStatusKind::Failed ==> res@ == "failed"@,
            *self == TestStatusKind::TimedOut ==> res@ == "timed_out"@,
    {
        match self {
            TestStatusKind::Running => "running",
            TestStatusKind::Passed => "passed",
            TestStatusKind::Failed => "failed",
            TestStatusKind::TimedOut => "timed_out",
        }
    }
}

/// Status of the test simulated in one world.
#[derive(Debug, Clone)]
pub struct TestStatus {
    pub world_id: usize,
    pub path: Vec<String>,
    pub name: String,
    pub outcome: TestStatusKind,
    pub frame: u64,
    pub message: Option<String>,
}

/// Mathematical form of a test status: its strings as character sequences.
pub struct StatusView {
    pub world_id: usize,
    pub path: Seq<Seq<char>>,
    pub name: Seq<char>,
    pub outcome: TestStatusKind,
    pub frame: u64,
    pub message: Option<Seq<char>>,
}

impl View for TestStatus {
    type V = StatusView;

    open spec fn view(&self) -> StatusView {
        StatusView {
            world_id: self.world_id,
            path: views(self.path@),
            name: self.name@,
            outcome: self.outcome,
            frame: self.frame,
            message: match self.message {
                Some(m) => Some(m@),
                None => None,
            },
        }
    }
}

/// The views of a list of statuses.
pub open spec fn status_views(statuses: Seq<TestStatus>) -> Seq<StatusView> {
    Seq::new(statuses.len(), |i: int| statuses[i]@)
}

fn copy_status(s: &TestStatus) -> (res: TestStatus)
    ensures
        res@ == s@,
{
    let mut path: Vec<String> = Vec::new();
    let mut i: usize = 0;
    while i < s.path.len()
        invariant
            i <= s.path@.len(),
            views(path@) == views(s.path@).take(i as int),
        decreases s.path.len() - i,
    {
        let part = s.path[i].clone();
        assert(part@ == s.path@[i as int]@);
        let ghost before = views(path@);
        path.push(part);
        proof {
            assert(views(path@) =~= before.push(part@));
            assert(views(s.path@).take(i + 1) =~= views(s.path@).take(i as int).push(s.path@[i as int]@));
        }
        i = i + 1;
    }
    proof {
        assert(views(s.path@).take(i as int) =~= views(s.path@));
    }
    let message = match &s.message {
        Some(m) => Some(m.clone()),
        None => None,
    };
    let res = TestStatus {
        world_id: s.world_id,
        path,
        name: s.name.clone(),
        outcome: s.outcome,
        frame: s.frame,
        message,
    };
    res
}

/// The message of a test that ran out of ticks.
pub open spec fn timeout_message(max_ticks: u64) -> Seq<char> {
    "timed out after "@ + decimal_digits(max_ticks as nat) + " ticks"@
}

impl TestStatus {
    /// A running test in world `world_id`, seen at `frame`.
    pub fn running(world_id: usize, path: Vec<String>, name: String, frame: u64) -> (res: TestStatus)
        ensures
            res.world_id == world_id,
            res.path == path,
            res.name == name,
            res.outcome == TestStatusKind::Running,
            res.frame == frame,
            res.message is None,
    {
        TestStatus { world_id, path, name, outcome: TestStatusKind::Running, frame, message: None }
    }

    /// Failed and timed-out tests count as failures.
    pub fn is_failure(&self) -> (res: bool)
        ensures
            res == (self.outcome == TestStatusKind::Failed || self.outcome
                == TestStatusKind::TimedOut),
    {
        match self.outcome {
            TestStatusKind::Failed | TestStatusKind::TimedOut => true,
            _ => false,
        }
    }

    /// Records a test's verdict on the state at `frame`. Only a running test
    /// changes: it stays running (at the new frame), passes (clearing the
    /// message) or fails (with the reason as the message).
    pub fn apply_outcome(&mut self, outcome: TestOutcome, frame: u64)
        ensures
            final(self).world_id == old(self).world_id,
            final(self).path == old(self).path,
            final(self).name == old(self).name,
            old(self).outcome != TestStatusKind::Running ==> final(self).outcome == old(self).outcome
                && final(self).frame == old(self).frame && final(self).message == old(self).message,
            old(self).outcome == TestStatusKind::Running ==> final(self).frame == frame && match outcome {
                TestOutcome::Running => final(self).outcome == TestStatusKind::Running
                    && final(self).message == old(self).message,
                TestOutcome::Passed => final(self).outcome == TestStatusKind::Passed
                    && final(self).message is None,
                TestOutcome::Failed(reason) => final(self).outcome == TestStatusKind::Failed
                    && final(self).message == Some(reason),
            },
    {
        if self.outcome != TestStatusKind::Running {
            return;
        }
        match outcome {
            TestOutcome::Running => {
                self.frame = frame;
            },
            TestOutcome::Passed => {
                self.outcome = TestStatusKind::Passed;
                self.frame = frame;
                self.message = None;
            },
            TestOutcome::Failed(reason) => {
                self.outcome = TestStatusKind::Failed;
                self.frame = frame;
                self.message = Some(reason);
            },
        }
    }

    /// Times out a test still running at or after `max_ticks` frames.
    pub fn apply_timeout(&mut self, frame: u64, max_ticks: u64)
        ensures
            final(self).world_id == old(self).world_id,
            final(self).path == old(self).path,
            final(self).name == old(self).name,
            if old(self).outcome == TestStatusKind::Running && frame >= max_ticks {
                &&& final(self).outcome == TestStatusKind::TimedOut
                &&& final(self).frame == frame
                &&& final(self).message is Some
                &&& final(self).message->0@ == timeout_message(max_ticks)
            } else {
                &&& final(self).outcome == old(self).outcome
                &&& final(self).frame == old(self).frame
                &&& final(self).message == old(self).message
            },
    {
        if self.outcome == TestStatusKind::Running && frame >= max_ticks {
            self.outcome = TestStatusKind::TimedOut;
            self.frame = frame;
            let mut msg = String::from_str("timed out after ");
            push_decimal(&mut msg, max_ticks);
            msg.append(" ticks");
            self.message = Some(msg);
        }
    }
}

/// How a status changes when its test reports `outcome` on the state at
/// `frame` (see [`TestStatus::apply_outcome`]).
pub open spec fn outcome_step(before: TestStatus, after: TestStatus, outcome: TestOutcome, frame: u64) -> bool {
    &&& after.world_id == before.world_id
    &&& after.path == before.path
    &&& after.name == before.name
    &&& before.outcome != TestStatusKind::Running ==> after.outcome == before.outcome && after.frame
        == before.frame && after.message == before.message
    &&& before.outcome == TestStatusKind::Running ==> after.frame == frame && match outcome {
        TestOutcome::Running => after.outcome == TestStatusKind::Running && after.message
            == before.message,
        TestOutcome::Passed => after.outcome == TestStatusKind::Passed && after.message is None,
        TestOutcome::Failed(reason) => after.outcome == TestStatusKind::Failed && after.message
            == Some(reason),
    }
}

/// How a status changes when its world is at `frame` and tests may run for
/// `max_ticks` frames (see [`TestStatus::apply_timeout`]).
pub open spec fn timeout_step(before: TestStatus, after: TestStatus, frame: u64, max_ticks: u64) -> bool {
    &&& after.world_id == before.world_id
    &&& after.path == before.path
    &&& after.name == before.name
    &&& if before.outcome == TestStatusKind::Running && frame >= max_ticks {
        &&& after.outcome == TestStatusKind::TimedOut
        &&& after.frame == frame
        &&& after.message is Some
        &&& after.message->0@ == timeout_message(max_ticks)
    } else {
        &&& after.outcome == before.outcome
        &&& after.frame == before.frame
        &&& after.message == before.message
    }
}

/// Applies the verdict of every world at once: status `i` gets `outcomes[i]`
/// for the state at `frames[i]`; finished tests keep their result.
pub fn record_outcomes(statuses: &mut Vec<TestStatus>, outcomes: Vec<TestOutcome>, frames: &Vec<u64>)
    requires
        outcomes@.len() == old(statuses)@.len(),
        frames@.len() == old(statuses)@.len(),
    ensures
        final(statuses)@.len() == old(statuses)@.len(),
        forall|i: int|
            0 <= i < old(statuses)@.len() ==> outcome_step(
                old(statuses)@[i],
                #[trigger] final(statuses)@[i],
                outcomes@[i],
                frames@[i],
            ),
{
    let ghost orig = statuses@;
    let ghost all = outcomes@;
    let mut outcomes = outcomes;
    let mut i: usize = statuses.len();
    while i > 0
        invariant
            i <= orig.len(),
            statuses@.len() == orig.len(),
            frames@.len() == orig.len(),
            all.len() == orig.len(),
            outcomes@ == all.take(i as int),
            forall|k: int| 0 <= k < i ==> statuses@[k] == orig[k],
            forall|k: int|
                i <= k < orig.len() ==> outcome_step(orig[k], #[trigger] statuses@[k], all[k], frames@[k]),
        decreases i,
    {
        i = i - 1;
        let o = outcomes.pop().unwrap();
        proof {
            assert(outcomes@ =~= all.take(i as int));
            assert(o == all[i as int]);
        }
        let mut st = statuses.remove(i);
        st.apply_outcome(o, frames[i]);
        statuses.insert(i, st);
    }
}

/// Times out every running test whose world reached `max_ticks` frames
/// (`frames[i]` is world `i`'s frame).
pub fn time_out_all(statuses: &mut Vec<TestStatus>, frames: &Vec<u64>, max_ticks: u64)
    requires
        frames@.len() == old(statuses)@.len(),
    ensures
        final(statuses)@.len() == old(statuses)@.len(),
        forall|i: int|
            0 <= i < old(statuses)@.len() ==> timeout_step(
                old(statuses)@[i],
                #[trigger] final(statuses)@[i],
                frames@[i],
                max_ticks,
            ),
{
    let ghost orig = statuses@;
    let mut i: usize = 0;
    while i < statuses.len()
        invariant
            i <= orig.len(),
            statuses@.len() == orig.len(),
            frames@.len() == orig.len(),
            forall|k: int| i <= k < orig.len() ==> statuses@[k] == orig[k],
            forall|k: int|
                0 <= k < i ==> timeout_step(orig[k], #[trigger] statuses@[k], frames@[k], max_ticks),
        decreases orig.len() - i,
    {
        let mut st = statuses.remove(i);
        st.apply_timeout(frames[i], max_ticks);
        statuses.insert(i, st);
        i = i + 1;
    }
}

/// Whether a world steps with its test's own command and takes the new
/// state: while its test runs, or always when finished worlds are not
/// stopped.
pub fn world_advances(outcome: TestStatusKind, stop_finished_worlds: bool) -> (res: bool)
    ensures
        res == (outcome == TestStatusKind::Running || !stop_finished_worlds),
{
    outcome == TestStatusKind::Running || !stop_finished_worlds
}

/// Number of statuses with the given outcome.
pub open spec fn count_kind(statuses: Seq<TestStatus>, kind: TestStatusKind) -> nat
    decreases statuses.len(),
{
    if statuses.len() == 0 {
        0
    } else {
        count_kind(statuses.drop_last(), kind) + if statuses.last().outcome == kind {
            1nat
        } else {
            0nat
        }
    }
}

proof fn lemma_count_kind_bound(statuses: Seq<TestStatus>, kind: TestStatusKind)
    ensures
        count_kind(statuses, kind) <= statuses.len(),
    decreases statuses.len(),
{
    if statuses.len() > 0 {
        lemma_count_kind_bound(statuses.drop_last(), kind);
    }
}

/// How many of `statuses` have outcome `kind`.
pub fn count_outcome(statuses: &Vec<TestStatus>, kind: TestStatusKind) -> (res: usize)
    ensures
        res == count_kind(statuses@, kind),
{
    let mut n: usize = 0;
    let mut i: usize = 0;
    while i < statuses.len()
        invariant
            i <= statuses@.len(),
            n == count_kind(statuses@.take(i as int), kind),
        decreases statuses.len() - i,
    {
        proof {
            assert(statuses@.take(i + 1).drop_last() =~= statuses@.take(i as int));
            lemma_count_kind_bound(statuses@.take(i as int), kind);
        }
        if statuses[i].outcome == kind {
            n = n + 1;
        }
        i = i + 1;
    }
    assert(statuses@.take(i as int) =~= statuses@);
    n
}

/// Whether no test is still running.
pub fn all_finished(statuses: &Vec<TestStatus>) -> (res: bool)
    ensures
        res == forall|i: int| 0 <= i < statuses@.len() ==> #[trigger] statuses@[i].outcome != TestStatusKind::Running,
{
    let mut i: usize = 0;
    while i < statuses.len()
        invariant
            i <= statuses@.len(),
            forall|j: int| 0 <= j < i ==> #[trigger] statuses@[j].outcome != TestStatusKind::Running,
        decreases statuses.len() - i,
    {
        if statuses[i].outcome == TestStatusKind::Running {
            return false;
        }
        i = i + 1;
    }
    true
}

/// Counts of test outcomes together with the statuses.
#[derive(Debug, Clone)]
pub struct TestSuiteSnapshot {
    pub passed: usize,
    pub failed: usize,
    pub timed_out: usize,
    pub running: usize,
    pub tests: Vec<TestStatus>,
}

impl TestSuiteSnapshot {
    /// Whether the counts are those of the statuses.
    pub open spec fn consistent(&self) -> bool {
        &&& self.passed == count_kind(self.tests@, TestStatusKind::Passed)
        &&& self.failed == count_kind(self.tests@, TestStatusKind::Failed)
        &&& self.timed_out == count_kind(self.tests@, TestStatusKind::TimedOut)
        &&& self.running == count_kind(self.tests@, TestStatusKind::Running)
    }

    /// The snapshot of `statuses`.
    pub fn of_statuses(statuses: Vec<TestStatus>) -> (res: TestSuiteSnapshot)
        ensures
            res.consistent(),
            res.tests@ == statuses@,
    {
        let passed = count_outcome(&statuses, TestStatusKind::Passed);
        let failed = count_outcome(&statuses, TestStatusKind::Failed);
        let timed_out = count_outcome(&statuses, TestStatusKind::TimedOut);
        let running = count_outcome(&statuses, TestStatusKind::Running);
        TestSuiteSnapshot { passed, failed, timed_out, running, tests: statuses }
    }

    /// Adds another snapshot's counts and statuses to this one.
    pub fn extend(&mut self, other: TestSuiteSnapshot)
        requires
            old(self).passed + other.passed <= usize::MAX,
            old(self).failed + other.failed <= usize::MAX,
            old(self).timed_out + other.timed_out <= usize::MAX,
            old(self).running + other.running <= usize::MAX,
        ensures
            final(self).passed == old(self).passed + other.passed,
            final(self).failed == old(self).failed + other.failed,
            final(self).timed_out == old(self).timed_out + other.timed_out,
            final(self).running == old(self).running + other.running,
            final(self).tests@ == old(self).tests@ + other.tests@,
    {
        self.passed = self.passed + other.passed;
        self.failed = self.failed + other.failed;
        self.timed_out = self.timed_out + other.timed_out;
        self.running = self.running + other.running;
        let mut more = other.tests;
        self.tests.append(&mut more);
    }
}

proof fn lemma_count_kind_concat(a: Seq<TestStatus>, b: Seq<TestStatus>, kind: TestStatusKind)
    ensures
        count_kind(a + b, kind) == count_kind(a, kind) + count_kind(b, kind),
    decreases b.len(),
{
    if b.len() == 0 {
        assert(a + b =~= a);
    } else {
        assert((a + b).drop_last() =~= a + b.drop_last());
        lemma_count_kind_concat(a, b.drop_last(), kind);
    }
}

/// Merging the snapshots of two batches gives the snapshot of all their
/// statuses together.
pub proof fn snapshot_extend_consistent(a: TestSuiteSnapshot, b: TestSuiteSnapshot)
    requires
        a.consistent(),
        b.consistent(),
    ensures
        ({
            let merged = TestSuiteSnapshot {
                passed: (a.passed + b.passed) as usize,
                failed: (a.failed + b.failed) as usize,
                timed_out: (a.timed_out + b.timed_out) as usize,
                running: (a.running + b.running) as usize,
                tests: a.tests,
            };
            a.passed + b.passed == count_kind(a.tests@ + b.tests@, TestStatusKind::Passed)
                && a.failed + b.failed == count_kind(a.tests@ + b.tests@, TestStatusKind::Failed)
                && a.timed_out + b.timed_out == count_kind(a.tests@ + b.tests@, TestStatusKind::TimedOut)
                && a.running + b.running == count_kind(a.tests@ + b.tests@, TestStatusKind::Running)
        }),
{
    lemma_count_kind_concat(a.tests@, b.tests@, TestStatusKind::Passed);
    lemma_count_kind_concat(a.tests@, b.tests@, TestStatusKind::Failed);
    lemma_count_kind_concat(a.tests@, b.tests@, TestStatusKind::TimedOut);
    lemma_count_kind_concat(a.tests@, b.tests@, TestStatusKind::Running);
}

/// Statuses and final world states of a test run.
pub struct TestReport<S> {
    pub statuses: Vec<TestStatus>,
    pub final_states: Vec<S>,
}

impl<S> TestReport<S> {
    /// A report of no tests.
    pub fn empty() -> (res: TestReport<S>)
        ensures
            res.statuses@.len() == 0,
            res.final_states@.len() == 0,
    {
        TestReport { statuses: Vec::new(), final_states: Vec::new() }
    }

    /// Number of passed tests.
    pub fn passed(&self) -> (res: usize)
        ensures
            res == count_kind(self.statuses@, TestStatusKind::Passed),
    {
        count_outcome(&self.statuses, TestStatusKind::Passed)
    }

    /// Number of failed or timed-out tests.
    pub fn failed(&self) -> (res: usize)
        ensures
            res == failure_count(self.statuses@),
            res == count_kind(self.statuses@, TestStatusKind::Failed) + count_kind(
                self.statuses@,
                TestStatusKind::TimedOut,
            ),
    {
        let total = self.statuses.len();
        let f = count_outcome(&self.statuses, TestStatusKind::Failed);
        let t = count_outcome(&self.statuses, TestStatusKind::TimedOut);
        proof {
            lemma_count_disjoint(self.statuses@);
            report_counts(self.statuses@);
        }
        assert(f + t <= total);
        f + t
    }

    /// True when no test failed or timed out.
    pub fn is_success(&self) -> (res: bool)
        ensures
            res == (forall|i: int|
                0 <= i < self.statuses@.len() ==> !is_failure_status(#[trigger] self.statuses@[i])),
            res == (count_kind(self.statuses@, TestStatusKind::Failed) + count_kind(
                self.statuses@,
                TestStatusKind::TimedOut,
            ) == 0),
    {
        proof {
            report_counts(self.statuses@);
        }
        self.failed() == 0
    }

    /// Appends another report's statuses and states.
    pub fn extend(&mut self, other: TestReport<S>)
        ensures
            final(self).statuses@ == old(self).statuses@ + other.statuses@,
            final(self).final_states@ == old(self).final_states@ + other.final_states@,
    {
        let mut statuses = other.statuses;
        let mut states = other.final_states;
        self.statuses.append(&mut statuses);
        self.final_states.append(&mut states);
    }

    /// The viewer snapshot of the report's statuses.
    pub fn viewer_snapshot(&self) -> (res: TestSuiteSnapshot)
        ensures
            res.consistent(),
            status_views(res.tests@) == status_views(self.statuses@),
    {
        let mut copy: Vec<TestStatus> = Vec::new();
        let mut i: usize = 0;
        while i < self.statuses.len()
            invariant
                i <= self.statuses@.len(),
                status_views(copy@) == status_views(self.statuses@).take(i as int),
            decreases self.statuses.len() - i,
        {
            let st = copy_status(&self.statuses[i]);
            let ghost before = status_views(copy@);
            copy.push(st);
            proof {
                assert(status_views(copy@) =~= before.push(st@));
                assert(status_views(self.statuses@).take(i + 1) =~= status_views(self.statuses@).take(
                    i as int,
                ).push(self.statuses@[i as int]@));
            }
            i = i + 1;
        }
        proof {
            assert(status_views(self.statuses@).take(i as int) =~= status_views(self.statuses@));
        }
        TestSuiteSnapshot::of_statuses(copy)
    }
}

/// Whether a status counts as a failure (failed or timed out).
pub open spec fn is_failure_status(s: TestStatus) -> bool {
    s.outcome == TestStatusKind::Failed || s.outcome == TestStatusKind::TimedOut
}

/// Number of statuses that are failures.
pub open spec fn failure_count(statuses: Seq<TestStatus>) -> nat
    decreases statuses.len(),
{
    if statuses.len() == 0 {
        0
    } else {
        failure_count(statuses.drop_last()) + if is_failure_status(statuses.last()) {
            1nat
        } else {
            0nat
        }
    }
}

/// The report counts agree with the statuses: the failures counted are the
/// failed plus the timed-out tests, passed and failed together never exceed
/// the number of tests, and no failure is counted exactly when no status is
/// a failure.
pub proof fn report_counts(statuses: Seq<TestStatus>)
    ensures
        failure_count(statuses) == count_kind(statuses, TestStatusKind::Failed) + count_kind(
            statuses,
            TestStatusKind::TimedOut,
        ),
        count_kind(statuses, TestStatusKind::Passed) + failure_count(statuses) <= statuses.len(),
        (failure_count(statuses) == 0) == (forall|i: int|
            0 <= i < statuses.len() ==> !is_failure_status(#[trigger] statuses[i])),
    decreases statuses.len(),
{
    if statuses.len() > 0 {
        let d = statuses.drop_last();
        report_counts(d);
        if failure_count(statuses) == 0 {
            assert forall|i: int| 0 <= i < statuses.len() implies !is_failure_status(
                #[trigger] statuses[i],
            ) by {
                if i < statuses.len() - 1 {
                    assert(statuses[i] == d[i]);
                }
            }
        }
        if forall|i: int| 0 <= i < statuses.len() ==> !is_failure_status(#[trigger] statuses[i]) {
            assert forall|i: int| 0 <= i < d.len() implies !is_failure_status(#[trigger] d[i]) by {
                assert(statuses[i] == d[i]);
            }
            assert(!is_failure_status(statuses[statuses.len() - 1]));
        }
    }
}

proof fn lemma_count_disjoint(statuses: Seq<TestStatus>)
    ensures
        count_kind(statuses, TestStatusKind::Failed) + count_kind(statuses, TestStatusKind::TimedOut)
            <= statuses.len(),
    decreases statuses.len(),
{
    if statuses.len() > 0 {
        lemma_count_disjoint(statuses.drop_last());
    }
}

} // verus!
