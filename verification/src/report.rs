//! What the test runner prints when a run finishes: a headline, and one line
//! per test status that the report mode selects.
use vstd::prelude::*;
use crate::testing::{TestStatus, TestStatusKind};
use crate::testcli::TestReportMode;
use crate::text::{push_decimal, push_str, decimal_digits};

verus! {

/// `testing finished: <passed> passed, <failed> failed`.
pub fn report_headline(passed: usize, failed: usize) -> (res: String)
    ensures
        res@ == "testing finished: "@ + decimal_digits(passed as nat) + " passed, "@ + decimal_digits(
            failed as nat,
        ) + " failed"@,
{
    let mut out = String::new();
    push_str(&mut out, "testing finished: ");
    push_decimal(&mut out, passed as u64);
    push_str(&mut out, " passed, ");
    push_decimal(&mut out, failed as u64);
    push_str(&mut out, " failed");
    out
}

/// The printed name of a status.
pub open spec fn status_kind_text(k: TestStatusKind) -> Seq<char> {
    match k {
        TestStatusKind::Running => "running"@,
        TestStatusKind::Passed => "passed"@,
        TestStatusKind::Failed => "failed"@,
        TestStatusKind::TimedOut => "timed_out"@,
    }
}

/// `[<outcome>] frame=<frame> world=<world> <name>`, followed by
/// `: <message>` when the status has a message.
pub open spec fn status_line_spec(s: TestStatus) -> Seq<char> {
    let head = "["@ + status_kind_text(s.outcome) + "] frame="@ + decimal_digits(s.frame as nat)
        + " world="@ + decimal_digits(s.world_id as nat) + " "@ + s.name@;
    match s.message {
        Some(m) => head + ": "@ + m@,
        None => head,
    }
}

/// See [`status_line_spec`].
pub fn status_line(s: &TestStatus) -> (res: String)
    ensures
        res@ == status_line_spec(*s),
{
    let mut out = String::new();
    push_str(&mut out, "[");
    push_str(&mut out, s.outcome.as_str());
    push_str(&mut out, "] frame=");
    push_decimal(&mut out, s.frame);
    push_str(&mut out, " world=");
    push_decimal(&mut out, s.world_id as u64);
    push_str(&mut out, " ");
    push_str(&mut out, s.name.as_str());
    match &s.message {
        Some(m) => {
            push_str(&mut out, ": ");
            push_str(&mut out, m.as_str());
        },
        None => {},
    }
    out
}

/// Whether a status is a failure (failed or timed out).
pub open spec fn is_failure_kind(k: TestStatusKind) -> bool {
    k == TestStatusKind::Failed || k == TestStatusKind::TimedOut
}

/// Whether the status at `i` is printed in `mode`: never in the summary,
/// always with `All`, failures only with `Failures`, and failures that have
/// a final state with `FailureDetails` (their state is printed too).
pub open spec fn printed_spec(statuses: Seq<TestStatus>, state_count: nat, mode: TestReportMode, i: int) -> bool {
    match mode {
        TestReportMode::Summary => false,
        TestReportMode::All => true,
        TestReportMode::Failures => is_failure_kind(statuses[i].outcome),
        TestReportMode::FailureDetails => is_failure_kind(statuses[i].outcome) && i < state_count,
    }
}

/// Positions of the statuses printed in `mode`, ascending.
pub fn printed_statuses(statuses: &Vec<TestStatus>, state_count: usize, mode: TestReportMode) -> (res:
    Vec<usize>)
    ensures
        forall|a: int, b: int| 0 <= a < b < res@.len() ==> res@[a] < res@[b],
        forall|k: int| 0 <= k < res@.len() ==> res@[k] < statuses@.len(),
        forall|i: int|
            0 <= i < statuses@.len() ==> (res@.contains(i as usize) <==> printed_spec(
                statuses@,
                state_count as nat,
                mode,
                i,
            )),
{
    let mut out: Vec<usize> = Vec::new();
    let mut i: usize = 0;
    while i < statuses.len()
        invariant
            i <= statuses@.len(),
            forall|a: int, b: int| 0 <= a < b < out@.len() ==> out@[a] < out@[b],
            forall|k: int| 0 <= k < out@.len() ==> out@[k] < i,
            forall|j: int|
                0 <= j < i ==> (out@.contains(j as usize) <==> printed_spec(
                    statuses@,
                    state_count as nat,
                    mode,
                    j,
                )),
        decreases statuses.len() - i,
    {
        let failure = statuses[i].is_failure();
        let take = match mode {
            TestReportMode::Summary => false,
            TestReportMode::All => true,
            TestReportMode::Failures => failure,
            TestReportMode::FailureDetails => failure && i < state_count,
        };
        let ghost before = out@;
        if take {
            out.push(i);
        }
        proof {
            assert forall|j: int|
                0 <= j < i + 1 implies (out@.contains(j as usize) <==> printed_spec(
                statuses@,
                state_count as nat,
                mode,
                j,
            )) by {
                if j < i {
                    if out@.contains(j as usize) {
                        let k = choose|k: int| 0 <= k < out@.len() && out@[k] == j as usize;
                        if k < before.len() {
                            assert(before[k] == j as usize);
                        }
                    }
                    if before.contains(j as usize) {
                        let k = choose|k: int| 0 <= k < before.len() && before[k] == j as usize;
                        assert(out@[k] == j as usize);
                    }
                } else if take {
                    assert(out@[out@.len() - 1] == i);
                }
            }
        }
        i = i + 1;
    }
    out
}

} // verus!
