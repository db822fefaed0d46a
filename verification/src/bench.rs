//! The benchmark's integer bookkeeping: the challenger plays every seed once
//! on each side; goals, results and shots are summed over all matches.
use vstd::prelude::*;
use crate::text::{push_char, push_decimal, push_str, decimal_digits};

verus! {

/// The challenger's running totals over the matches played so far.
#[derive(Debug, Clone, Copy, PartialEq, Eq, Structural)]
pub struct BenchTally {
    pub chal_goals: u32,
    pub opp_goals: u32,
    pub wins: u32,
    pub draws: u32,
    pub losses: u32,
    pub chal_shots: u32,
    pub chal_on_target: u32,
    pub matches: u32,
}

/// The integer outcome of one match from the challenger's side.
#[derive(Debug, Clone, Copy, PartialEq, Eq, Structural)]
pub struct ChallengerResult {
    pub goals_for: u32,
    pub goals_against: u32,
    pub shots: u32,
    pub shots_on_target: u32,
}

impl BenchTally {
    /// No match played.
    pub fn new() -> (res: BenchTally)
        ensures
            res.wf(),
            res == (BenchTally {
                chal_goals: 0,
                opp_goals: 0,
                wins: 0,
                draws: 0,
                losses: 0,
                chal_shots: 0,
                chal_on_target: 0,
                matches: 0,
            }),
    {
        BenchTally {
            chal_goals: 0,
            opp_goals: 0,
            wins: 0,
            draws: 0,
            losses: 0,
            chal_shots: 0,
            chal_on_target: 0,
            matches: 0,
        }
    }

    /// The results add up to the matches played.
    pub open spec fn wf(self) -> bool {
        self.wins + self.draws + self.losses == self.matches
    }

    /// Whether one more match can be summed without overflow.
    pub open spec fn can_add(self, r: ChallengerResult) -> bool {
        &&& self.chal_goals + r.goals_for <= u32::MAX
        &&& self.opp_goals + r.goals_against <= u32::MAX
        &&& self.chal_shots + r.shots <= u32::MAX
        &&& self.chal_on_target + r.shots_on_target <= u32::MAX
        &&& self.matches < u32::MAX
    }

    /// The totals after one more match: goals and shots summed, and a win,
    /// draw or loss by comparing the challenger's goals with the opponent's.
    pub open spec fn add_spec(self, r: ChallengerResult) -> BenchTally {
        BenchTally {
            chal_goals: (self.chal_goals + r.goals_for) as u32,
            opp_goals: (self.opp_goals + r.goals_against) as u32,
            wins: if r.goals_for > r.goals_against {
                (self.wins + 1) as u32
            } else {
                self.wins
            },
            draws: if r.goals_for == r.goals_against {
                (self.draws + 1) as u32
            } else {
                self.draws
            },
            losses: if r.goals_for < r.goals_against {
                (self.losses + 1) as u32
            } else {
                self.losses
            },
            chal_shots: (self.chal_shots + r.shots) as u32,
            chal_on_target: (self.chal_on_target + r.shots_on_target) as u32,
            matches: (self.matches + 1) as u32,
        }
    }

    /// Folds in one match.
    pub fn add(&mut self, r: ChallengerResult)
        requires
            old(self).can_add(r),
            old(self).wf(),
        ensures
            final(self).wf(),
            *final(self) == old(self).add_spec(r),
            final(self).wins == old(self).wins + (if r.goals_for > r.goals_against {
                1int
            } else {
                0int
            }),
            final(self).draws == old(self).draws + (if r.goals_for == r.goals_against {
                1int
            } else {
                0int
            }),
            final(self).losses == old(self).losses + (if r.goals_for < r.goals_against {
                1int
            } else {
                0int
            }),
    {
        self.chal_goals = self.chal_goals + r.goals_for;
        self.opp_goals = self.opp_goals + r.goals_against;
        self.chal_shots = self.chal_shots + r.shots;
        self.chal_on_target = self.chal_on_target + r.shots_on_target;
        self.matches = self.matches + 1;
        if r.goals_for > r.goals_against {
            self.wins = self.wins + 1;
        } else if r.goals_for == r.goals_against {
            self.draws = self.draws + 1;
        } else {
            self.losses = self.losses + 1;
        }
    }
}

/// Every match counts exactly once as a win, a draw or a loss: folding a
/// match into totals whose results add up to the match count keeps them
/// adding up.
pub proof fn results_account_for_every_match(t: BenchTally, r: ChallengerResult)
    requires
        t.can_add(r),
        t.wf(),
    ensures
        t.add_spec(r).wf(),
        t.add_spec(r).chal_goals - t.add_spec(r).opp_goals == (t.chal_goals - t.opp_goals) + (
        r.goals_for - r.goals_against),
{
}

/// A match the challenger won (more goals for than against) adds one win,
/// a level match one draw and a lost match one loss, and nothing else among
/// the three; every match adds one to the match count and its goals and
/// shots to the sums.
pub proof fn result_booked_by_goals(t: BenchTally, r: ChallengerResult)
    requires
        t.can_add(r),
        t.wf(),
    ensures
        ({
            let n = t.add_spec(r);
            &&& n.wins == t.wins + (if r.goals_for > r.goals_against {
                1int
            } else {
                0int
            })
            &&& n.draws == t.draws + (if r.goals_for == r.goals_against {
                1int
            } else {
                0int
            })
            &&& n.losses == t.losses + (if r.goals_for < r.goals_against {
                1int
            } else {
                0int
            })
            &&& n.matches == t.matches + 1
            &&& n.chal_goals == t.chal_goals + r.goals_for
            &&& n.opp_goals == t.opp_goals + r.goals_against
            &&& n.chal_shots == t.chal_shots + r.shots
            &&& n.chal_on_target == t.chal_on_target + r.shots_on_target
        }),
{
}

/// The totals after folding in `results` one by one.
pub open spec fn add_all(t: BenchTally, results: Seq<ChallengerResult>) -> BenchTally
    decreases results.len(),
{
    if results.len() == 0 {
        t
    } else {
        add_all(t, results.drop_last()).add_spec(results.last())
    }
}

/// How many of `results` the challenger won.
pub open spec fn won_count(results: Seq<ChallengerResult>) -> nat
    decreases results.len(),
{
    if results.len() == 0 {
        0
    } else {
        won_count(results.drop_last()) + if results.last().goals_for > results.last().goals_against {
            1nat
        } else {
            0nat
        }
    }
}

/// How many of `results` ended level.
pub open spec fn drawn_count(results: Seq<ChallengerResult>) -> nat
    decreases results.len(),
{
    if results.len() == 0 {
        0
    } else {
        drawn_count(results.drop_last()) + if results.last().goals_for
            == results.last().goals_against {
            1nat
        } else {
            0nat
        }
    }
}

/// How many of `results` the challenger lost.
pub open spec fn lost_count(results: Seq<ChallengerResult>) -> nat
    decreases results.len(),
{
    if results.len() == 0 {
        0
    } else {
        lost_count(results.drop_last()) + if results.last().goals_for < results.last().goals_against {
            1nat
        } else {
            0nat
        }
    }
}

proof fn lemma_results_partition(results: Seq<ChallengerResult>)
    ensures
        won_count(results) + drawn_count(results) + lost_count(results) == results.len(),
    decreases results.len(),
{
    if results.len() > 0 {
        lemma_results_partition(results.drop_last());
    }
}

/// Starting from no match, the wins are the matches in which the
/// challenger scored more than its opponent, the draws those with equal
/// goals, the losses those in which it scored fewer, and the match count
/// is the number of matches folded in.
pub proof fn results_count_wins_draws_losses(results: Seq<ChallengerResult>)
    requires
        results.len() <= u32::MAX,
    ensures
        ({
            let t = add_all(
                BenchTally {
                    chal_goals: 0,
                    opp_goals: 0,
                    wins: 0,
                    draws: 0,
                    losses: 0,
                    chal_shots: 0,
                    chal_on_target: 0,
                    matches: 0,
                },
                results,
            );
            &&& t.wins == won_count(results)
            &&& t.draws == drawn_count(results)
            &&& t.losses == lost_count(results)
            &&& t.matches == results.len()
        }),
    decreases results.len(),
{
    if results.len() > 0 {
        results_count_wins_draws_losses(results.drop_last());
        lemma_results_partition(results.drop_last());
    }
}

/// The seeds of the two matches of bench round `s`: the challenger plays
/// blue with seed `1000 + s` and yellow with seed `2000 + s`.
pub fn round_seeds(s: u64) -> (res: (u64, u64))
    requires
        s + 2000 <= u64::MAX,
    ensures
        res == ((1000 + s) as u64, (2000 + s) as u64),
{
    (1000 + s, 2000 + s)
}

/// Goal difference for the challenger.
pub fn net_goals(t: &BenchTally) -> (res: i64)
    ensures
        res == t.chal_goals - t.opp_goals,
{
    t.chal_goals as i64 - t.opp_goals as i64
}

/// A number with its sign always shown (`+3`, `+0`, `-2`).
pub open spec fn signed_text(n: int) -> Seq<char> {
    if n >= 0 {
        seq!['+'] + decimal_digits(n as nat)
    } else {
        seq!['-'] + decimal_digits((-n) as nat)
    }
}

/// See [`signed_text`].
pub fn signed_decimal(n: i64) -> (res: String)
    ensures
        res@ == signed_text(n as int),
{
    let mut out = String::new();
    if n >= 0 {
        push_char(&mut out, '+');
        push_decimal(&mut out, n as u64);
    } else {
        push_char(&mut out, '-');
        let magnitude: u64 = if n == i64::MIN {
            9223372036854775808u64
        } else {
            (-n) as u64
        };
        push_decimal(&mut out, magnitude);
    }
    out
}

/// The timestamp written to the iterations log: `t=<seconds since the
/// epoch>`.
pub fn now_string(secs: u64) -> (res: String)
    ensures
        res@ == "t="@ + decimal_digits(secs as nat),
{
    let mut out = String::new();
    push_str(&mut out, "t=");
    push_decimal(&mut out, secs);
    out
}

} // verus!
