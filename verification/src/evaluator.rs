//! Match evaluation counters: goals, possession and attacking ticks, shots;
//! who won, and the notes printed for each team.
use vstd::prelude::*;
use crate::team::TeamColor;
use crate::director::MatchDirector;
use crate::text::{push_str, push_decimal, decimal_digits, views};

verus! {

/// The integer counters of one team's match metrics.
#[derive(Debug, Clone, Copy, PartialEq, Eq, Structural)]
pub struct TeamTally {
    pub goals_for: u32,
    pub goals_against: u32,
    /// Ticks this team had the ball.
    pub possession_ticks: u64,
    /// Ticks the ball was in the opponent's half.
    pub attacking_ticks: u64,
    pub shots: u32,
    pub shots_on_target: u32,
}

impl TeamTally {
    /// All counters at zero.
    pub fn new() -> (res: TeamTally)
        ensures
            res == (TeamTally {
                goals_for: 0,
                goals_against: 0,
                possession_ticks: 0,
                attacking_ticks: 0,
                shots: 0,
                shots_on_target: 0,
            }),
    {
        TeamTally {
            goals_for: 0,
            goals_against: 0,
            possession_ticks: 0,
            attacking_ticks: 0,
            shots: 0,
            shots_on_target: 0,
        }
    }
}

/// Both teams' counters and the number of evaluated ticks.
#[derive(Debug, Clone, Copy, PartialEq, Eq, Structural)]
pub struct MatchTally {
    pub blue: TeamTally,
    pub yellow: TeamTally,
    pub total_ticks: u64,
}

/// Where the ball is along the field's length: blue attacks `+x`, yellow
/// attacks `-x`.
#[derive(Debug, Clone, Copy, PartialEq, Eq, Structural)]
pub enum BallHalf {
    /// `x > 0`, the half blue attacks.
    BlueAttacking,
    /// `x < 0`, the half yellow attacks.
    YellowAttacking,
    /// `x == 0`.
    Midline,
}

/// Which team's composite score is higher, for a match level on goals.
#[derive(Debug, Clone, Copy, PartialEq, Eq, Structural)]
pub enum PointsLead {
    Blue,
    Yellow,
    Level,
}

/// The team that has the ball this tick. A team whose robot holds the ball
/// (infrared at the kicker) has it when the other team holds nothing; when
/// both hold the ball it is contested (`None`); when neither holds it, the
/// team with the robot nearest to the ball has it, yellow on a tie.
pub open spec fn possessor_spec(blue_holds: bool, yellow_holds: bool, blue_nearer: bool) -> Option<
    TeamColor,
> {
    if blue_holds && !yellow_holds {
        Some(TeamColor::Blue)
    } else if yellow_holds && !blue_holds {
        Some(TeamColor::Yellow)
    } else if blue_holds && yellow_holds {
        None
    } else if blue_nearer {
        Some(TeamColor::Blue)
    } else {
        Some(TeamColor::Yellow)
    }
}

/// See [`possessor_spec`]; `blue_nearer` says whether blue's nearest robot is
/// strictly closer to the ball than yellow's.
pub fn possessor(blue_holds: bool, yellow_holds: bool, blue_nearer: bool) -> (res: Option<TeamColor>)
    ensures
        res == possessor_spec(blue_holds, yellow_holds, blue_nearer),
{
    if blue_holds && !yellow_holds {
        Some(TeamColor::Blue)
    } else if yellow_holds && !blue_holds {
        Some(TeamColor::Yellow)
    } else if blue_holds && yellow_holds {
        None
    } else if blue_nearer {
        Some(TeamColor::Blue)
    } else {
        Some(TeamColor::Yellow)
    }
}

impl MatchTally {
    /// Nothing counted yet.
    pub fn new() -> (res: MatchTally)
        ensures
            res == MatchTally::new_tally_spec(),
            res.blue == TeamTally::new_spec(),
            res.yellow == TeamTally::new_spec(),
            res.total_ticks == 0,
    {
        MatchTally { blue: TeamTally::new(), yellow: TeamTally::new(), total_ticks: 0 }
    }

    /// The counters after a goal by `scorer`.
    pub open spec fn record_goal_spec(self, scorer: TeamColor) -> MatchTally {
        match scorer {
            TeamColor::Blue => MatchTally {
                blue: TeamTally { goals_for: (self.blue.goals_for + 1) as u32, ..self.blue },
                yellow: TeamTally { goals_against: (self.yellow.goals_against + 1) as u32, ..self.yellow },
                ..self
            },
            TeamColor::Yellow => MatchTally {
                yellow: TeamTally { goals_for: (self.yellow.goals_for + 1) as u32, ..self.yellow },
                blue: TeamTally { goals_against: (self.blue.goals_against + 1) as u32, ..self.blue },
                ..self
            },
        }
    }

    /// Whether a goal by `scorer` can be counted without overflow.
    pub open spec fn can_record_goal(self, scorer: TeamColor) -> bool {
        match scorer {
            TeamColor::Blue => self.blue.goals_for < u32::MAX && self.yellow.goals_against < u32::MAX,
            TeamColor::Yellow => self.yellow.goals_for < u32::MAX && self.blue.goals_against
                < u32::MAX,
        }
    }

    /// Counts a goal for `scorer` and against its opponent.
    pub fn record_goal(&mut self, scorer: TeamColor)
        requires
            old(self).can_record_goal(scorer),
        ensures
            *final(self) == old(self).record_goal_spec(scorer),
    {
        match scorer {
            TeamColor::Blue => {
                self.blue.goals_for = self.blue.goals_for + 1;
                self.yellow.goals_against = self.yellow.goals_against + 1;
            },
            TeamColor::Yellow => {
                self.yellow.goals_for = self.yellow.goals_for + 1;
                self.blue.goals_against = self.blue.goals_against + 1;
            },
        }
    }

    /// Whether a tick can be counted without overflow.
    pub open spec fn can_tick(self) -> bool {
        &&& self.total_ticks < u64::MAX
        &&& self.blue.possession_ticks < u64::MAX
        &&& self.yellow.possession_ticks < u64::MAX
        &&& self.blue.attacking_ticks < u64::MAX
        &&& self.yellow.attacking_ticks < u64::MAX
    }

    /// The counters after one tick with the given possessor and ball half.
    pub open spec fn tick_spec(self, holder: Option<TeamColor>, half: BallHalf) -> MatchTally {
        let blue_possession = if holder == Some(TeamColor::Blue) {
            self.blue.possession_ticks + 1
        } else {
            self.blue.possession_ticks as int
        };
        let yellow_possession = if holder == Some(TeamColor::Yellow) {
            self.yellow.possession_ticks + 1
        } else {
            self.yellow.possession_ticks as int
        };
        let blue_attacking = if half == BallHalf::BlueAttacking {
            self.blue.attacking_ticks + 1
        } else {
            self.blue.attacking_ticks as int
        };
        let yellow_attacking = if half == BallHalf::YellowAttacking {
            self.yellow.attacking_ticks + 1
        } else {
            self.yellow.attacking_ticks as int
        };
        MatchTally {
            blue: TeamTally {
                possession_ticks: blue_possession as u64,
                attacking_ticks: blue_attacking as u64,
                ..self.blue
            },
            yellow: TeamTally {
                possession_ticks: yellow_possession as u64,
                attacking_ticks: yellow_attacking as u64,
                ..self.yellow
            },
            total_ticks: (self.total_ticks + 1) as u64,
        }
    }

    /// Counts one evaluated tick: its possessor (if any) gets a possession
    /// tick and the team whose attacking half holds the ball an attacking
    /// tick.
    pub fn tick(&mut self, holder: Option<TeamColor>, half: BallHalf)
        requires
            old(self).can_tick(),
        ensures
            *final(self) == old(self).tick_spec(holder, half),
            final(self).blue.attacking_ticks == old(self).blue.attacking_ticks + (if half
                == BallHalf::BlueAttacking {
                1int
            } else {
                0int
            }),
            final(self).yellow.attacking_ticks == old(self).yellow.attacking_ticks + (if half
                == BallHalf::YellowAttacking {
                1int
            } else {
                0int
            }),
            final(self).blue.possession_ticks == old(self).blue.possession_ticks + (if holder == Some(
                TeamColor::Blue,
            ) {
                1int
            } else {
                0int
            }),
            final(self).yellow.possession_ticks == old(self).yellow.possession_ticks + (if holder
                == Some(TeamColor::Yellow) {
                1int
            } else {
                0int
            }),
            final(self).total_ticks == old(self).total_ticks + 1,
    {
        self.total_ticks = self.total_ticks + 1;
        match holder {
            Some(TeamColor::Blue) => {
                self.blue.possession_ticks = self.blue.possession_ticks + 1;
            },
            Some(TeamColor::Yellow) => {
                self.yellow.possession_ticks = self.yellow.possession_ticks + 1;
            },
            None => {},
        }
        match half {
            BallHalf::BlueAttacking => {
                self.blue.attacking_ticks = self.blue.attacking_ticks + 1;
            },
            BallHalf::YellowAttacking => {
                self.yellow.attacking_ticks = self.yellow.attacking_ticks + 1;
            },
            BallHalf::Midline => {},
        }
    }

    /// The counters after a shot by `shooter`.
    pub open spec fn record_shot_spec(self, shooter: TeamColor, on_target: bool) -> MatchTally {
        let bump = |t: TeamTally|
            TeamTally {
                shots: (t.shots + 1) as u32,
                shots_on_target: if on_target {
                    (t.shots_on_target + 1) as u32
                } else {
                    t.shots_on_target
                },
                ..t
            };
        match shooter {
            TeamColor::Blue => MatchTally { blue: bump(self.blue), ..self },
            TeamColor::Yellow => MatchTally { yellow: bump(self.yellow), ..self },
        }
    }

    /// Counts a detected shot by `shooter`, and whether it was on target.
    pub fn record_shot(&mut self, shooter: TeamColor, on_target: bool)
        requires
            match shooter {
                TeamColor::Blue => old(self).blue.shots < u32::MAX && old(self).blue.shots_on_target
                    < u32::MAX,
                TeamColor::Yellow => old(self).yellow.shots < u32::MAX
                    && old(self).yellow.shots_on_target < u32::MAX,
            },
        ensures
            *final(self) == old(self).record_shot_spec(shooter, on_target),
            final(self).total_ticks == old(self).total_ticks,
            shooter == TeamColor::Blue ==> final(self).yellow == old(self).yellow && final(self).blue
                == (TeamTally {
                shots: (old(self).blue.shots + 1) as u32,
                shots_on_target: if on_target {
                    (old(self).blue.shots_on_target + 1) as u32
                } else {
                    old(self).blue.shots_on_target
                },
                ..old(self).blue
            }),
            shooter == TeamColor::Yellow ==> final(self).blue == old(self).blue && final(self).yellow
                == (TeamTally {
                shots: (old(self).yellow.shots + 1) as u32,
                shots_on_target: if on_target {
                    (old(self).yellow.shots_on_target + 1) as u32
                } else {
                    old(self).yellow.shots_on_target
                },
                ..old(self).yellow
            }),
    {
        match shooter {
            TeamColor::Blue => {
                self.blue.shots = self.blue.shots + 1;
                if on_target {
                    self.blue.shots_on_target = self.blue.shots_on_target + 1;
                }
            },
            TeamColor::Yellow => {
                self.yellow.shots = self.yellow.shots + 1;
                if on_target {
                    self.yellow.shots_on_target = self.yellow.shots_on_target + 1;
                }
            },
        }
    }
}

impl TeamTally {
    /// All counters at zero.
    pub open spec fn new_spec() -> TeamTally {
        TeamTally {
            goals_for: 0,
            goals_against: 0,
            possession_ticks: 0,
            attacking_ticks: 0,
            shots: 0,
            shots_on_target: 0,
        }
    }
}

/// The match result: the team with more goals, else the team ahead on
/// points (`"<name> (on points)"`), else `"draw"`.
pub open spec fn winner_spec(
    blue_name: Seq<char>,
    yellow_name: Seq<char>,
    blue_goals: u32,
    yellow_goals: u32,
    points: PointsLead,
) -> Seq<char> {
    if blue_goals > yellow_goals {
        blue_name
    } else if yellow_goals > blue_goals {
        yellow_name
    } else if points == PointsLead::Blue {
        blue_name + " (on points)"@
    } else if points == PointsLead::Yellow {
        yellow_name + " (on points)"@
    } else {
        "draw"@
    }
}

/// See [`winner_spec`].
pub fn winner_label(
    blue_name: &str,
    yellow_name: &str,
    blue_goals: u32,
    yellow_goals: u32,
    points: PointsLead,
) -> (res: String)
    ensures
        res@ == winner_spec(blue_name@, yellow_name@, blue_goals, yellow_goals, points),
{
    let mut out = String::new();
    if blue_goals > yellow_goals {
        push_str(&mut out, blue_name);
    } else if yellow_goals > blue_goals {
        push_str(&mut out, yellow_name);
    } else if points == PointsLead::Blue {
        push_str(&mut out, blue_name);
        push_str(&mut out, " (on points)");
    } else if points == PointsLead::Yellow {
        push_str(&mut out, yellow_name);
        push_str(&mut out, " (on points)");
    } else {
        push_str(&mut out, "draw");
    }
    out
}

/// How a team's share of possession compares with the 45–55 % band: a
/// share strictly above 55 % dominated, one strictly below 45 % lost.
#[derive(Debug, Clone, Copy, PartialEq, Eq, Structural)]
pub enum PossessionTrend {
    Dominated,
    Lost,
    Even,
}

/// The trend of `possession_ticks` out of `total` ticks (`total` counts at
/// least one tick).
pub open spec fn possession_trend_spec(possession_ticks: u64, total: u64) -> PossessionTrend {
    let t = if total == 0 {
        1
    } else {
        total as int
    };
    if 100 * possession_ticks > 55 * t {
        PossessionTrend::Dominated
    } else if 100 * possession_ticks < 45 * t {
        PossessionTrend::Lost
    } else {
        PossessionTrend::Even
    }
}

/// See [`possession_trend_spec`].
pub fn possession_trend(possession_ticks: u64, total: u64) -> (res: PossessionTrend)
    ensures
        res == possession_trend_spec(possession_ticks, total),
{
    let t: u128 = if total == 0 {
        1
    } else {
        total as u128
    };
    let p: u128 = possession_ticks as u128;
    if 100 * p > 55 * t {
        PossessionTrend::Dominated
    } else if 100 * p < 45 * t {
        PossessionTrend::Lost
    } else {
        PossessionTrend::Even
    }
}

/// The notes printed for a team, in order: outscoring, the possession
/// trend (with the rounded percentage text `pct`), shot creation, and
/// wasteful finishing (conceding while more than six shots on target went
/// in for each goal scored, at least one).
pub open spec fn team_notes_spec(t: TeamTally, trend: PossessionTrend, pct: Seq<char>) -> Seq<Seq<char>> {
    let outscored = if t.goals_for > t.goals_against {
        seq!["outscored opponent"@]
    } else {
        Seq::empty()
    };
    let possession = match trend {
        PossessionTrend::Dominated => seq!["dominated possession ("@ + pct + "%)"@],
        PossessionTrend::Lost => seq!["lost the possession battle ("@ + pct + "%)"@],
        PossessionTrend::Even => Seq::empty(),
    };
    let shots = if t.shots_on_target == 0 {
        seq!["created no shots on target"@]
    } else if t.shots > 0 {
        seq![decimal_digits(t.shots as nat) + " shots, "@ + decimal_digits(t.shots_on_target as nat)
            + " on target"@]
    } else {
        Seq::empty()
    };
    let scored = if t.goals_for == 0 {
        1
    } else {
        t.goals_for as int
    };
    let wasteful = if t.goals_against > 0 && t.shots_on_target > 6 * scored {
        seq!["wasteful finishing"@]
    } else {
        Seq::empty()
    };
    outscored + possession + shots + wasteful
}

fn push_note(notes: &mut Vec<String>, note: String)
    ensures
        views(final(notes)@) == views(old(notes)@).push(note@),
{
    notes.push(note);
    proof {
        assert(views(final(notes)@) =~= views(old(notes)@).push(note@));
    }
}

fn text_of(s: &str) -> (res: String)
    ensures
        res@ == s@,
{
    let mut out = String::new();
    push_str(&mut out, s);
    out
}

/// See [`team_notes_spec`].
pub fn team_notes(t: &TeamTally, trend: PossessionTrend, pct: &str) -> (res: Vec<String>)
    ensures
        views(res@) == team_notes_spec(*t, trend, pct@),
{
    let mut notes: Vec<String> = Vec::new();
    let ghost parts: Seq<Seq<char>> = Seq::empty();
    proof {
        assert(views(notes@) =~= parts);
    }
    if t.goals_for > t.goals_against {
        push_note(&mut notes, text_of("outscored opponent"));
    }
    match trend {
        PossessionTrend::Dominated => {
            let mut n = String::new();
            push_str(&mut n, "dominated possession (");
            push_str(&mut n, pct);
            push_str(&mut n, "%)");
            push_note(&mut notes, n);
        },
        PossessionTrend::Lost => {
            let mut n = String::new();
            push_str(&mut n, "lost the possession battle (");
            push_str(&mut n, pct);
            push_str(&mut n, "%)");
            push_note(&mut notes, n);
        },
        PossessionTrend::Even => {},
    }
    if t.shots_on_target == 0 {
        push_note(&mut notes, text_of("created no shots on target"));
    } else if t.shots > 0 {
        let mut n = String::new();
        push_decimal(&mut n, t.shots as u64);
        push_str(&mut n, " shots, ");
        push_decimal(&mut n, t.shots_on_target as u64);
        push_str(&mut n, " on target");
        push_note(&mut notes, n);
    }
    let scored: u64 = if t.goals_for == 0 {
        1
    } else {
        t.goals_for as u64
    };
    if t.goals_against > 0 && (t.shots_on_target as u64) > 6 * scored {
        push_note(&mut notes, text_of("wasteful finishing"));
    }
    proof {
        assert(views(notes@) =~= team_notes_spec(*t, trend, pct@));
    }
    notes
}

/// One call on a match tally.
#[derive(Debug, Clone, Copy, PartialEq, Eq, Structural)]
pub enum TallyEvent {
    /// [`MatchTally::record_goal`] for the scorer.
    Goal(TeamColor),
    /// [`MatchTally::tick`] with the possessor and the ball's half.
    Tick(Option<TeamColor>, BallHalf),
    /// [`MatchTally::record_shot`] for the shooter, on target or not.
    Shot(TeamColor, bool),
}

impl MatchTally {
    /// The counters after one call.
    pub open spec fn apply_spec(self, e: TallyEvent) -> MatchTally {
        match e {
            TallyEvent::Goal(scorer) => self.record_goal_spec(scorer),
            TallyEvent::Tick(holder, half) => self.tick_spec(holder, half),
            TallyEvent::Shot(shooter, on_target) => self.record_shot_spec(shooter, on_target),
        }
    }

    /// The counters after a sequence of calls, in order.
    pub open spec fn apply_all(self, events: Seq<TallyEvent>) -> MatchTally
        decreases events.len(),
    {
        if events.len() == 0 {
            self
        } else {
            self.apply_all(events.drop_last()).apply_spec(events.last())
        }
    }

    /// Each team's goals for are the other team's goals against.
    pub open spec fn goals_mirrored(self) -> bool {
        self.blue.goals_for == self.yellow.goals_against && self.yellow.goals_for
            == self.blue.goals_against
    }

    /// A fresh tally.
    pub open spec fn new_tally_spec() -> MatchTally {
        MatchTally { blue: TeamTally::new_spec(), yellow: TeamTally::new_spec(), total_ticks: 0 }
    }
}

proof fn lemma_apply_all_mirrored(t: MatchTally, events: Seq<TallyEvent>)
    requires
        t.goals_mirrored(),
    ensures
        t.apply_all(events).goals_mirrored(),
    decreases events.len(),
{
    if events.len() > 0 {
        lemma_apply_all_mirrored(t, events.drop_last());
    }
}

/// Whatever goals, ticks and shots a match records, in any order, every
/// goal counts for one team and against the other: blue's goals for equal
/// yellow's goals against and the other way round.
pub proof fn goals_stay_mirrored(events: Seq<TallyEvent>)
    ensures
        MatchTally::new_tally_spec().apply_all(events).goals_mirrored(),
{
    lemma_apply_all_mirrored(MatchTally::new_tally_spec(), events);
}

/// One tick gives the possessor, if any, one possession tick and the other
/// team none; it gives the team whose attacking half holds the ball one
/// attacking tick and the other team none (none to either on the midline);
/// it counts one more evaluated tick and leaves goals and shots alone.
pub proof fn tick_counts_holder_and_half(t: MatchTally, holder: Option<TeamColor>, half: BallHalf)
    requires
        t.can_tick(),
    ensures
        ({
            let n = t.tick_spec(holder, half);
            &&& n.total_ticks == t.total_ticks + 1
            &&& n.blue.possession_ticks == t.blue.possession_ticks + (if holder == Some(
                TeamColor::Blue,
            ) {
                1int
            } else {
                0int
            })
            &&& n.yellow.possession_ticks == t.yellow.possession_ticks + (if holder == Some(
                TeamColor::Yellow,
            ) {
                1int
            } else {
                0int
            })
            &&& n.blue.attacking_ticks == t.blue.attacking_ticks + (if half
                == BallHalf::BlueAttacking {
                1int
            } else {
                0int
            })
            &&& n.yellow.attacking_ticks == t.yellow.attacking_ticks + (if half
                == BallHalf::YellowAttacking {
                1int
            } else {
                0int
            })
            &&& n.blue.goals_for == t.blue.goals_for && n.blue.goals_against == t.blue.goals_against
            &&& n.yellow.goals_for == t.yellow.goals_for && n.yellow.goals_against
                == t.yellow.goals_against
            &&& n.blue.shots == t.blue.shots && n.blue.shots_on_target == t.blue.shots_on_target
            &&& n.yellow.shots == t.yellow.shots && n.yellow.shots_on_target
                == t.yellow.shots_on_target
        }),
{
}

/// How many of `events` are ticks with the ball in `half`.
pub open spec fn ticks_in_half(events: Seq<TallyEvent>, half: BallHalf) -> nat
    decreases events.len(),
{
    if events.len() == 0 {
        0
    } else {
        ticks_in_half(events.drop_last(), half) + match events.last() {
            TallyEvent::Tick(_, h) => if h == half {
                1nat
            } else {
                0nat
            },
            _ => 0nat,
        }
    }
}

/// How many of `events` are ticks in which `team` had the ball.
pub open spec fn ticks_held_by(events: Seq<TallyEvent>, team: TeamColor) -> nat
    decreases events.len(),
{
    if events.len() == 0 {
        0
    } else {
        ticks_held_by(events.drop_last(), team) + match events.last() {
            TallyEvent::Tick(h, _) => if h == Some(team) {
                1nat
            } else {
                0nat
            },
            _ => 0nat,
        }
    }
}

/// How many of `events` are ticks.
pub open spec fn tick_count(events: Seq<TallyEvent>) -> nat
    decreases events.len(),
{
    if events.len() == 0 {
        0
    } else {
        tick_count(events.drop_last()) + match events.last() {
            TallyEvent::Tick(_, _) => 1nat,
            _ => 0nat,
        }
    }
}

proof fn lemma_counts_bounded(events: Seq<TallyEvent>)
    ensures
        ticks_in_half(events, BallHalf::BlueAttacking) <= events.len(),
        ticks_in_half(events, BallHalf::YellowAttacking) <= events.len(),
        ticks_held_by(events, TeamColor::Blue) <= events.len(),
        ticks_held_by(events, TeamColor::Yellow) <= events.len(),
        tick_count(events) <= events.len(),
    decreases events.len(),
{
    if events.len() > 0 {
        lemma_counts_bounded(events.drop_last());
    }
}

/// Whatever goals, ticks and shots a match records, in any order, each
/// team's attacking ticks are the ticks recorded with the ball in the half it
/// attacks, its possession ticks are the ticks in which it had the ball, and
/// the evaluated ticks are all the ticks recorded.
pub proof fn tick_counters_count_ticks(events: Seq<TallyEvent>)
    requires
        events.len() < u64::MAX,
    ensures
        ({
            let t = MatchTally::new_tally_spec().apply_all(events);
            &&& t.blue.attacking_ticks == ticks_in_half(events, BallHalf::BlueAttacking)
            &&& t.yellow.attacking_ticks == ticks_in_half(events, BallHalf::YellowAttacking)
            &&& t.blue.possession_ticks == ticks_held_by(events, TeamColor::Blue)
            &&& t.yellow.possession_ticks == ticks_held_by(events, TeamColor::Yellow)
            &&& t.total_ticks == tick_count(events)
        }),
    decreases events.len(),
{
    if events.len() > 0 {
        tick_counters_count_ticks(events.drop_last());
        lemma_counts_bounded(events.drop_last());
    }
}

/// After every runner tick (a director update, then taking its goal and
/// counting it in the tally), the tally's goals agree with the director's
/// score: goals for a team equal its score and goals against equal the
/// opponent's.
pub proof fn tally_follows_score(d: MatchDirector, t: MatchTally, o: crate::director::TickObservation)
    requires
        d.wf(),
        d.last_goal is None,
        t.blue.goals_for == d.score.blue,
        t.yellow.goals_for == d.score.yellow,
        t.blue.goals_against == d.score.yellow,
        t.yellow.goals_against == d.score.blue,
        o.goal_blue ==> d.score.blue < u32::MAX,
        !o.goal_blue && o.goal_yellow ==> d.score.yellow < u32::MAX,
    ensures
        ({
            let d2 = d.step_spec(o).0;
            let t2 = match d2.last_goal {
                Some(scorer) => t.record_goal_spec(scorer),
                None => t,
            };
            &&& d2.last_goal is Some ==> t.can_record_goal(d2.last_goal->0)
            &&& t2.blue.goals_for == d2.score.blue
            &&& t2.yellow.goals_for == d2.score.yellow
            &&& t2.blue.goals_against == d2.score.yellow
            &&& t2.yellow.goals_against == d2.score.blue
        }),
{
}

} // verus!
