//! The match director's referee logic: score, goal debounce, kickoffs and
//! stuck-ball recovery. Everything measured in metres or seconds (whether the
//! preparation time is over, whether the ball is stuck or has drifted from its
//! idle anchor) is observed by the caller and handed in as a flag each tick.
use vstd::prelude::*;
use crate::controller::GameCommand;
use crate::team::TeamColor;
use crate::text::{push_char, push_decimal, push_str, decimal_digits};

verus! {

/// Frames of an unreachable slow ball after which it is recovered.
pub const STUCK_FRAME_LIMIT: u64 = 90;

/// Frames of a ball parked near its idle anchor after which it is recovered.
pub const IDLE_FRAME_LIMIT: u64 = 250;

/// Phase of play.
#[derive(Debug, Clone, Copy, PartialEq, Eq, Structural)]
pub enum Phase {
    /// Positioning before a kickoff by `kick`.
    Prepare { kick: TeamColor },
    Running,
}

/// Goals scored by each team.
#[derive(Debug, Clone, Copy, PartialEq, Eq, Structural)]
pub struct Score {
    pub blue: u32,
    pub yellow: u32,
}

impl Score {
    /// Nil-nil.
    pub fn new() -> (res: Score)
        ensures
            res.blue == 0,
            res.yellow == 0,
    {
        Score { blue: 0, yellow: 0 }
    }
}

/// What the caller measured this tick.
#[derive(Debug, Clone, Copy, PartialEq, Eq, Structural)]
pub struct TickObservation {
    /// The kickoff preparation time has run out (`sim_time >= until`).
    pub prepare_elapsed: bool,
    /// The ball is in the goal that blue attacks.
    pub goal_blue: bool,
    /// The ball is in the goal that yellow attacks.
    pub goal_yellow: bool,
    /// The ball is slow and no robot can reach it.
    pub ball_stuck: bool,
    /// The ball is within the idle radius of its anchor.
    pub ball_near_anchor: bool,
}

/// How the caller must move the idle anchor after a tick.
#[derive(Debug, Clone, Copy, PartialEq, Eq, Structural)]
pub enum AnchorUpdate {
    Keep,
    /// Move the anchor to the ball's current position.
    ToBall,
    /// Move the anchor to the field centre.
    ToOrigin,
}

/// What the caller must do after a tick.
#[derive(Debug, Clone, Copy, PartialEq, Eq, Structural)]
pub struct DirectorActions {
    /// Reset for a kickoff by this team: ball to the centre, both formations,
    /// and a fresh preparation timer.
    pub kickoff: Option<TeamColor>,
    /// A goal was detected this tick for this team.
    pub goal: Option<TeamColor>,
    /// Teleport the ball back to the centre (stuck or idle ball).
    pub ball_recovery: bool,
    pub anchor: AnchorUpdate,
}

/// What happened on the director's last tick, for the match log.
#[derive(Debug, Clone, Copy, PartialEq, Eq, Structural)]
pub enum DirectorEvent {
    /// A goal by `scorer`; the score after it.
    Goal { scorer: TeamColor, blue: u32, yellow: u32 },
    /// The stuck or idle ball was put back to the centre.
    BallRecovery,
}

/// The director's discrete state.
#[derive(Debug, Clone, Copy, PartialEq, Eq, Structural)]
pub struct MatchDirector {
    pub phase: Phase,
    pub score: Score,
    /// Rising-edge debounce for goal detection.
    pub goal_latched: bool,
    /// Frames the ball has been slow and unreachable.
    pub stuck_frames: u64,
    /// Frames the ball has stayed near its idle anchor.
    pub idle_frames: u64,
    /// Scorer of a goal detected and not yet taken.
    pub last_goal: Option<TeamColor>,
    /// The event of the last tick, if any.
    pub last_event: Option<DirectorEvent>,
    pub robots_per_team: usize,
    pub blue_bots: usize,
    pub yellow_bots: usize,
}

impl MatchDirector {
    /// Counters within their limits and active robots within the roster.
    pub open spec fn wf(self) -> bool {
        &&& self.stuck_frames <= STUCK_FRAME_LIMIT
        &&& self.idle_frames <= IDLE_FRAME_LIMIT
        &&& self.blue_bots <= self.robots_per_team
        &&& self.yellow_bots <= self.robots_per_team
    }

    /// Active robots of a team.
    pub open spec fn bots_of(self, team: TeamColor) -> usize {
        match team {
            TeamColor::Blue => self.blue_bots,
            TeamColor::Yellow => self.yellow_bots,
        }
    }

    /// The team that kicks off when `preferred` should: `preferred` unless it
    /// has no robots and the other team has some.
    pub open spec fn kickoff_team_spec(self, preferred: TeamColor) -> TeamColor {
        if self.bots_of(preferred) > 0 {
            preferred
        } else if self.bots_of(preferred.opponent_spec()) > 0 {
            preferred.opponent_spec()
        } else {
            preferred
        }
    }

    /// State and actions after one tick with observation `o`.
    pub open spec fn step_spec(self, o: TickObservation) -> (MatchDirector, DirectorActions) {
        let phase1 = match self.phase {
            Phase::Prepare { .. } => if o.prepare_elapsed {
                Phase::Running
            } else {
                self.phase
            },
            Phase::Running => Phase::Running,
        };
        let goal = o.goal_blue || o.goal_yellow;
        if goal && !self.goal_latched {
            let scorer = if o.goal_blue {
                TeamColor::Blue
            } else {
                TeamColor::Yellow
            };
            let kick = self.kickoff_team_spec(scorer.opponent_spec());
            let score = if o.goal_blue {
                Score { blue: (self.score.blue + 1) as u32, yellow: self.score.yellow }
            } else {
                Score { blue: self.score.blue, yellow: (self.score.yellow + 1) as u32 }
            };
            (
                MatchDirector {
                    phase: Phase::Prepare { kick },
                    score,
                    goal_latched: true,
                    stuck_frames: 0,
                    idle_frames: 0,
                    last_goal: Some(scorer),
                    last_event: Some(
                        DirectorEvent::Goal { scorer, blue: score.blue, yellow: score.yellow },
                    ),
                    ..self
                },
                DirectorActions {
                    kickoff: Some(kick),
                    goal: Some(scorer),
                    ball_recovery: false,
                    anchor: AnchorUpdate::ToOrigin,
                },
            )
        } else {
            let latched = if goal {
                self.goal_latched
            } else {
                false
            };
            if phase1 == Phase::Running {
                let stuck = if o.ball_stuck {
                    self.stuck_frames + 1
                } else {
                    0
                };
                let idle = if o.ball_near_anchor {
                    self.idle_frames + 1
                } else {
                    0
                };
                if stuck > STUCK_FRAME_LIMIT || idle > IDLE_FRAME_LIMIT {
                    (
                        MatchDirector {
                            phase: phase1,
                            goal_latched: latched,
                            stuck_frames: 0,
                            idle_frames: 0,
                            last_event: Some(DirectorEvent::BallRecovery),
                            ..self
                        },
                        DirectorActions {
                            kickoff: None,
                            goal: None,
                            ball_recovery: true,
                            anchor: AnchorUpdate::ToOrigin,
                        },
                    )
                } else {
                    (
                        MatchDirector {
                            phase: phase1,
                            goal_latched: latched,
                            stuck_frames: stuck as u64,
                            idle_frames: idle as u64,
                            last_event: None,
                            ..self
                        },
                        DirectorActions {
                            kickoff: None,
                            goal: None,
                            ball_recovery: false,
                            anchor: if o.ball_near_anchor {
                                AnchorUpdate::Keep
                            } else {
                                AnchorUpdate::ToBall
                            },
                        },
                    )
                }
            } else {
                (
                    MatchDirector { phase: phase1, goal_latched: latched, last_event: None, ..self },
                    DirectorActions {
                        kickoff: None,
                        goal: None,
                        ball_recovery: false,
                        anchor: AnchorUpdate::Keep,
                    },
                )
            }
        }
    }

    /// A director for a roster of `robots_per_team`, all active, preparing a
    /// blue kickoff.
    pub fn new(robots_per_team: usize) -> (res: MatchDirector)
        ensures
            res.wf(),
            res.phase == (Phase::Prepare { kick: TeamColor::Blue }),
            res.score == (Score { blue: 0, yellow: 0 }),
            !res.goal_latched,
            res.stuck_frames == 0,
            res.idle_frames == 0,
            res.last_goal is None,
            res.last_event is None,
            res.robots_per_team == robots_per_team,
            res.blue_bots == robots_per_team,
            res.yellow_bots == robots_per_team,
    {
        MatchDirector {
            phase: Phase::Prepare { kick: TeamColor::Blue },
            score: Score::new(),
            goal_latched: false,
            stuck_frames: 0,
            idle_frames: 0,
            last_goal: None,
            last_event: None,
            robots_per_team,
            blue_bots: robots_per_team,
            yellow_bots: robots_per_team,
        }
    }

    /// Limits the active robots of each team, capped at the roster size.
    pub fn with_bot_counts(self, blue_bots: usize, yellow_bots: usize) -> (res: MatchDirector)
        requires
            self.wf(),
        ensures
            res.wf(),
            res == (MatchDirector {
                blue_bots: if blue_bots < self.robots_per_team {
                    blue_bots
                } else {
                    self.robots_per_team
                },
                yellow_bots: if yellow_bots < self.robots_per_team {
                    yellow_bots
                } else {
                    self.robots_per_team
                },
                ..self
            }),
    {
        let blue = if blue_bots < self.robots_per_team {
            blue_bots
        } else {
            self.robots_per_team
        };
        let yellow = if yellow_bots < self.robots_per_team {
            yellow_bots
        } else {
            self.robots_per_team
        };
        MatchDirector { blue_bots: blue, yellow_bots: yellow, ..self }
    }

    /// The game command for a team this tick.
    pub fn command_for(&self, color: TeamColor) -> (res: GameCommand)
        ensures
            res == (match self.phase {
                Phase::Running => GameCommand::Running,
                Phase::Prepare { kick } => if kick == color {
                    GameCommand::PrepareKickoffUs
                } else {
                    GameCommand::PrepareKickoffThem
                },
            }),
    {
        match self.phase {
            Phase::Running => GameCommand::Running,
            Phase::Prepare { kick } => {
                if kick == color {
                    GameCommand::PrepareKickoffUs
                } else {
                    GameCommand::PrepareKickoffThem
                }
            },
        }
    }

    /// Referee command code for the current phase: `FORCE_START` (3) while
    /// running, `PREPARE_KICKOFF_YELLOW` (4) or `PREPARE_KICKOFF_BLUE` (5).
    pub fn referee_command_code(&self) -> (res: i32)
        ensures
            res == (match self.phase {
                Phase::Running => 3i32,
                Phase::Prepare { kick: TeamColor::Yellow } => 4i32,
                Phase::Prepare { kick: TeamColor::Blue } => 5i32,
            }),
    {
        match self.phase {
            Phase::Running => 3,
            Phase::Prepare { kick } => match kick {
                TeamColor::Yellow => 4,
                TeamColor::Blue => 5,
            },
        }
    }

    /// Consumes the goal detected this tick, if any.
    pub fn take_goal(&mut self) -> (res: Option<TeamColor>)
        ensures
            res == old(self).last_goal,
            *final(self) == (MatchDirector { last_goal: None, ..*old(self) }),
    {
        let g = self.last_goal;
        self.last_goal = None;
        g
    }

    /// The team that kicks off when `preferred` should.
    pub fn active_kickoff_team(&self, preferred: TeamColor) -> (res: TeamColor)
        ensures
            res == self.kickoff_team_spec(preferred),
    {
        let preferred_bots = match preferred {
            TeamColor::Blue => self.blue_bots,
            TeamColor::Yellow => self.yellow_bots,
        };
        if preferred_bots > 0 {
            return preferred;
        }
        match preferred {
            TeamColor::Blue if self.yellow_bots > 0 => TeamColor::Yellow,
            TeamColor::Yellow if self.blue_bots > 0 => TeamColor::Blue,
            _ => preferred,
        }
    }

    /// Places everyone for the opening kickoff: preparation by blue (or by
    /// yellow when blue has no robots), counters cleared, goal latched. The
    /// command puts the ball at rest on the centre spot and places the robots
    /// as [`MatchDirector::kickoff_command`] lists them; the caller resets
    /// the preparation timer and the idle anchor.
    pub fn kickoff_reset(&mut self) -> (res: KickoffCommand)
        requires
            old(self).wf(),
        ensures
            final(self).wf(),
            res.kick == old(self).kickoff_team_spec(TeamColor::Blue),
            res.ball_to_centre,
            res.robots@ == kickoff_placements_spec(
                old(self).blue_bots,
                old(self).yellow_bots,
                old(self).robots_per_team,
            ),
            *final(self) == (MatchDirector {
                phase: Phase::Prepare { kick: res.kick },
                goal_latched: true,
                stuck_frames: 0,
                idle_frames: 0,
                ..*old(self)
            }),
    {
        let kick = self.active_kickoff_team(TeamColor::Blue);
        self.phase = Phase::Prepare { kick };
        self.goal_latched = true;
        self.stuck_frames = 0;
        self.idle_frames = 0;
        self.kickoff_command(kick)
    }

    /// The teleport command of a kickoff by `kick`: the ball at rest on the
    /// centre spot; blue's active robots, then yellow's, placed in formation
    /// and switched on; then blue's and yellow's remaining roster ids
    /// switched off. A goal's kickoff action (see [`MatchDirector::update`])
    /// stands for this command.
    pub fn kickoff_command(&self, kick: TeamColor) -> (res: KickoffCommand)
        requires
            self.wf(),
        ensures
            res.kick == kick,
            res.ball_to_centre,
            res.robots@ == kickoff_placements_spec(self.blue_bots, self.yellow_bots, self.robots_per_team),
    {
        let mut robots: Vec<RobotPlacement> = Vec::new();
        proof {
            assert(robots@ =~= Seq::<RobotPlacement>::empty());
        }
        push_placements(&mut robots, TeamColor::Blue, 0, self.blue_bots, true);
        push_placements(&mut robots, TeamColor::Yellow, 0, self.yellow_bots, true);
        push_placements(&mut robots, TeamColor::Blue, self.blue_bots, self.robots_per_team, false);
        push_placements(&mut robots, TeamColor::Yellow, self.yellow_bots, self.robots_per_team, false);
        proof {
            assert(robots@ =~= kickoff_placements_spec(self.blue_bots, self.yellow_bots, self.robots_per_team));
        }
        KickoffCommand { kick, ball_to_centre: true, robots }
    }

    /// Advances the referee logic by one tick. A kickoff action is carried
    /// out with [`MatchDirector::kickoff_command`] for the kicking team; a
    /// ball recovery puts the ball at rest on the centre spot; the tick's
    /// event is left in `last_event`.
    pub fn update(&mut self, o: TickObservation) -> (res: DirectorActions)
        requires
            old(self).wf(),
            o.goal_blue ==> old(self).score.blue < u32::MAX,
            !o.goal_blue && o.goal_yellow ==> old(self).score.yellow < u32::MAX,
        ensures
            final(self).wf(),
            (*final(self), res) == old(self).step_spec(o),
            old(self).phase == Phase::Running && !o.goal_blue && !o.goal_yellow ==> {
                &&& o.ball_near_anchor && old(self).idle_frames == IDLE_FRAME_LIMIT ==> res.ball_recovery
                    && final(self).last_event == Some(DirectorEvent::BallRecovery)
                &&& o.ball_stuck && old(self).stuck_frames == STUCK_FRAME_LIMIT ==> res.ball_recovery
                    && final(self).last_event == Some(DirectorEvent::BallRecovery)
                &&& o.ball_near_anchor && old(self).idle_frames < IDLE_FRAME_LIMIT && !(o.ball_stuck
                    && old(self).stuck_frames == STUCK_FRAME_LIMIT) ==> !res.ball_recovery
                    && final(self).idle_frames == old(self).idle_frames + 1
            },
    {
        proof {
            if old(self).phase == Phase::Running && !o.goal_blue && !o.goal_yellow {
                if o.ball_near_anchor {
                    idle_ball_recovered(*old(self), o);
                }
                stuck_ball_recovered(*old(self), o);
            }
        }
        self.last_event = None;
        // Phase transition.
        if let Phase::Prepare { .. } = self.phase {
            if o.prepare_elapsed {
                self.phase = Phase::Running;
            }
        }
        // Goal detection on the rising edge.
        let goal = o.goal_blue || o.goal_yellow;
        if goal && !self.goal_latched {
            self.goal_latched = true;
            let scorer = if o.goal_blue {
                self.score.blue = self.score.blue + 1;
                TeamColor::Blue
            } else {
                self.score.yellow = self.score.yellow + 1;
                TeamColor::Yellow
            };
            let conceding = scorer.opponent();
            self.last_goal = Some(scorer);
            self.last_event = Some(
                DirectorEvent::Goal { scorer, blue: self.score.blue, yellow: self.score.yellow },
            );
            let kick = self.active_kickoff_team(conceding);
            self.phase = Phase::Prepare { kick };
            self.stuck_frames = 0;
            self.idle_frames = 0;
            return DirectorActions {
                kickoff: Some(kick),
                goal: Some(scorer),
                ball_recovery: false,
                anchor: AnchorUpdate::ToOrigin,
            };
        } else if !goal {
            self.goal_latched = false;
        }
        // Stuck-ball recovery during running play.
        if self.phase == Phase::Running {
            if o.ball_stuck {
                self.stuck_frames = self.stuck_frames + 1;
            } else {
                self.stuck_frames = 0;
            }
            let mut anchor = AnchorUpdate::Keep;
            if o.ball_near_anchor {
                self.idle_frames = self.idle_frames + 1;
            } else {
                anchor = AnchorUpdate::ToBall;
                self.idle_frames = 0;
            }
            if self.stuck_frames > STUCK_FRAME_LIMIT || self.idle_frames > IDLE_FRAME_LIMIT {
                self.stuck_frames = 0;
                self.idle_frames = 0;
                self.last_event = Some(DirectorEvent::BallRecovery);
                return DirectorActions {
                    kickoff: None,
                    goal: None,
                    ball_recovery: true,
                    anchor: AnchorUpdate::ToOrigin,
                };
            }
            return DirectorActions { kickoff: None, goal: None, ball_recovery: false, anchor };
        }
        DirectorActions { kickoff: None, goal: None, ball_recovery: false, anchor: AnchorUpdate::Keep }
    }
}

/// One robot of a kickoff teleport: placed in its team's formation and
/// switched on, or switched off.
#[derive(Debug, Clone, Copy, PartialEq, Eq, Structural)]
pub struct RobotPlacement {
    pub team: TeamColor,
    pub id: usize,
    pub present: bool,
}

/// A kickoff teleport: who kicks off, the ball back to the centre at rest,
/// and every roster slot of both teams.
#[derive(Debug, Clone)]
pub struct KickoffCommand {
    pub kick: TeamColor,
    pub ball_to_centre: bool,
    pub robots: Vec<RobotPlacement>,
}

/// Robots `from..to` of `team`, all with the same `present` flag.
pub open spec fn placement_range(team: TeamColor, from: usize, to: usize, present: bool) -> Seq<RobotPlacement> {
    Seq::new(
        if from < to {
            (to - from) as nat
        } else {
            0
        },
        |i: int| RobotPlacement { team, id: (from + i) as usize, present },
    )
}

/// The robots of a kickoff teleport: blue `0..blue_bots` and yellow
/// `0..yellow_bots` switched on, then blue `blue_bots..robots_per_team` and
/// yellow `yellow_bots..robots_per_team` switched off.
pub open spec fn kickoff_placements_spec(blue_bots: usize, yellow_bots: usize, robots_per_team: usize) -> Seq<
    RobotPlacement,
> {
    placement_range(TeamColor::Blue, 0, blue_bots, true) + placement_range(
        TeamColor::Yellow,
        0,
        yellow_bots,
        true,
    ) + placement_range(TeamColor::Blue, blue_bots, robots_per_team, false) + placement_range(
        TeamColor::Yellow,
        yellow_bots,
        robots_per_team,
        false,
    )
}

fn push_placements(out: &mut Vec<RobotPlacement>, team: TeamColor, from: usize, to: usize, present: bool)
    ensures
        final(out)@ == old(out)@ + placement_range(team, from, to, present),
{
    let ghost start = out@;
    let mut id = from;
    while id < to
        invariant
            from <= id,
            id <= to || id == from,
            out@ == start + placement_range(team, from, id, present),
        decreases to - id,
    {
        let ghost before = out@;
        out.push(RobotPlacement { team, id, present });
        proof {
            assert(placement_range(team, from, (id + 1) as usize, present) =~= placement_range(
                team,
                from,
                id,
                present,
            ).push(RobotPlacement { team, id, present }));
            assert(out@ =~= start + placement_range(team, from, (id + 1) as usize, present));
        }
        id = id + 1;
    }
    proof {
        if from >= to {
            assert(placement_range(team, from, to, present) =~= Seq::<RobotPlacement>::empty());
            assert(placement_range(team, from, id, present) =~= Seq::<RobotPlacement>::empty());
        }
    }
}

/// The log text of a director event: `GOAL Blue (1-0)` (the scorer, then
/// the score after the goal) or `ball-recovery`.
pub open spec fn event_text_spec(e: DirectorEvent) -> Seq<char> {
    match e {
        DirectorEvent::Goal { scorer, blue, yellow } => "GOAL "@ + match scorer {
            TeamColor::Blue => "Blue"@,
            TeamColor::Yellow => "Yellow"@,
        } + " ("@ + decimal_digits(blue as nat) + "-"@ + decimal_digits(yellow as nat) + ")"@,
        DirectorEvent::BallRecovery => "ball-recovery"@,
    }
}

/// See [`event_text_spec`].
pub fn event_text(e: DirectorEvent) -> (res: String)
    ensures
        res@ == event_text_spec(e),
{
    let mut out = String::new();
    match e {
        DirectorEvent::Goal { scorer, blue, yellow } => {
            push_str(&mut out, "GOAL ");
            match scorer {
                TeamColor::Blue => push_str(&mut out, "Blue"),
                TeamColor::Yellow => push_str(&mut out, "Yellow"),
            }
            push_str(&mut out, " (");
            push_decimal(&mut out, blue as u64);
            push_str(&mut out, "-");
            push_decimal(&mut out, yellow as u64);
            push_char(&mut out, ')');
            proof {
                reveal_strlit(")");
                assert(out@ =~= event_text_spec(e));
            }
        },
        DirectorEvent::BallRecovery => push_str(&mut out, "ball-recovery"),
    }
    out
}

impl MatchDirector {
    /// The log text of the last tick's event, if any.
    pub fn last_event_text(&self) -> (res: Option<String>)
        ensures
            match self.last_event {
                Some(e) => res is Some && res->0@ == event_text_spec(e),
                None => res is None,
            },
    {
        match self.last_event {
            Some(e) => Some(event_text(e)),
            None => None,
        }
    }
}

impl TeamColor {
    /// The other team, for specifications.
    pub open spec fn opponent_spec(self) -> TeamColor {
        match self {
            TeamColor::Blue => TeamColor::Yellow,
            TeamColor::Yellow => TeamColor::Blue,
        }
    }
}

/// Each team's score never decreases, and the total rises by exactly one on
/// the tick a goal signal appears while unlatched, and never otherwise.
pub proof fn score_rises_only_on_new_goal(d: MatchDirector, o: TickObservation)
    requires
        d.wf(),
        o.goal_blue ==> d.score.blue < u32::MAX,
        !o.goal_blue && o.goal_yellow ==> d.score.yellow < u32::MAX,
    ensures
        d.step_spec(o).0.score.blue >= d.score.blue,
        d.step_spec(o).0.score.yellow >= d.score.yellow,
        d.step_spec(o).0.score.blue + d.step_spec(o).0.score.yellow == d.score.blue + d.score.yellow
            + (if (o.goal_blue || o.goal_yellow) && !d.goal_latched {
            1int
        } else {
            0int
        }),
{
}

/// A goal signal that lasts several ticks is counted once: after a tick that
/// sees the goal signal the director is latched, and a latched director does
/// not count a goal signal again.
pub proof fn goal_counted_once(d: MatchDirector, o1: TickObservation, o2: TickObservation)
    requires
        d.wf(),
        o1.goal_blue ==> d.score.blue < u32::MAX,
        !o1.goal_blue && o1.goal_yellow ==> d.score.yellow < u32::MAX,
        o1.goal_blue || o1.goal_yellow,
        o2.goal_blue || o2.goal_yellow,
    ensures
        d.step_spec(o1).0.goal_latched,
        d.step_spec(o1).0.step_spec(o2).0.score == d.step_spec(o1).0.score,
        d.step_spec(o1).0.step_spec(o2).1.goal is None,
{
}

/// After a goal, the conceding team prepares the kickoff whenever it has
/// robots on the field; the scorer is reported and play is not running.
pub proof fn conceding_team_kicks_off(d: MatchDirector, o: TickObservation)
    requires
        d.wf(),
        (o.goal_blue || o.goal_yellow) && !d.goal_latched,
        o.goal_blue ==> d.score.blue < u32::MAX,
        !o.goal_blue && o.goal_yellow ==> d.score.yellow < u32::MAX,
    ensures
        ({
            let scorer = if o.goal_blue {
                TeamColor::Blue
            } else {
                TeamColor::Yellow
            };
            let (next, actions) = d.step_spec(o);
            &&& actions.goal == Some(scorer)
            &&& next.last_goal == Some(scorer)
            &&& d.bots_of(scorer.opponent_spec()) > 0 ==> actions.kickoff == Some(
                scorer.opponent_spec(),
            ) && next.phase == (Phase::Prepare { kick: scorer.opponent_spec() })
        }),
{
}

/// A team with robots on the field always takes a kickoff that a team
/// without robots would have taken.
pub proof fn kickoff_by_present_team(d: MatchDirector, preferred: TeamColor)
    ensures
        (d.blue_bots > 0 || d.yellow_bots > 0) ==> d.bots_of(d.kickoff_team_spec(preferred)) > 0,
{
}

/// During running play with no goal signal, a ball that stays near its idle
/// anchor counts one more idle frame each tick without being moved, and on the
/// tick that takes the count past the idle limit the ball is put back to the
/// centre, the recovery is reported and both frame counters restart.
pub proof fn idle_ball_recovered(d: MatchDirector, o: TickObservation)
    requires
        d.wf(),
        d.phase == Phase::Running,
        !o.goal_blue,
        !o.goal_yellow,
        o.ball_near_anchor,
    ensures
        d.idle_frames == IDLE_FRAME_LIMIT ==> {
            let (next, actions) = d.step_spec(o);
            &&& actions.ball_recovery
            &&& actions.anchor == AnchorUpdate::ToOrigin
            &&& actions.kickoff is None
            &&& actions.goal is None
            &&& next.last_event == Some(DirectorEvent::BallRecovery)
            &&& next.idle_frames == 0
            &&& next.stuck_frames == 0
            &&& next.phase == Phase::Running
            &&& next.score == d.score
        },
        d.idle_frames < IDLE_FRAME_LIMIT && !(o.ball_stuck && d.stuck_frames == STUCK_FRAME_LIMIT)
            ==> {
            let (next, actions) = d.step_spec(o);
            &&& !actions.ball_recovery
            &&& actions.anchor == AnchorUpdate::Keep
            &&& next.idle_frames == d.idle_frames + 1
            &&& next.last_event is None
            &&& next.phase == Phase::Running
        },
{
}

/// During running play with no goal signal, a slow ball that no robot can
/// reach counts one more stuck frame each tick, and on the tick that takes
/// the count past the stuck limit it is put back to the centre and the
/// recovery is reported; a ball that is not stuck restarts the count.
pub proof fn stuck_ball_recovered(d: MatchDirector, o: TickObservation)
    requires
        d.wf(),
        d.phase == Phase::Running,
        !o.goal_blue,
        !o.goal_yellow,
    ensures
        o.ball_stuck && d.stuck_frames == STUCK_FRAME_LIMIT ==> {
            let (next, actions) = d.step_spec(o);
            &&& actions.ball_recovery
            &&& actions.anchor == AnchorUpdate::ToOrigin
            &&& next.last_event == Some(DirectorEvent::BallRecovery)
            &&& next.idle_frames == 0
            &&& next.stuck_frames == 0
        },
        o.ball_stuck && d.stuck_frames < STUCK_FRAME_LIMIT && !(o.ball_near_anchor && d.idle_frames
            == IDLE_FRAME_LIMIT) ==> {
            let (next, actions) = d.step_spec(o);
            &&& !actions.ball_recovery
            &&& next.stuck_frames == d.stuck_frames + 1
        },
        !o.ball_stuck && !(o.ball_near_anchor && d.idle_frames == IDLE_FRAME_LIMIT) ==> {
            let (next, actions) = d.step_spec(o);
            &&& !actions.ball_recovery
            &&& next.stuck_frames == 0
        },
        !o.ball_near_anchor && !(o.ball_stuck && d.stuck_frames == STUCK_FRAME_LIMIT) ==> {
            let (next, actions) = d.step_spec(o);
            &&& !actions.ball_recovery
            &&& actions.anchor == AnchorUpdate::ToBall
            &&& next.idle_frames == 0
        },
{
}

/// The director after `n` ticks that all see observation `o`.
pub open spec fn repeat_ticks(d: MatchDirector, o: TickObservation, n: nat) -> MatchDirector
    decreases n,
{
    if n == 0 {
        d
    } else {
        repeat_ticks(d, o, (n - 1) as nat).step_spec(o).0
    }
}

proof fn lemma_parked_ticks(d: MatchDirector, o: TickObservation, n: nat)
    requires
        d.wf(),
        d.phase == Phase::Running,
        d.idle_frames == 0,
        !o.goal_blue,
        !o.goal_yellow,
        !o.ball_stuck,
        o.ball_near_anchor,
        n <= IDLE_FRAME_LIMIT,
    ensures
        repeat_ticks(d, o, n).wf(),
        repeat_ticks(d, o, n).phase == Phase::Running,
        repeat_ticks(d, o, n).idle_frames == n,
        repeat_ticks(d, o, n).score == d.score,
    decreases n,
{
    if n > 0 {
        lemma_parked_ticks(d, o, (n - 1) as nat);
        idle_ball_recovered(repeat_ticks(d, o, (n - 1) as nat), o);
    }
}

/// A ball parked in one spot during running play (no goal, not stuck, near
/// its idle anchor on every tick) is left alone for the first
/// `IDLE_FRAME_LIMIT` ticks and recovered, with a `BallRecovery` event, on
/// the tick after them.
pub proof fn parked_ball_recovered_after_idle_limit(d: MatchDirector, o: TickObservation)
    requires
        d.wf(),
        d.phase == Phase::Running,
        d.idle_frames == 0,
        !o.goal_blue,
        !o.goal_yellow,
        !o.ball_stuck,
        o.ball_near_anchor,
    ensures
        forall|n: nat|
            n < IDLE_FRAME_LIMIT ==> !(#[trigger] repeat_ticks(d, o, n)).step_spec(o).1.ball_recovery,
        repeat_ticks(d, o, IDLE_FRAME_LIMIT as nat).step_spec(o).1.ball_recovery,
        repeat_ticks(d, o, IDLE_FRAME_LIMIT as nat).step_spec(o).0.last_event == Some(
            DirectorEvent::BallRecovery,
        ),
        repeat_ticks(d, o, IDLE_FRAME_LIMIT as nat).step_spec(o).1.anchor == AnchorUpdate::ToOrigin,
{
    assert forall|n: nat| n < IDLE_FRAME_LIMIT implies !(#[trigger] repeat_ticks(d, o, n)).step_spec(
        o,
    ).1.ball_recovery by {
        lemma_parked_ticks(d, o, n);
        idle_ball_recovered(repeat_ticks(d, o, n), o);
    }
    lemma_parked_ticks(d, o, IDLE_FRAME_LIMIT as nat);
    idle_ball_recovered(repeat_ticks(d, o, IDLE_FRAME_LIMIT as nat), o);
}

/// Robot ids `first_disabled..robots_per_team`, which are switched off.
pub fn disabled_robot_ids(first_disabled: usize, robots_per_team: usize) -> (res: Vec<usize>)
    ensures
        res@.len() == if first_disabled < robots_per_team {
            robots_per_team - first_disabled
        } else {
            0
        },
        forall|i: int| 0 <= i < res@.len() ==> res@[i] == first_disabled + i,
{
    let mut ids: Vec<usize> = Vec::new();
    let mut id = first_disabled;
    while id < robots_per_team
        invariant
            first_disabled <= id,
            id <= robots_per_team || id == first_disabled,
            ids@.len() == id - first_disabled,
            forall|i: int| 0 <= i < ids@.len() ==> ids@[i] == first_disabled + i,
        decreases robots_per_team - id,
    {
        ids.push(id);
        id = id + 1;
    }
    ids
}

/// Product modulo 2^64 (`u64::wrapping_mul`).
pub open spec fn mul64(x: u64, y: u64) -> u64 {
    ((x as nat * y as nat) % 0x1_0000_0000_0000_0000) as u64
}

/// Sum modulo 2^64 (`u64::wrapping_add`).
pub open spec fn add64(x: u64, y: u64) -> u64 {
    ((x as nat + y as nat) % 0x1_0000_0000_0000_0000) as u64
}

/// The splitmix-style hash behind the formation jitter for `(seed, id, axis)`.
pub open spec fn jitter_bits_spec(seed: u64, id: u64, axis: u64) -> u64 {
    let z0 = add64(
        add64(mul64(seed, 0x9E3779B97F4A7C15), mul64(id, 0xBF58476D1CE4E5B9)),
        mul64(axis, 0x94D049BB133111EB),
    );
    let z1 = mul64(z0 ^ (z0 >> 30u64), 0xBF58476D1CE4E5B9);
    let z2 = mul64(z1 ^ (z1 >> 27u64), 0x94D049BB133111EB);
    z2 ^ (z2 >> 31u64)
}

/// Deterministic 64-bit hash of `(seed, id, axis)`; the formation maps it to
/// a jitter in `[-1, 1)`. It depends on neither team colour nor anything
/// else, so colour-swapped matches on one seed mirror each other.
#[verifier::spinoff_prover]
pub fn jitter_bits(seed: u64, id: usize, axis: u64) -> (res: u64)
    ensures
        res == jitter_bits_spec(seed, id as u64, axis),
{
    let a = seed.wrapping_mul(0x9E3779B97F4A7C15);
    let b = (id as u64).wrapping_mul(0xBF58476D1CE4E5B9);
    let c = axis.wrapping_mul(0x94D049BB133111EB);
    assert(a == mul64(seed, 0x9E3779B97F4A7C15));
    assert(b == mul64(id as u64, 0xBF58476D1CE4E5B9));
    assert(c == mul64(axis, 0x94D049BB133111EB));
    let ab = a.wrapping_add(b);
    assert(ab == add64(a, b));
    let mut z = ab.wrapping_add(c);
    assert(z == add64(ab, c));
    let z0 = z;
    z = (z ^ (z >> 30u64)).wrapping_mul(0xBF58476D1CE4E5B9);
    assert(z == mul64(z0 ^ (z0 >> 30u64), 0xBF58476D1CE4E5B9));
    let z1 = z;
    z = (z ^ (z >> 27u64)).wrapping_mul(0x94D049BB133111EB);
    assert(z == mul64(z1 ^ (z1 >> 27u64), 0x94D049BB133111EB));
    z = z ^ (z >> 31u64);
    z
}

} // verus!
