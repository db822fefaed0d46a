use simhark::bench::{
    net_goals, now_string, round_seeds, signed_decimal, BenchTally, ChallengerResult,
};
use simhark::controller::GameCommand;
use simhark::director::{
    disabled_robot_ids, event_text, jitter_bits, AnchorUpdate, DirectorEvent, MatchDirector, Phase,
    RobotPlacement, Score, TickObservation,
};
use simhark::evaluator::{
    possession_trend, possessor, team_notes, winner_label, BallHalf, MatchTally, PointsLead,
    PossessionTrend, TeamTally,
};
use simhark::team::TeamColor;
use simhark::world_seeds::{world_config_seed, world_rng_seed};

fn quiet() -> TickObservation {
    TickObservation {
        prepare_elapsed: false,
        goal_blue: false,
        goal_yellow: false,
        ball_stuck: false,
        ball_near_anchor: false,
    }
}

#[test]
fn director_counts_a_goal_once_and_the_conceding_team_kicks_off() {
    let mut d = MatchDirector::new(6);
    let start = TickObservation { prepare_elapsed: true, ..quiet() };
    let a = d.update(start);
    assert_eq!(a.goal, None);
    assert_eq!(d.phase, Phase::Running);
    assert_eq!(d.command_for(TeamColor::Blue), GameCommand::Running);

    let goal = TickObservation { goal_blue: true, ..quiet() };
    let a = d.update(goal);
    assert_eq!(a.goal, Some(TeamColor::Blue));
    assert_eq!(a.kickoff, Some(TeamColor::Yellow));
    assert_eq!(a.anchor, AnchorUpdate::ToOrigin);
    assert_eq!(d.score, Score { blue: 1, yellow: 0 });
    assert_eq!(d.command_for(TeamColor::Yellow), GameCommand::PrepareKickoffUs);
    assert_eq!(d.referee_command_code(), 4);
    // The ball still in the goal next tick does not score again.
    let a = d.update(goal);
    assert_eq!(a.goal, None);
    assert_eq!(d.score, Score { blue: 1, yellow: 0 });
    assert_eq!(d.take_goal(), Some(TeamColor::Blue));
    assert_eq!(d.take_goal(), None);
}

#[test]
fn director_kickoff_goes_to_a_team_with_robots() {
    let d = MatchDirector::new(6).with_bot_counts(0, 3);
    assert_eq!(d.active_kickoff_team(TeamColor::Blue), TeamColor::Yellow);
    let d = MatchDirector::new(6).with_bot_counts(9, 9);
    assert_eq!(d.blue_bots, 6);
}

#[test]
fn director_recovers_a_stuck_ball() {
    let mut d = MatchDirector::new(6);
    d.update(TickObservation { prepare_elapsed: true, ..quiet() });
    let stuck = TickObservation { ball_stuck: true, ..quiet() };
    let mut recovered = 0;
    for _ in 0..91 {
        if d.update(stuck).ball_recovery {
            recovered += 1;
        }
    }
    assert_eq!(recovered, 1);
}

#[test]
fn disabled_ids_and_jitter() {
    assert_eq!(disabled_robot_ids(4, 6), vec![4, 5]);
    assert!(disabled_robot_ids(6, 6).is_empty());
    assert_eq!(jitter_bits(1, 2, 0), jitter_bits(1, 2, 0));
    assert_ne!(jitter_bits(1, 2, 0), jitter_bits(1, 2, 1));
}

#[test]
fn possession_rules() {
    assert_eq!(possessor(true, false, false), Some(TeamColor::Blue));
    assert_eq!(possessor(false, true, true), Some(TeamColor::Yellow));
    assert_eq!(possessor(true, true, true), None);
    assert_eq!(possessor(false, false, true), Some(TeamColor::Blue));
    assert_eq!(possessor(false, false, false), Some(TeamColor::Yellow));
}

#[test]
fn tally_counts_goals_ticks_and_shots() {
    let mut t = MatchTally::new();
    t.record_goal(TeamColor::Yellow);
    assert_eq!(t.yellow.goals_for, 1);
    assert_eq!(t.blue.goals_against, 1);
    t.tick(Some(TeamColor::Blue), BallHalf::YellowAttacking);
    t.tick(None, BallHalf::Midline);
    assert_eq!(t.total_ticks, 2);
    assert_eq!(t.blue.possession_ticks, 1);
    assert_eq!(t.yellow.attacking_ticks, 1);
    t.record_shot(TeamColor::Blue, true);
    t.record_shot(TeamColor::Blue, false);
    assert_eq!(t.blue.shots, 2);
    assert_eq!(t.blue.shots_on_target, 1);
}

#[test]
fn tally_follows_director_score() {
    let mut d = MatchDirector::new(6);
    let mut t = MatchTally::new();
    d.update(TickObservation { prepare_elapsed: true, ..quiet() });
    let obs = [
        TickObservation { goal_yellow: true, ..quiet() },
        quiet(),
        TickObservation { prepare_elapsed: true, ..quiet() },
        TickObservation { goal_blue: true, ..quiet() },
        TickObservation { goal_blue: true, ..quiet() },
    ];
    for o in obs {
        d.update(o);
        if let Some(scorer) = d.take_goal() {
            t.record_goal(scorer);
        }
        assert_eq!(t.blue.goals_for, d.score.blue);
        assert_eq!(t.yellow.goals_for, d.score.yellow);
    }
    assert_eq!(d.score, Score { blue: 1, yellow: 1 });
}

#[test]
fn winners() {
    assert_eq!(winner_label("blue:a", "yellow:b", 2, 1, PointsLead::Yellow), "blue:a");
    assert_eq!(winner_label("blue:a", "yellow:b", 0, 1, PointsLead::Blue), "yellow:b");
    assert_eq!(winner_label("blue:a", "yellow:b", 1, 1, PointsLead::Blue), "blue:a (on points)");
    assert_eq!(winner_label("blue:a", "yellow:b", 1, 1, PointsLead::Yellow), "yellow:b (on points)");
    assert_eq!(winner_label("blue:a", "yellow:b", 1, 1, PointsLead::Level), "draw");
}

#[test]
fn possession_trend_thresholds() {
    assert_eq!(possession_trend(56, 100), PossessionTrend::Dominated);
    assert_eq!(possession_trend(55, 100), PossessionTrend::Even);
    assert_eq!(possession_trend(45, 100), PossessionTrend::Even);
    assert_eq!(possession_trend(44, 100), PossessionTrend::Lost);
    assert_eq!(possession_trend(0, 0), PossessionTrend::Lost);
    assert_eq!(possession_trend(1, 0), PossessionTrend::Dominated);
}

#[test]
fn notes_for_a_team() {
    let t = TeamTally {
        goals_for: 1,
        goals_against: 0,
        possession_ticks: 0,
        attacking_ticks: 0,
        shots: 4,
        shots_on_target: 2,
    };
    assert_eq!(
        team_notes(&t, PossessionTrend::Dominated, "61"),
        vec!["outscored opponent", "dominated possession (61%)", "4 shots, 2 on target"]
    );
    let w = TeamTally { goals_for: 0, goals_against: 2, shots: 9, shots_on_target: 7, ..t };
    assert_eq!(
        team_notes(&w, PossessionTrend::Lost, "30"),
        vec!["lost the possession battle (30%)", "9 shots, 7 on target", "wasteful finishing"]
    );
    let n = TeamTally { shots_on_target: 0, ..t };
    assert_eq!(
        team_notes(&n, PossessionTrend::Even, "50"),
        vec!["outscored opponent", "created no shots on target"]
    );
}

#[test]
fn bench_totals_account_for_every_match() {
    let mut b = BenchTally::new();
    b.add(ChallengerResult { goals_for: 2, goals_against: 1, shots: 5, shots_on_target: 3 });
    b.add(ChallengerResult { goals_for: 0, goals_against: 0, shots: 1, shots_on_target: 0 });
    b.add(ChallengerResult { goals_for: 0, goals_against: 3, shots: 0, shots_on_target: 0 });
    assert_eq!((b.wins, b.draws, b.losses, b.matches), (1, 1, 1, 3));
    assert_eq!(b.wins + b.draws + b.losses, b.matches);
    assert_eq!(net_goals(&b), -2);
    assert_eq!(signed_decimal(net_goals(&b)), "-2");
    assert_eq!(signed_decimal(0), "+0");
    assert_eq!(signed_decimal(i64::MIN), "-9223372036854775808");
    assert_eq!(round_seeds(3), (1003, 2003));
    assert_eq!(now_string(42), "t=42");
}

#[test]
fn world_seeds_differ_per_world() {
    assert_eq!(world_config_seed(7, 2), 9);
    assert_eq!(world_config_seed(u64::MAX, 1), 0);
    assert_eq!(world_rng_seed(0, 1), 0x9E3779B97F4A7C15);
    let seeds: Vec<u64> = (0..64).map(|i| world_rng_seed(1, i)).collect();
    for i in 0..seeds.len() {
        for j in 0..i {
            assert_ne!(seeds[i], seeds[j]);
        }
    }
}

#[test]
fn director_goal_event_and_kickoff_command() {
    let mut d = MatchDirector::new(6);
    let a = d.update(TickObservation { prepare_elapsed: true, goal_blue: true, ..quiet() });
    assert_eq!(d.last_event, Some(DirectorEvent::Goal { scorer: TeamColor::Blue, blue: 1, yellow: 0 }));
    assert_eq!(d.last_event_text().as_deref(), Some("GOAL Blue (1-0)"));
    assert_eq!(a.kickoff, Some(TeamColor::Yellow));
    assert_eq!(d.referee_command_code(), 4);
    let c = d.kickoff_command(a.kickoff.unwrap());
    assert!(c.ball_to_centre);
    assert_eq!(c.robots.len(), 12);
    for id in 0..6 {
        assert_eq!(c.robots[id], RobotPlacement { team: TeamColor::Blue, id, present: true });
        assert_eq!(c.robots[6 + id], RobotPlacement { team: TeamColor::Yellow, id, present: true });
    }
    assert_eq!(d.take_goal(), Some(TeamColor::Blue));
    d.update(quiet());
    assert_eq!(d.last_event, None);
    assert_eq!(event_text(DirectorEvent::Goal { scorer: TeamColor::Yellow, blue: 2, yellow: 11 }), "GOAL Yellow (2-11)");
}

#[test]
fn director_recovery_event() {
    let mut d = MatchDirector::new(6);
    d.update(TickObservation { prepare_elapsed: true, ..quiet() });
    let stuck = TickObservation { ball_stuck: true, ..quiet() };
    for _ in 0..90 {
        assert!(!d.update(stuck).ball_recovery);
        assert_eq!(d.last_event, None);
    }
    assert!(d.update(stuck).ball_recovery);
    assert_eq!(d.last_event_text().as_deref(), Some("ball-recovery"));
}

#[test]
fn opening_kickoff_with_an_empty_side() {
    let mut d = MatchDirector::new(6).with_bot_counts(0, 3);
    let c = d.kickoff_reset();
    assert_eq!(c.kick, TeamColor::Yellow);
    assert_eq!(d.command_for(TeamColor::Yellow), GameCommand::PrepareKickoffUs);
    assert_eq!(d.command_for(TeamColor::Blue), GameCommand::PrepareKickoffThem);
    assert_eq!(d.referee_command_code(), 4);
    assert!(c.ball_to_centre);
    let expected: Vec<RobotPlacement> = (0..3)
        .map(|id| RobotPlacement { team: TeamColor::Yellow, id, present: true })
        .chain((0..6).map(|id| RobotPlacement { team: TeamColor::Blue, id, present: false }))
        .chain((3..6).map(|id| RobotPlacement { team: TeamColor::Yellow, id, present: false }))
        .collect();
    assert_eq!(c.robots, expected);
}

#[test]
fn goals_mirror_over_a_sequence() {
    let mut t = MatchTally::new();
    for (i, scorer) in [TeamColor::Blue, TeamColor::Yellow, TeamColor::Blue].into_iter().enumerate() {
        t.tick(Some(scorer), BallHalf::Midline);
        t.record_shot(scorer, i % 2 == 0);
        t.record_goal(scorer);
        assert_eq!(t.blue.goals_for, t.yellow.goals_against);
        assert_eq!(t.yellow.goals_for, t.blue.goals_against);
    }
    assert_eq!((t.blue.goals_for, t.yellow.goals_for), (2, 1));
}
