//! Game events reported by the automatic referee, and the one-line labels
//! the match runner prints for them.
use vstd::prelude::*;
use crate::referee::{RefTeam, team_label, bot_suffix};
use crate::text::{push_decimal, push_str, decimal_digits};

verus! {

/// A game event as the autoref reports it. Measured quantities (distances,
/// speeds, precision) are carried as their printed two-decimal text, `None`
/// when the autoref did not measure them.
#[derive(Debug, Clone)]
pub enum RefGameEvent {
    BallLeftFieldTouchLine { by_team: RefTeam, by_bot: Option<u32> },
    BallLeftFieldGoalLine { by_team: RefTeam, by_bot: Option<u32> },
    AimlessKick { by_team: RefTeam, by_bot: Option<u32> },
    AttackerTooCloseToDefenseArea { by_team: RefTeam, by_bot: Option<u32>, distance: Option<String> },
    DefenderInDefenseArea { by_team: RefTeam, by_bot: Option<u32>, distance: Option<String> },
    AttackerTouchedBallInDefenseArea { by_team: RefTeam, by_bot: Option<u32> },
    BotKickedBallTooFast { by_team: RefTeam, by_bot: Option<u32>, initial_ball_speed: Option<String> },
    BotCrashUnique {
        by_team: RefTeam,
        violator: Option<u32>,
        victim: Option<u32>,
        crash_speed: Option<String>,
    },
    BotCrashDrawn { bot_yellow: Option<u32>, bot_blue: Option<u32>, crash_speed: Option<String> },
    DefenderTooCloseToKickPoint { by_team: RefTeam, by_bot: Option<u32>, distance: Option<String> },
    BotTooFastInStop { by_team: RefTeam, by_bot: Option<u32>, speed: Option<String> },
    BotInterferedPlacement { by_team: RefTeam, by_bot: Option<u32> },
    PossibleGoal { by_team: RefTeam },
    AttackerDoubleTouchedBall { by_team: RefTeam, by_bot: Option<u32> },
    PlacementSucceeded { by_team: RefTeam, precision: Option<String> },
    BotDribbledBallTooFar { by_team: RefTeam, by_bot: Option<u32> },
}

/// Capitalised name of an autoref team.
pub open spec fn team_text(team: RefTeam) -> Seq<char> {
    match team {
        RefTeam::Blue => "Blue"@,
        RefTeam::Yellow => "Yellow"@,
        RefTeam::Unknown => "Unknown"@,
    }
}

/// `#<bot>` for a known robot, nothing otherwise.
pub open spec fn bot_suffix_text(bot: Option<u32>) -> Seq<char> {
    match bot {
        Some(b) => seq!['#'] + decimal_digits(b as nat),
        None => Seq::empty(),
    }
}

/// A robot id, or `?` when unknown.
pub open spec fn bot_or_unknown(bot: Option<u32>) -> Seq<char> {
    match bot {
        Some(b) => decimal_digits(b as nat),
        None => "?"@,
    }
}

/// A measured value's text, or `?` when not measured.
pub open spec fn reading_text(value: Option<String>) -> Seq<char> {
    match value {
        Some(v) => v@,
        None => "?"@,
    }
}

/// `"<name> by <Team><#bot>"`, the common head of most labels.
pub open spec fn by_text(name: Seq<char>, team: RefTeam, bot: Option<u32>) -> Seq<char> {
    name + " by "@ + team_text(team) + bot_suffix_text(bot)
}

/// The printed label of a game event.
pub open spec fn event_label_spec(event: RefGameEvent) -> Seq<char> {
    match event {
        RefGameEvent::BallLeftFieldTouchLine { by_team, by_bot } => by_text(
            "ball-left-touch-line"@,
            by_team,
            by_bot,
        ),
        RefGameEvent::BallLeftFieldGoalLine { by_team, by_bot } => by_text(
            "ball-left-goal-line"@,
            by_team,
            by_bot,
        ),
        RefGameEvent::AimlessKick { by_team, by_bot } => by_text("aimless-kick"@, by_team, by_bot),
        RefGameEvent::AttackerTooCloseToDefenseArea { by_team, by_bot, distance } => by_text(
            "attacker-too-close-to-defense-area"@,
            by_team,
            by_bot,
        ) + " distance="@ + reading_text(distance),
        RefGameEvent::DefenderInDefenseArea { by_team, by_bot, distance } => by_text(
            "defender-in-defense-area"@,
            by_team,
            by_bot,
        ) + " distance="@ + reading_text(distance),
        RefGameEvent::AttackerTouchedBallInDefenseArea { by_team, by_bot } => by_text(
            "attacker-touched-ball-in-defense-area"@,
            by_team,
            by_bot,
        ),
        RefGameEvent::BotKickedBallTooFast { by_team, by_bot, initial_ball_speed } => by_text(
            "bot-kicked-ball-too-fast"@,
            by_team,
            by_bot,
        ) + " speed="@ + reading_text(initial_ball_speed),
        RefGameEvent::BotCrashUnique { by_team, violator, victim, crash_speed } => by_text(
            "bot-crash"@,
            by_team,
            violator,
        ) + " victim="@ + bot_or_unknown(victim) + " speed="@ + reading_text(crash_speed),
        RefGameEvent::BotCrashDrawn { bot_yellow, bot_blue, crash_speed } => "bot-crash-drawn yellow="@
            + bot_or_unknown(bot_yellow) + " blue="@ + bot_or_unknown(bot_blue) + " speed="@
            + reading_text(crash_speed),
        RefGameEvent::DefenderTooCloseToKickPoint { by_team, by_bot, distance } => by_text(
            "defender-too-close-to-kick-point"@,
            by_team,
            by_bot,
        ) + " distance="@ + reading_text(distance),
        RefGameEvent::BotTooFastInStop { by_team, by_bot, speed } => by_text(
            "bot-too-fast-in-stop"@,
            by_team,
            by_bot,
        ) + " speed="@ + reading_text(speed),
        RefGameEvent::BotInterferedPlacement { by_team, by_bot } => by_text(
            "bot-interfered-placement"@,
            by_team,
            by_bot,
        ),
        RefGameEvent::PossibleGoal { by_team } => "possible-goal by "@ + team_text(by_team),
        RefGameEvent::AttackerDoubleTouchedBall { by_team, by_bot } => by_text(
            "attacker-double-touched-ball"@,
            by_team,
            by_bot,
        ),
        RefGameEvent::PlacementSucceeded { by_team, precision } => "placement-succeeded by "@
            + team_text(by_team) + " precision="@ + reading_text(precision),
        RefGameEvent::BotDribbledBallTooFar { by_team, by_bot } => by_text(
            "bot-dribbled-ball-too-far"@,
            by_team,
            by_bot,
        ),
    }
}

fn push_by(out: &mut String, name: &str, team: RefTeam, bot: Option<u32>)
    ensures
        final(out)@ == old(out)@ + by_text(name@, team, bot),
{
    push_str(out, name);
    push_str(out, " by ");
    push_str(out, team_label(team));
    let suffix = bot_suffix(bot);
    push_str(out, suffix.as_str());
    proof {
        assert(final(out)@ =~= old(out)@ + by_text(name@, team, bot));
    }
}

fn push_reading(out: &mut String, key: &str, value: &Option<String>)
    ensures
        final(out)@ == old(out)@ + key@ + reading_text(*value),
{
    push_str(out, key);
    match value {
        Some(v) => push_str(out, v.as_str()),
        None => push_str(out, "?"),
    }
    proof {
        assert(final(out)@ =~= old(out)@ + key@ + reading_text(*value));
    }
}

fn push_bot_or_unknown(out: &mut String, key: &str, bot: Option<u32>)
    ensures
        final(out)@ == old(out)@ + key@ + bot_or_unknown(bot),
{
    push_str(out, key);
    match bot {
        Some(b) => push_decimal(out, b as u64),
        None => push_str(out, "?"),
    }
    proof {
        assert(final(out)@ =~= old(out)@ + key@ + bot_or_unknown(bot));
    }
}

/// The one-line label printed for a game event, e.g.
/// `bot-crash by Blue#3 victim=5 speed=1.20`.
pub fn event_label(event: &RefGameEvent) -> (res: String)
    ensures
        res@ == event_label_spec(*event),
{
    let mut out = String::new();
    match event {
        RefGameEvent::BallLeftFieldTouchLine { by_team, by_bot } => {
            push_by(&mut out, "ball-left-touch-line", *by_team, *by_bot);
        },
        RefGameEvent::BallLeftFieldGoalLine { by_team, by_bot } => {
            push_by(&mut out, "ball-left-goal-line", *by_team, *by_bot);
        },
        RefGameEvent::AimlessKick { by_team, by_bot } => {
            push_by(&mut out, "aimless-kick", *by_team, *by_bot);
        },
        RefGameEvent::AttackerTooCloseToDefenseArea { by_team, by_bot, distance } => {
            push_by(&mut out, "attacker-too-close-to-defense-area", *by_team, *by_bot);
            push_reading(&mut out, " distance=", distance);
        },
        RefGameEvent::DefenderInDefenseArea { by_team, by_bot, distance } => {
            push_by(&mut out, "defender-in-defense-area", *by_team, *by_bot);
            push_reading(&mut out, " distance=", distance);
        },
        RefGameEvent::AttackerTouchedBallInDefenseArea { by_team, by_bot } => {
            push_by(&mut out, "attacker-touched-ball-in-defense-area", *by_team, *by_bot);
        },
        RefGameEvent::BotKickedBallTooFast { by_team, by_bot, initial_ball_speed } => {
            push_by(&mut out, "bot-kicked-ball-too-fast", *by_team, *by_bot);
            push_reading(&mut out, " speed=", initial_ball_speed);
        },
        RefGameEvent::BotCrashUnique { by_team, violator, victim, crash_speed } => {
            push_by(&mut out, "bot-crash", *by_team, *violator);
            push_bot_or_unknown(&mut out, " victim=", *victim);
            push_reading(&mut out, " speed=", crash_speed);
        },
        RefGameEvent::BotCrashDrawn { bot_yellow, bot_blue, crash_speed } => {
            push_bot_or_unknown(&mut out, "bot-crash-drawn yellow=", *bot_yellow);
            push_bot_or_unknown(&mut out, " blue=", *bot_blue);
            push_reading(&mut out, " speed=", crash_speed);
        },
        RefGameEvent::DefenderTooCloseToKickPoint { by_team, by_bot, distance } => {
            push_by(&mut out, "defender-too-close-to-kick-point", *by_team, *by_bot);
            push_reading(&mut out, " distance=", distance);
        },
        RefGameEvent::BotTooFastInStop { by_team, by_bot, speed } => {
            push_by(&mut out, "bot-too-fast-in-stop", *by_team, *by_bot);
            push_reading(&mut out, " speed=", speed);
        },
        RefGameEvent::BotInterferedPlacement { by_team, by_bot } => {
            push_by(&mut out, "bot-interfered-placement", *by_team, *by_bot);
        },
        RefGameEvent::PossibleGoal { by_team } => {
            push_str(&mut out, "possible-goal by ");
            push_str(&mut out, team_label(*by_team));
        },
        RefGameEvent::AttackerDoubleTouchedBall { by_team, by_bot } => {
            push_by(&mut out, "attacker-double-touched-ball", *by_team, *by_bot);
        },
        RefGameEvent::PlacementSucceeded { by_team, precision } => {
            push_str(&mut out, "placement-succeeded by ");
            push_str(&mut out, team_label(*by_team));
            push_reading(&mut out, " precision=", precision);
        },
        RefGameEvent::BotDribbledBallTooFar { by_team, by_bot } => {
            push_by(&mut out, "bot-dribbled-ball-too-far", *by_team, *by_bot);
        },
    }
    proof {
        assert(out@ =~= event_label_spec(*event));
    }
    out
}

/// Whether the runner prints an event: every foul (as the autoref classes
/// it), the ball leaving the field over either line, and possible goals.
pub fn important_event(event: &RefGameEvent, is_foul: bool) -> (res: bool)
    ensures
        res == (is_foul || event is BallLeftFieldTouchLine || event is BallLeftFieldGoalLine
            || event is PossibleGoal),
{
    is_foul || match event {
        RefGameEvent::BallLeftFieldTouchLine { .. } => true,
        RefGameEvent::BallLeftFieldGoalLine { .. } => true,
        RefGameEvent::PossibleGoal { .. } => true,
        _ => false,
    }
}

} // verus!
