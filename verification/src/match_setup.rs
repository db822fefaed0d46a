//! The match runner's decisions around the simulation loop: how many robots
//! each side fields, which path a match takes, how sides are named, when
//! frames are logged or printed, and how the wait for an external AI ends.
use vstd::prelude::*;
use crate::controller::{TeamKind, TeamKindSpec, team_kind_label_spec};
use crate::text::{push_char, push_decimal, push_str, decimal_digits};

verus! {

/// Robots per team that an in-process AI bound through the robot stack can
/// drive.
pub const CRASHPILOT_MAX_ROBOTS: usize = 8;

/// Robot counts of both teams.
#[derive(Debug, Clone, Copy, PartialEq, Eq, Structural)]
pub struct TeamBotCounts {
    pub blue: usize,
    pub yellow: usize,
}

/// The configured robot counts, each defaulting to the division's count.
pub fn bot_counts(blue_bots: Option<usize>, yellow_bots: Option<usize>, default: usize) -> (res:
    TeamBotCounts)
    ensures
        res.blue == match blue_bots {
            Some(n) => n,
            None => default,
        },
        res.yellow == match yellow_bots {
            Some(n) => n,
            None => default,
        },
{
    TeamBotCounts {
        blue: match blue_bots {
            Some(n) => n,
            None => default,
        },
        yellow: match yellow_bots {
            Some(n) => n,
            None => default,
        },
    }
}

/// Robots physically placed for a side: the configured count, or the
/// division's count when none (or zero) is configured, so that an empty
/// side still has robots standing on the field.
pub open spec fn physical_bot_count_spec(configured: Option<usize>, default: usize) -> usize {
    match configured {
        Some(n) => if n == 0 {
            default
        } else {
            n
        },
        None => default,
    }
}

/// See [`physical_bot_count_spec`].
pub fn physical_bot_count(configured: Option<usize>, default: usize) -> (res: usize)
    ensures
        res == physical_bot_count_spec(configured, default),
{
    match configured {
        Some(0) | None => default,
        Some(count) => count,
    }
}

/// [`physical_bot_count`] for both teams.
pub fn physical_bot_counts(blue_bots: Option<usize>, yellow_bots: Option<usize>, default: usize) -> (res:
    TeamBotCounts)
    ensures
        res.blue == physical_bot_count_spec(blue_bots, default),
        res.yellow == physical_bot_count_spec(yellow_bots, default),
{
    TeamBotCounts {
        blue: physical_bot_count(blue_bots, default),
        yellow: physical_bot_count(yellow_bots, default),
    }
}

/// Robots per team the world is built with: the larger physical count.
pub fn robots_per_team(physical: TeamBotCounts) -> (res: usize)
    ensures
        res == if physical.blue >= physical.yellow {
            physical.blue
        } else {
            physical.yellow
        },
        res >= physical.blue,
        res >= physical.yellow,
{
    if physical.blue >= physical.yellow {
        physical.blue
    } else {
        physical.yellow
    }
}

/// Whether a side with robots is played by the external AI; such a match
/// takes the hybrid path.
pub fn has_active_external(blue: &TeamKind, yellow: &TeamKind, bots: TeamBotCounts) -> (res: bool)
    ensures
        res == ((bots.blue > 0 && blue@ == TeamKindSpec::Sumatra) || (bots.yellow > 0 && yellow@
            == TeamKindSpec::Sumatra)),
{
    (bots.blue > 0 && blue.is_external()) || (bots.yellow > 0 && yellow.is_external())
}

/// Whether a side runs an in-process controller: it has robots and is not
/// played by the external AI.
pub fn runs_in_process(kind: &TeamKind, bots: usize) -> (res: bool)
    ensures
        res == (bots > 0 && kind@ != TeamKindSpec::Sumatra),
{
    bots > 0 && !kind.is_external()
}

/// Whether a side is played by a launched external AI.
pub fn launches_external(kind: &TeamKind, bots: usize) -> (res: bool)
    ensures
        res == (bots > 0 && kind@ == TeamKindSpec::Sumatra),
{
    bots > 0 && kind.is_external()
}

/// Whether the division letter selects division A (`a` or `A`); anything
/// else is division B.
pub fn is_division_a(div: char) -> (res: bool)
    ensures
        res == (div == 'a' || div == 'A'),
{
    div == 'a' || div == 'A'
}

/// The refusal of a hybrid match whose in-process side would drive more
/// robots than the robot stack supports.
pub open spec fn crashpilot_limit_spec(
    blue: TeamKindSpec,
    yellow: TeamKindSpec,
    bots: TeamBotCounts,
    div: char,
) -> Option<Seq<char>> {
    let bound = |k: TeamKindSpec| !(k == TeamKindSpec::Dummy || k == TeamKindSpec::Sumatra);
    let most = if bots.blue >= bots.yellow {
        bots.blue
    } else {
        bots.yellow
    };
    if ((bots.blue > 0 && bound(blue)) || (bots.yellow > 0 && bound(yellow))) && most > 8 {
        Some(
            "division "@ + seq![div] + " has "@ + decimal_digits(most as nat)
                + " robots/team, but the in-process AI (CrashPilot) supports at most 8. Use --div b or --blue-bots/--yellow-bots <= 8 for matches against Sumatra."@,
        )
    } else {
        None
    }
}

/// See [`crashpilot_limit_spec`]; `Ok` when the match may go ahead.
pub fn check_crashpilot_limit(blue: &TeamKind, yellow: &TeamKind, bots: TeamBotCounts, div: char) -> (res:
    Result<(), String>)
    ensures
        match crashpilot_limit_spec(blue@, yellow@, bots, div) {
            None => res is Ok,
            Some(m) => res is Err && res->Err_0@ == m,
        },
{
    let bound = (bots.blue > 0 && blue.uses_crashpilot_binding()) || (bots.yellow > 0
        && yellow.uses_crashpilot_binding());
    let most = if bots.blue >= bots.yellow {
        bots.blue
    } else {
        bots.yellow
    };
    if bound && most > CRASHPILOT_MAX_ROBOTS {
        let mut m = String::new();
        push_str(&mut m, "division ");
        push_char(&mut m, div);
        push_str(&mut m, " has ");
        push_decimal(&mut m, most as u64);
        push_str(
            &mut m,
            " robots/team, but the in-process AI (CrashPilot) supports at most 8. Use --div b or --blue-bots/--yellow-bots <= 8 for matches against Sumatra.",
        );
        proof {
            assert(m@ =~= crashpilot_limit_spec(blue@, yellow@, bots, div)->0);
        }
        return Err(m);
    }
    Ok(())
}

/// The name a side is reported under: `<label>:0bots` for a side without
/// robots, else its controller's name, else (an external side) the kind's
/// label.
pub open spec fn side_name_spec(kind: TeamKindSpec, controller_name: Option<Seq<char>>, bots: usize) -> Seq<
    char,
> {
    if bots == 0 {
        team_kind_label_spec(kind) + ":0bots"@
    } else {
        match controller_name {
            Some(n) => n,
            None => team_kind_label_spec(kind),
        }
    }
}

/// See [`side_name_spec`].
pub fn side_name(kind: &TeamKind, controller_name: Option<&str>, bots: usize) -> (res: String)
    ensures
        res@ == side_name_spec(
            kind@,
            match controller_name {
                Some(n) => Some(n@),
                None => None,
            },
            bots,
        ),
{
    let mut out = String::new();
    if bots == 0 {
        push_str(&mut out, kind.label());
        push_str(&mut out, ":0bots");
        return out;
    }
    match controller_name {
        Some(n) => push_str(&mut out, n),
        None => push_str(&mut out, kind.label()),
    }
    out
}

/// `"<prefix>:<name>"`, as in `blue:bangka`.
pub fn prefixed_name(prefix: &str, name: &str) -> (res: String)
    ensures
        res@ == prefix@ + ":"@ + name@,
{
    let mut out = String::new();
    push_str(&mut out, prefix);
    push_char(&mut out, ':');
    push_str(&mut out, name);
    proof {
        reveal_strlit(":");
        assert(out@ =~= prefix@ + ":"@ + name@);
    }
    out
}

/// Whether robot commands are printed at `frame`: printing is asked for
/// (by configuration or by the environment) and `frame` is a multiple of
/// the interval, taken as at least one.
pub fn print_commands_due(print_commands: bool, env_requested: bool, every: u64, frame: u64) -> (res:
    bool)
    ensures
        res == ((print_commands || env_requested) && frame % (if every == 0 {
            1
        } else {
            every
        }) == 0),
{
    if !print_commands && !env_requested {
        return false;
    }
    let every = if every == 0 {
        1
    } else {
        every
    };
    frame % every == 0
}

/// Whether a frame is written to the game log.
pub fn log_frame_due(frame: u64, log_every: u64) -> (res: bool)
    requires
        log_every > 0,
    ensures
        res == (frame % log_every == 0),
{
    frame % log_every == 0
}

/// What the runner does while it waits for the external AI to connect.
#[derive(Debug, Clone, Copy, PartialEq, Eq, Structural)]
pub enum WarmupStep {
    /// A client connected: reset the world and kick off.
    Connected,
    /// Keep publishing and wait a little.
    Wait,
    /// Nobody connected in time.
    TimedOut,
    /// A launched process exited before connecting.
    ProcessExited,
}

/// One round of the wait for the external AI: a connection wins over the
/// timeout, which wins over an exited process.
pub fn warmup_step(has_clients: bool, timed_out: bool, process_exited: bool) -> (res: WarmupStep)
    ensures
        res == if has_clients {
            WarmupStep::Connected
        } else if timed_out {
            WarmupStep::TimedOut
        } else if process_exited {
            WarmupStep::ProcessExited
        } else {
            WarmupStep::Wait
        },
{
    if has_clients {
        WarmupStep::Connected
    } else if timed_out {
        WarmupStep::TimedOut
    } else if process_exited {
        WarmupStep::ProcessExited
    } else {
        WarmupStep::Wait
    }
}

/// The error a failed wait ends the match with.
pub fn warmup_failure_message(step: WarmupStep) -> (res: Option<&'static str>)
    ensures
        step == WarmupStep::TimedOut ==> res is Some && res->0@
            == "timed out waiting for Sumatra to connect on SimNet"@,
        step == WarmupStep::ProcessExited ==> res is Some && res->0@
            == "a Sumatra process exited before connecting"@,
        (step == WarmupStep::Connected || step == WarmupStep::Wait) ==> res is None,
{
    match step {
        WarmupStep::TimedOut => Some("timed out waiting for Sumatra to connect on SimNet"),
        WarmupStep::ProcessExited => Some("a Sumatra process exited before connecting"),
        _ => None,
    }
}

/// The first element of a list, if any, taking the list.
pub fn pop_first<T>(items: Vec<T>) -> (res: Option<T>)
    ensures
        items@.len() == 0 ==> res is None,
        items@.len() > 0 ==> res == Some(items@[0]),
{
    let mut items = items;
    if items.len() == 0 {
        None
    } else {
        Some(items.remove(0))
    }
}

/// The command counter after a goal: one up, wrapping.
pub fn next_command_counter(counter: u32) -> (res: u32)
    ensures
        res == (if counter == u32::MAX {
            0
        } else {
            counter + 1
        }),
{
    counter.wrapping_add(1)
}

} // verus!
