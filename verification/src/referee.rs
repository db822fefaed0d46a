//! Referee commands: SSL protocol codes, labels, and the per-tick referee
//! summary the match runner logs.
use vstd::prelude::*;
use crate::text::{push_char, push_decimal, push_str, decimal_digits};
use crate::team::TeamColor;

verus! {

/// Referee command of the SSL game controller protocol.
#[derive(Debug, Clone, Copy, PartialEq, Eq, Structural)]
pub enum RefCommand {
    Halt,
    Stop,
    NormalStart,
    ForceStart,
    PrepareKickoffYellow,
    PrepareKickoffBlue,
    PreparePenaltyYellow,
    PreparePenaltyBlue,
    DirectFreeYellow,
    DirectFreeBlue,
    IndirectFreeYellow,
    IndirectFreeBlue,
    TimeoutYellow,
    TimeoutBlue,
    BallPlacementYellow,
    BallPlacementBlue,
    Unknown,
}

/// The command a protocol code names; codes outside the protocol (including
/// the retired 14 and 15) name `Unknown`.
pub open spec fn command_for_code(code: i32) -> RefCommand {
    if code == 0 {
        RefCommand::Halt
    } else if code == 1 {
        RefCommand::Stop
    } else if code == 2 {
        RefCommand::NormalStart
    } else if code == 3 {
        RefCommand::ForceStart
    } else if code == 4 {
        RefCommand::PrepareKickoffYellow
    } else if code == 5 {
        RefCommand::PrepareKickoffBlue
    } else if code == 6 {
        RefCommand::PreparePenaltyYellow
    } else if code == 7 {
        RefCommand::PreparePenaltyBlue
    } else if code == 8 {
        RefCommand::DirectFreeYellow
    } else if code == 9 {
        RefCommand::DirectFreeBlue
    } else if code == 10 {
        RefCommand::IndirectFreeYellow
    } else if code == 11 {
        RefCommand::IndirectFreeBlue
    } else if code == 12 {
        RefCommand::TimeoutYellow
    } else if code == 13 {
        RefCommand::TimeoutBlue
    } else if code == 16 {
        RefCommand::BallPlacementYellow
    } else if code == 17 {
        RefCommand::BallPlacementBlue
    } else {
        RefCommand::Unknown
    }
}

/// The protocol code of a command; `Unknown` is sent as `FORCE_START` (3).
pub open spec fn code_for_command(command: RefCommand) -> i32 {
    match command {
        RefCommand::Halt => 0,
        RefCommand::Stop => 1,
        RefCommand::NormalStart => 2,
        RefCommand::ForceStart => 3,
        RefCommand::PrepareKickoffYellow => 4,
        RefCommand::PrepareKickoffBlue => 5,
        RefCommand::PreparePenaltyYellow => 6,
        RefCommand::PreparePenaltyBlue => 7,
        RefCommand::DirectFreeYellow => 8,
        RefCommand::DirectFreeBlue => 9,
        RefCommand::IndirectFreeYellow => 10,
        RefCommand::IndirectFreeBlue => 11,
        RefCommand::TimeoutYellow => 12,
        RefCommand::TimeoutBlue => 13,
        RefCommand::BallPlacementYellow => 16,
        RefCommand::BallPlacementBlue => 17,
        RefCommand::Unknown => 3,
    }
}

/// Whether `code` is one of the protocol's command codes.
pub open spec fn is_known_code(code: i32) -> bool {
    (0 <= code <= 13) || code == 16 || code == 17
}

/// The UPPER_SNAKE_CASE name of a command.
pub open spec fn command_label_spec(command: RefCommand) -> Seq<char> {
    match command {
        RefCommand::Halt => "HALT"@,
        RefCommand::Stop => "STOP"@,
        RefCommand::NormalStart => "NORMAL_START"@,
        RefCommand::ForceStart => "FORCE_START"@,
        RefCommand::PrepareKickoffYellow => "PREPARE_KICKOFF_YELLOW"@,
        RefCommand::PrepareKickoffBlue => "PREPARE_KICKOFF_BLUE"@,
        RefCommand::PreparePenaltyYellow => "PREPARE_PENALTY_YELLOW"@,
        RefCommand::PreparePenaltyBlue => "PREPARE_PENALTY_BLUE"@,
        RefCommand::DirectFreeYellow => "DIRECT_FREE_YELLOW"@,
        RefCommand::DirectFreeBlue => "DIRECT_FREE_BLUE"@,
        RefCommand::IndirectFreeYellow => "INDIRECT_FREE_YELLOW"@,
        RefCommand::IndirectFreeBlue => "INDIRECT_FREE_BLUE"@,
        RefCommand::TimeoutYellow => "TIMEOUT_YELLOW"@,
        RefCommand::TimeoutBlue => "TIMEOUT_BLUE"@,
        RefCommand::BallPlacementYellow => "BALL_PLACEMENT_YELLOW"@,
        RefCommand::BallPlacementBlue => "BALL_PLACEMENT_BLUE"@,
        RefCommand::Unknown => "UNKNOWN"@,
    }
}

/// The command a protocol code names.
pub fn command_from_ssl_code(code: i32) -> (res: RefCommand)
    ensures
        res == command_for_code(code),
{
    match code {
        0 => RefCommand::Halt,
        1 => RefCommand::Stop,
        2 => RefCommand::NormalStart,
        3 => RefCommand::ForceStart,
        4 => RefCommand::PrepareKickoffYellow,
        5 => RefCommand::PrepareKickoffBlue,
        6 => RefCommand::PreparePenaltyYellow,
        7 => RefCommand::PreparePenaltyBlue,
        8 => RefCommand::DirectFreeYellow,
        9 => RefCommand::DirectFreeBlue,
        10 => RefCommand::IndirectFreeYellow,
        11 => RefCommand::IndirectFreeBlue,
        12 => RefCommand::TimeoutYellow,
        13 => RefCommand::TimeoutBlue,
        16 => RefCommand::BallPlacementYellow,
        17 => RefCommand::BallPlacementBlue,
        _ => RefCommand::Unknown,
    }
}

/// The protocol code of a command.
pub fn ssl_code_from_command(command: RefCommand) -> (res: i32)
    ensures
        res == code_for_command(command),
{
    match command {
        RefCommand::Halt => 0,
        RefCommand::Stop => 1,
        RefCommand::NormalStart => 2,
        RefCommand::ForceStart => 3,
        RefCommand::PrepareKickoffYellow => 4,
        RefCommand::PrepareKickoffBlue => 5,
        RefCommand::PreparePenaltyYellow => 6,
        RefCommand::PreparePenaltyBlue => 7,
        RefCommand::DirectFreeYellow => 8,
        RefCommand::DirectFreeBlue => 9,
        RefCommand::IndirectFreeYellow => 10,
        RefCommand::IndirectFreeBlue => 11,
        RefCommand::TimeoutYellow => 12,
        RefCommand::TimeoutBlue => 13,
        RefCommand::BallPlacementYellow => 16,
        RefCommand::BallPlacementBlue => 17,
        RefCommand::Unknown => 3,
    }
}

/// The UPPER_SNAKE_CASE name of a command.
pub fn command_label(command: RefCommand) -> (res: &'static str)
    ensures
        res@ == command_label_spec(command),
{
    match command {
        RefCommand::Halt => "HALT",
        RefCommand::Stop => "STOP",
        RefCommand::NormalStart => "NORMAL_START",
        RefCommand::ForceStart => "FORCE_START",
        RefCommand::PrepareKickoffYellow => "PREPARE_KICKOFF_YELLOW",
        RefCommand::PrepareKickoffBlue => "PREPARE_KICKOFF_BLUE",
        RefCommand::PreparePenaltyYellow => "PREPARE_PENALTY_YELLOW",
        RefCommand::PreparePenaltyBlue => "PREPARE_PENALTY_BLUE",
        RefCommand::DirectFreeYellow => "DIRECT_FREE_YELLOW",
        RefCommand::DirectFreeBlue => "DIRECT_FREE_BLUE",
        RefCommand::IndirectFreeYellow => "INDIRECT_FREE_YELLOW",
        RefCommand::IndirectFreeBlue => "INDIRECT_FREE_BLUE",
        RefCommand::TimeoutYellow => "TIMEOUT_YELLOW",
        RefCommand::TimeoutBlue => "TIMEOUT_BLUE",
        RefCommand::BallPlacementYellow => "BALL_PLACEMENT_YELLOW",
        RefCommand::BallPlacementBlue => "BALL_PLACEMENT_BLUE",
        RefCommand::Unknown => "UNKNOWN",
    }
}

/// Every protocol code survives the trip to a command and back; every command
/// but `Unknown` survives the trip to a code and back, and `Unknown` comes
/// back as `FORCE_START`.
pub proof fn ssl_code_roundtrip(code: i32, command: RefCommand)
    ensures
        is_known_code(code) ==> code_for_command(command_for_code(code)) == code,
        !is_known_code(code) ==> command_for_code(code) == RefCommand::Unknown,
        command != RefCommand::Unknown ==> command_for_code(code_for_command(command)) == command,
        command == RefCommand::Unknown ==> command_for_code(code_for_command(command)) == RefCommand::ForceStart,
        is_known_code(code_for_command(command)),
{
}

/// Team named by the autoref, which may not know it.
#[derive(Debug, Clone, Copy, PartialEq, Eq, Structural)]
pub enum RefTeam {
    Blue,
    Yellow,
    Unknown,
}

/// Capitalised name of an autoref team.
pub fn team_label(team: RefTeam) -> (res: &'static str)
    ensures
        team == RefTeam::Blue ==> res@ == "Blue"@,
        team == RefTeam::Yellow ==> res@ == "Yellow"@,
        team == RefTeam::Unknown ==> res@ == "Unknown"@,
{
    match team {
        RefTeam::Blue => "Blue",
        RefTeam::Yellow => "Yellow",
        RefTeam::Unknown => "Unknown",
    }
}

/// `"#<bot>"` for a known offending robot, empty otherwise.
pub fn bot_suffix(bot: Option<u32>) -> (res: String)
    ensures
        bot is None ==> res@ == Seq::<char>::empty(),
        bot is Some ==> res@ == seq!['#'] + decimal_digits(bot->0 as nat),
{
    let mut out = String::new();
    match bot {
        Some(b) => {
            push_char(&mut out, '#');
            push_decimal(&mut out, b as u64);
        },
        None => {},
    }
    out
}

/// Referee state the match log and viewer are fed each tick.
#[derive(Debug, Clone, Copy, PartialEq, Eq)]
pub struct ReferrisTick {
    pub command_code: i32,
    pub command_counter: u32,
    pub command_label: &'static str,
}

/// The tick summary: the autoref's own command and counter when it has a
/// referee state, else the director's command code with the frame number
/// (truncated to 32 bits) as the counter.
pub fn referris_tick(
    autoref_state: Option<(RefCommand, u32)>,
    command_code: i32,
    frame: u64,
) -> (res: ReferrisTick)
    ensures
        match autoref_state {
            Some((command, counter)) => res.command_code == code_for_command(command)
                && res.command_counter == counter && res.command_label@ == command_label_spec(
                command,
            ),
            None => res.command_code == command_code && res.command_counter == (frame
                % 0x1_0000_0000) as u32 && res.command_label@ == command_label_spec(
                command_for_code(command_code),
            ),
        },
{
    match autoref_state {
        Some((command, counter)) => ReferrisTick {
            command_code: ssl_code_from_command(command),
            command_counter: counter,
            command_label: command_label(command),
        },
        None => ReferrisTick {
            command_code,
            command_counter: (frame % 0x1_0000_0000) as u32,
            command_label: command_label(command_from_ssl_code(command_code)),
        },
    }
}

/// Yellow and red card totals of both teams.
#[derive(Debug, Clone, Copy, PartialEq, Eq, Structural)]
pub struct CardCounts {
    pub blue_yellow_cards: u32,
    pub yellow_yellow_cards: u32,
    pub blue_red_cards: u32,
    pub yellow_red_cards: u32,
}

/// A card total that went up since the previous referee state.
#[derive(Debug, Clone, Copy, PartialEq, Eq, Structural)]
pub enum CardChange {
    YellowCard { team: TeamColor, total: u32 },
    RedCard { team: TeamColor, total: u32 },
}

/// The card changes to announce between two referee states, in the order
/// blue yellow, yellow yellow, blue red, yellow red.
pub open spec fn card_changes_spec(prev: CardCounts, now: CardCounts) -> Seq<CardChange> {
    (if now.blue_yellow_cards > prev.blue_yellow_cards {
        seq![CardChange::YellowCard { team: TeamColor::Blue, total: now.blue_yellow_cards }]
    } else {
        seq![]
    }) + (if now.yellow_yellow_cards > prev.yellow_yellow_cards {
        seq![CardChange::YellowCard { team: TeamColor::Yellow, total: now.yellow_yellow_cards }]
    } else {
        seq![]
    }) + (if now.blue_red_cards > prev.blue_red_cards {
        seq![CardChange::RedCard { team: TeamColor::Blue, total: now.blue_red_cards }]
    } else {
        seq![]
    }) + (if now.yellow_red_cards > prev.yellow_red_cards {
        seq![CardChange::RedCard { team: TeamColor::Yellow, total: now.yellow_red_cards }]
    } else {
        seq![]
    })
}

/// The counter in `c` that a change of this kind for this team is about.
pub open spec fn counter_for(c: CardCounts, change: CardChange) -> u32 {
    match change {
        CardChange::YellowCard { team: TeamColor::Blue, .. } => c.blue_yellow_cards,
        CardChange::YellowCard { team: TeamColor::Yellow, .. } => c.yellow_yellow_cards,
        CardChange::RedCard { team: TeamColor::Blue, .. } => c.blue_red_cards,
        CardChange::RedCard { team: TeamColor::Yellow, .. } => c.yellow_red_cards,
    }
}

/// The new total that a change announces.
pub open spec fn change_total(change: CardChange) -> u32 {
    match change {
        CardChange::YellowCard { total, .. } => total,
        CardChange::RedCard { total, .. } => total,
    }
}

/// Whether `change` is one to announce between `prev` and `now`: the
/// counter of its kind and team rose, and it carries that counter's new
/// total.
pub open spec fn announced(prev: CardCounts, now: CardCounts, change: CardChange) -> bool {
    counter_for(now, change) > counter_for(prev, change) && change_total(change) == counter_for(
        now,
        change,
    )
}

/// Every announced change names the card kind and team whose counter rose,
/// with its new total; every counter that rose is announced, exactly once.
pub proof fn card_changes_name_the_risen_counter(prev: CardCounts, now: CardCounts)
    ensures
        forall|change: CardChange|
            card_changes_spec(prev, now).contains(change) <==> announced(prev, now, change),
        card_changes_spec(prev, now).no_duplicates(),
{
    let s = card_changes_spec(prev, now);
    let by = CardChange::YellowCard { team: TeamColor::Blue, total: now.blue_yellow_cards };
    let yy = CardChange::YellowCard { team: TeamColor::Yellow, total: now.yellow_yellow_cards };
    let br = CardChange::RedCard { team: TeamColor::Blue, total: now.blue_red_cards };
    let yr = CardChange::RedCard { team: TeamColor::Yellow, total: now.yellow_red_cards };
    let s1: Seq<CardChange> = if now.blue_yellow_cards > prev.blue_yellow_cards { seq![by] } else { seq![] };
    let s2: Seq<CardChange> = if now.yellow_yellow_cards > prev.yellow_yellow_cards { seq![yy] } else { seq![] };
    let s3: Seq<CardChange> = if now.blue_red_cards > prev.blue_red_cards { seq![br] } else { seq![] };
    let s4: Seq<CardChange> = if now.yellow_red_cards > prev.yellow_red_cards { seq![yr] } else { seq![] };
    assert(s == s1 + s2 + s3 + s4);
    assert forall|change: CardChange| s.contains(change) <==> announced(prev, now, change) by {
        if s.contains(change) {
            let i = choose|i: int| 0 <= i < s.len() && s[i] == change;
            assert(s1.len() <= 1 && s2.len() <= 1 && s3.len() <= 1 && s4.len() <= 1);
            if i < s1.len() {
                assert(s[i] == s1[i]);
            } else if i < s1.len() + s2.len() {
                assert(s[i] == s2[i - s1.len()]);
            } else if i < s1.len() + s2.len() + s3.len() {
                assert(s[i] == s3[i - s1.len() - s2.len()]);
            } else {
                assert(s[i] == s4[i - s1.len() - s2.len() - s3.len()]);
            }
        }
        if announced(prev, now, change) {
            let j: int = if change == by {
                0
            } else if change == yy {
                s1.len() as int
            } else if change == br {
                (s1.len() + s2.len()) as int
            } else {
                (s1.len() + s2.len() + s3.len()) as int
            };
            assert(s[j] == change);
        }
    }
    assert forall|i: int, j: int| 0 <= i < s.len() && 0 <= j < s.len() && i != j implies s[i] != s[j] by {
        assert(s1.len() <= 1 && s2.len() <= 1 && s3.len() <= 1 && s4.len() <= 1);
    }
}

/// Remembers the last card totals seen so only increases are announced.
pub struct CardTracker {
    pub seen: CardCounts,
}

impl CardTracker {
    /// A tracker that has seen no cards.
    pub fn new() -> (res: CardTracker)
        ensures
            res.seen == (CardCounts {
                blue_yellow_cards: 0,
                yellow_yellow_cards: 0,
                blue_red_cards: 0,
                yellow_red_cards: 0,
            }),
    {
        CardTracker {
            seen: CardCounts {
                blue_yellow_cards: 0,
                yellow_yellow_cards: 0,
                blue_red_cards: 0,
                yellow_red_cards: 0,
            },
        }
    }

    /// Returns the totals that rose since the last observation and remembers
    /// the new totals.
    pub fn observe(&mut self, now: CardCounts) -> (res: Vec<CardChange>)
        ensures
            res@ == card_changes_spec(old(self).seen, now),
            forall|change: CardChange| res@.contains(change) <==> announced(old(self).seen, now, change),
            res@.no_duplicates(),
            final(self).seen == now,
    {
        let prev = self.seen;
        let mut out: Vec<CardChange> = Vec::new();
        if now.blue_yellow_cards > prev.blue_yellow_cards {
            out.push(CardChange::YellowCard { team: TeamColor::Blue, total: now.blue_yellow_cards });
        }
        if now.yellow_yellow_cards > prev.yellow_yellow_cards {
            out.push(
                CardChange::YellowCard { team: TeamColor::Yellow, total: now.yellow_yellow_cards },
            );
        }
        if now.blue_red_cards > prev.blue_red_cards {
            out.push(CardChange::RedCard { team: TeamColor::Blue, total: now.blue_red_cards });
        }
        if now.yellow_red_cards > prev.yellow_red_cards {
            out.push(CardChange::RedCard { team: TeamColor::Yellow, total: now.yellow_red_cards });
        }
        self.seen = now;
        assert(out@ =~= card_changes_spec(prev, now));
        proof {
            card_changes_name_the_risen_counter(prev, now);
        }
        out
    }
}

/// The announcement of a card change, e.g. `yellow-card Blue total=2`.
pub open spec fn card_change_text_spec(change: CardChange) -> Seq<char> {
    match change {
        CardChange::YellowCard { team, total } => "yellow-card "@ + team_name(team) + " total="@
            + decimal_digits(total as nat),
        CardChange::RedCard { team, total } => "red-card "@ + team_name(team) + " total="@
            + decimal_digits(total as nat),
    }
}

/// Capitalised team name.
pub open spec fn team_name(team: TeamColor) -> Seq<char> {
    match team {
        TeamColor::Blue => "Blue"@,
        TeamColor::Yellow => "Yellow"@,
    }
}

/// See [`card_change_text_spec`].
pub fn card_change_text(change: CardChange) -> (res: String)
    ensures
        res@ == card_change_text_spec(change),
{
    let mut out = String::new();
    let (kind, team, total) = match change {
        CardChange::YellowCard { team, total } => ("yellow-card ", team, total),
        CardChange::RedCard { team, total } => ("red-card ", team, total),
    };
    push_str(&mut out, kind);
    match team {
        TeamColor::Blue => push_str(&mut out, "Blue"),
        TeamColor::Yellow => push_str(&mut out, "Yellow"),
    }
    push_str(&mut out, " total=");
    push_decimal(&mut out, total as u64);
    out
}

} // verus!
