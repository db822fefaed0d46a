//! Team colours, kick states and their wire codes.
use vstd::prelude::*;

verus! {

/// Which team a robot belongs to.
#[derive(Debug, Clone, Copy, PartialEq, Eq, Structural, Hash)]
pub enum TeamColor {
    Blue,
    Yellow,
}

impl TeamColor {
    /// The other team.
    pub fn opponent(self) -> (res: TeamColor)
        ensures
            res != self,
    {
        match self {
            TeamColor::Blue => TeamColor::Yellow,
            TeamColor::Yellow => TeamColor::Blue,
        }
    }
}

/// Kick type that is in progress on a robot.
#[derive(Debug, Clone, Copy, PartialEq, Eq, Structural)]
pub enum KickStatus {
    NoKick,
    FlatKick,
    ChipKick,
}

impl KickStatus {
    /// The kick status of a robot that has not kicked.
    pub fn no_kick() -> (res: KickStatus)
        ensures
            res == KickStatus::NoKick,
    {
        KickStatus::NoKick
    }
}

/// Kick type latched on a simulated robot's kicker.
#[derive(Debug, Clone, Copy, PartialEq, Eq, Structural)]
pub enum KickType {
    Idle,
    Flat,
    Chip,
}

/// The kick status a robot reports for the kick latched on its kicker.
pub fn kick_status_of(kick: KickType) -> (res: KickStatus)
    ensures
        res == (match kick {
            KickType::Idle => KickStatus::NoKick,
            KickType::Flat => KickStatus::FlatKick,
            KickType::Chip => KickStatus::ChipKick,
        }),
{
    match kick {
        KickType::Idle => KickStatus::NoKick,
        KickType::Flat => KickStatus::FlatKick,
        KickType::Chip => KickStatus::ChipKick,
    }
}

/// Lower-case name of a team colour, as written in logs.
pub fn team_color_str(c: TeamColor) -> (res: &'static str)
    ensures
        c == TeamColor::Blue ==> res@ == "blue"@,
        c == TeamColor::Yellow ==> res@ == "yellow"@,
{
    match c {
        TeamColor::Blue => "blue",
        TeamColor::Yellow => "yellow",
    }
}

/// One-letter team tag used in motion summaries.
pub fn team_letter(team: TeamColor) -> (res: &'static str)
    ensures
        team == TeamColor::Blue ==> res@ == "B"@,
        team == TeamColor::Yellow ==> res@ == "Y"@,
{
    match team {
        TeamColor::Blue => "B",
        TeamColor::Yellow => "Y",
    }
}

/// Code of a team in the SimNet protocol (`YELLOW = 0`, `BLUE = 1`).
pub open spec fn proto_team_code(team: TeamColor) -> i32 {
    match team {
        TeamColor::Yellow => 0,
        TeamColor::Blue => 1,
    }
}

/// The SimNet protocol code of a team.
pub fn local_team_to_proto(value: TeamColor) -> (res: i32)
    ensures
        res == proto_team_code(value),
{
    match value {
        TeamColor::Yellow => 0,
        TeamColor::Blue => 1,
    }
}

/// The team a SimNet protocol code names; `None` for codes outside the enum.
pub open spec fn team_of_proto_code(code: i32) -> Option<TeamColor> {
    if code == 0 {
        Some(TeamColor::Yellow)
    } else if code == 1 {
        Some(TeamColor::Blue)
    } else {
        None
    }
}

/// See [`team_of_proto_code`].
pub fn proto_team_to_local(value: i32) -> (res: Option<TeamColor>)
    ensures
        res == team_of_proto_code(value),
{
    if value == 0 {
        Some(TeamColor::Yellow)
    } else if value == 1 {
        Some(TeamColor::Blue)
    } else {
        None
    }
}

/// Mapping a team to its SimNet code and back gives the same team, and
/// a code that names a team is that team's code.
pub proof fn proto_team_roundtrip(team: TeamColor, code: i32)
    ensures
        team_of_proto_code(proto_team_code(team)) == Some(team),
        team_of_proto_code(code) matches Some(t) ==> proto_team_code(t) == code,
{
}

/// The team of a simulator-control message: the SSL `Team` code `YELLOW = 1`
/// selects yellow; every other code, and a missing one, selects blue.
pub fn map_team(team: Option<i32>) -> (res: TeamColor)
    ensures
        res == (if team == Some(1i32) {
            TeamColor::Yellow
        } else {
            TeamColor::Blue
        }),
{
    match team {
        Some(value) if value == 1 => TeamColor::Yellow,
        _ => TeamColor::Blue,
    }
}

/// Kicker state of a simulated robot: a countdown of frames until a latched
/// kick expires, and a flag for the first simulation step.
#[derive(Debug, Clone, Copy, PartialEq, Eq, Structural)]
pub struct KickerState {
    pub kick_countdown: i32,
    pub kick_type: KickType,
    pub first_time: bool,
}

impl KickerState {
    /// A kicker with nothing latched, before its first step.
    pub fn new() -> (res: KickerState)
        ensures
            res.kick_countdown == 0,
            res.kick_type == KickType::Idle,
            res.first_time,
    {
        KickerState { kick_countdown: 0, kick_type: KickType::Idle, first_time: true }
    }

    /// Counts a positive countdown down by one frame; the latched kick clears
    /// when it reaches zero.
    pub fn step_kicker(&mut self)
        ensures
            old(self).kick_countdown > 0 ==> final(self).kick_countdown == old(self).kick_countdown - 1,
            old(self).kick_countdown <= 0 ==> final(self).kick_countdown == old(self).kick_countdown,
            final(self).kick_type == (if old(self).kick_countdown == 1 {
                KickType::Idle
            } else {
                old(self).kick_type
            }),
            final(self).first_time == old(self).first_time,
    {
        if self.kick_countdown > 0 {
            self.kick_countdown = self.kick_countdown - 1;
            if self.kick_countdown <= 0 {
                self.kick_type = KickType::Idle;
            }
        }
    }

    /// True exactly once: on the first call after construction.
    pub fn consume_first_time(&mut self) -> (res: bool)
        ensures
            res == old(self).first_time,
            !final(self).first_time,
            final(self).kick_countdown == old(self).kick_countdown,
            final(self).kick_type == old(self).kick_type,
    {
        if self.first_time {
            self.first_time = false;
            true
        } else {
            false
        }
    }
}

/// The part of a robot's state that its team's status feedback reports.
#[derive(Debug, Clone, Copy, PartialEq, Eq, Structural)]
pub struct RobotStatusCache {
    pub infrared: bool,
    pub kick_status: KickStatus,
}

impl RobotStatusCache {
    /// The cached status of a robot with the given sensor reading and kick.
    pub fn from_state(infrared: bool, kick_status: KickStatus) -> (res: RobotStatusCache)
        ensures
            res.infrared == infrared,
            res.kick_status == kick_status,
    {
        RobotStatusCache { infrared, kick_status }
    }

    /// Whether the robot is reported as flat-kicking.
    pub fn flat_kick(&self) -> (res: bool)
        ensures
            res == (self.kick_status == KickStatus::FlatKick),
    {
        match self.kick_status {
            KickStatus::FlatKick => true,
            _ => false,
        }
    }

    /// Whether the robot is reported as chip-kicking.
    pub fn chip_kick(&self) -> (res: bool)
        ensures
            res == (self.kick_status == KickStatus::ChipKick),
    {
        match self.kick_status {
            KickStatus::ChipKick => true,
            _ => false,
        }
    }
}

/// Whether a team's status must be sent: the cached statuses differ from the
/// fresh ones (element by element, or in length).
pub fn status_changed(last: &Vec<RobotStatusCache>, fresh: &Vec<RobotStatusCache>) -> (res: bool)
    ensures
        res == (last@ != fresh@),
{
    if last.len() != fresh.len() {
        return true;
    }
    let mut i: usize = 0;
    while i < last.len()
        invariant
            i <= last@.len(),
            last@.len() == fresh@.len(),
            forall|j: int| 0 <= j < i ==> last@[j] == fresh@[j],
        decreases last.len() - i,
    {
        if last[i] != fresh[i] {
            return true;
        }
        i = i + 1;
    }
    assert(last@ =~= fresh@);
    false
}

/// One robot's entry in a team status packet.
#[derive(Debug, Clone, Copy, PartialEq, Eq, Structural)]
pub struct RobotStatusEntry {
    pub robot_id: i32,
    pub infrared: bool,
    pub flat_kick: bool,
    pub chip_kick: bool,
}

/// The entries of a team status packet, one per robot in order: robot
/// `ids[i]` (cut to 32 bits) with the status `fresh[i]`.
pub fn status_entries(ids: &Vec<usize>, fresh: &Vec<RobotStatusCache>) -> (res: Vec<RobotStatusEntry>)
    requires
        ids@.len() == fresh@.len(),
    ensures
        res@.len() == ids@.len(),
        forall|i: int|
            0 <= i < ids@.len() ==> #[trigger] res@[i] == (RobotStatusEntry {
                robot_id: ids@[i] as i32,
                infrared: fresh@[i].infrared,
                flat_kick: fresh@[i].kick_status == KickStatus::FlatKick,
                chip_kick: fresh@[i].kick_status == KickStatus::ChipKick,
            }),
{
    let mut out: Vec<RobotStatusEntry> = Vec::new();
    let mut i: usize = 0;
    while i < ids.len()
        invariant
            i <= ids@.len(),
            ids@.len() == fresh@.len(),
            out@.len() == i,
            forall|k: int|
                0 <= k < i ==> #[trigger] out@[k] == (RobotStatusEntry {
                    robot_id: ids@[k] as i32,
                    infrared: fresh@[k].infrared,
                    flat_kick: fresh@[k].kick_status == KickStatus::FlatKick,
                    chip_kick: fresh@[k].kick_status == KickStatus::ChipKick,
                }),
        decreases ids.len() - i,
    {
        let c = fresh[i];
        out.push(
            RobotStatusEntry {
                robot_id: ids[i] as i32,
                infrared: c.infrared,
                flat_kick: c.flat_kick(),
                chip_kick: c.chip_kick(),
            },
        );
        i = i + 1;
    }
    out
}

} // verus!
