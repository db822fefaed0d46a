//! Bookkeeping of a SimNet client: which teams it registered for, and which
//! of its robot actions the simulator accepts.
use vstd::prelude::*;
use crate::team::{TeamColor, proto_team_to_local};

verus! {

/// The teams a client controls.
#[derive(Debug, Clone, Copy, PartialEq, Eq, Structural)]
pub struct TeamSet {
    pub blue: bool,
    pub yellow: bool,
}

impl TeamSet {
    /// Whether the set holds `team`.
    pub open spec fn has(self, team: TeamColor) -> bool {
        match team {
            TeamColor::Blue => self.blue,
            TeamColor::Yellow => self.yellow,
        }
    }

    /// See [`TeamSet::has`].
    pub fn contains(&self, team: TeamColor) -> (res: bool)
        ensures
            res == self.has(team),
    {
        match team {
            TeamColor::Blue => self.blue,
            TeamColor::Yellow => self.yellow,
        }
    }
}

/// The teams named by a registration's protocol colour codes (`0` yellow,
/// `1` blue); unknown codes are ignored.
pub fn registered_teams(colors: &Vec<i32>) -> (res: TeamSet)
    ensures
        res.yellow == colors@.contains(0i32),
        res.blue == colors@.contains(1i32),
{
    let mut set = TeamSet { blue: false, yellow: false };
    let mut i: usize = 0;
    while i < colors.len()
        invariant
            i <= colors@.len(),
            set.yellow == colors@.take(i as int).contains(0i32),
            set.blue == colors@.take(i as int).contains(1i32),
        decreases colors.len() - i,
    {
        let c = colors[i];
        proof {
            assert(colors@.take(i + 1) =~= colors@.take(i as int).push(c));
        }
        match proto_team_to_local(c) {
            Some(TeamColor::Yellow) => {
                set.yellow = true;
            },
            Some(TeamColor::Blue) => {
                set.blue = true;
            },
            None => {},
        }
        proof {
            let t = colors@.take(i as int);
            assert(t.push(c).last() == c);
            if t.contains(0i32) {
                let k = choose|k: int| 0 <= k < t.len() && t[k] == 0i32;
                assert(t.push(c)[k] == 0i32);
            }
            if t.contains(1i32) {
                let k = choose|k: int| 0 <= k < t.len() && t[k] == 1i32;
                assert(t.push(c)[k] == 1i32);
            }
            if t.push(c).contains(0i32) && c != 0 {
                let k = choose|k: int| 0 <= k < t.push(c).len() && t.push(c)[k] == 0i32;
                assert(t[k] == 0i32);
            }
            if t.push(c).contains(1i32) && c != 1 {
                let k = choose|k: int| 0 <= k < t.push(c).len() && t.push(c)[k] == 1i32;
                assert(t[k] == 1i32);
            }
        }
        i = i + 1;
    }
    proof {
        assert(colors@.take(i as int) =~= colors@);
    }
    set
}

/// The robot a client's action addresses, when the simulator accepts it:
/// the action names a robot (colour code and id), the colour code is a
/// known team, and the client registered for that team.
pub open spec fn action_target_spec(bot: Option<(i32, u32)>, registered: TeamSet) -> Option<
    (TeamColor, usize),
> {
    match bot {
        Some((color, id)) => if color == 1 && registered.blue {
            Some((TeamColor::Blue, id as usize))
        } else if color == 0 && registered.yellow {
            Some((TeamColor::Yellow, id as usize))
        } else {
            None
        },
        None => None,
    }
}

/// See [`action_target_spec`].
pub fn action_target(bot: Option<(i32, u32)>, registered: TeamSet) -> (res: Option<(TeamColor, usize)>)
    ensures
        res == action_target_spec(bot, registered),
{
    match bot {
        Some((color, id)) => match proto_team_to_local(color) {
            Some(team) => if registered.contains(team) {
                Some((team, id as usize))
            } else {
                None
            },
            None => None,
        },
        None => None,
    }
}

} // verus!
