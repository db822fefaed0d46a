//! Which AI drives each side of a match, and the game command each side
//! receives from the match director.
use vstd::prelude::*;
use crate::text::{ascii_lower_seq, split_once_spec, split_once_char, str_eq, to_ascii_lowercase};

verus! {

/// Referee state resolved relative to a team, as decided by the match director.
#[derive(Debug, Clone, Copy, PartialEq, Eq, Structural)]
pub enum GameCommand {
    Halt,
    Stop,
    Running,
    FreeKickUs,
    FreeKickThem,
    PrepareKickoffUs,
    PrepareKickoffThem,
}

/// Referee command code handed to an in-process AI: `HALT` (0) while halted;
/// otherwise `FORCE_START` (3), so the AI keeps playing while the director
/// handles kickoff positioning itself.
pub fn referee_command_for(gc: GameCommand) -> (res: i32)
    ensures
        res == (if gc == GameCommand::Halt {
            0i32
        } else {
            3i32
        }),
{
    match gc {
        GameCommand::Halt => 0,
        _ => 3,
    }
}

/// Controller that keeps every robot in a zero-drive idle state.
pub struct DummyController {
    pub num_robots: u8,
}

impl DummyController {
    /// An idle controller for `num_robots` robots.
    pub fn new(num_robots: u8) -> (res: DummyController)
        ensures
            res.num_robots == num_robots,
    {
        DummyController { num_robots }
    }

    /// Name the controller reports.
    pub fn name(&self) -> (res: &'static str)
        ensures
            res@ == "dummy"@,
    {
        "dummy"
    }

    /// Robot ids the controller commands each tick, in order: `0..num_robots`.
    pub fn command_ids(&self) -> (res: Vec<usize>)
        ensures
            res@.len() == self.num_robots as nat,
            forall|i: int| 0 <= i < res@.len() ==> res@[i] == i,
    {
        let mut ids: Vec<usize> = Vec::new();
        let mut id: usize = 0;
        while id < self.num_robots as usize
            invariant
                id <= self.num_robots as usize,
                ids@.len() == id,
                forall|i: int| 0 <= i < ids@.len() ==> ids@[i] == i,
            decreases self.num_robots as usize - id,
        {
            ids.push(id);
            id = id + 1;
        }
        ids
    }
}

/// Identifies which AI a side should use.
#[derive(Debug, Clone)]
pub enum TeamKind {
    /// The current non-ML role/skill AI, run inside the robot stack.
    Bangka,
    /// The tuned Bangka-line AI, with an optional parameter file.
    Bongka { params: Option<String> },
    /// A sibling Bangka-line AI, with an optional parameter file.
    Ungabunga { params: Option<String> },
    /// Frozen Bangka snapshot used as a fixed sparring partner.
    Bangka1,
    /// Frozen first version of Bangka, used as a fixed sparring partner.
    BangkaLegacy,
    /// The machine-learning AI, with an optional model path.
    CrashPilot { model: Option<String> },
    /// No-op side: keeps robots idle with zero wheel velocity.
    Dummy,
    /// The external Java AI, driven over the SimNet protocol.
    Sumatra,
}

/// Mathematical form of a team kind: arguments as character sequences.
pub enum TeamKindSpec {
    Bangka,
    Bongka { params: Option<Seq<char>> },
    Ungabunga { params: Option<Seq<char>> },
    Bangka1,
    BangkaLegacy,
    CrashPilot { model: Option<Seq<char>> },
    Dummy,
    Sumatra,
}

/// The view of an optional string argument.
pub open spec fn opt_view(o: Option<String>) -> Option<Seq<char>> {
    match o {
        Some(s) => Some(s@),
        None => None,
    }
}

impl View for TeamKind {
    type V = TeamKindSpec;

    open spec fn view(&self) -> TeamKindSpec {
        match self {
            TeamKind::Bangka => TeamKindSpec::Bangka,
            TeamKind::Bongka { params } => TeamKindSpec::Bongka { params: opt_view(*params) },
            TeamKind::Ungabunga { params } => TeamKindSpec::Ungabunga { params: opt_view(*params) },
            TeamKind::Bangka1 => TeamKindSpec::Bangka1,
            TeamKind::BangkaLegacy => TeamKindSpec::BangkaLegacy,
            TeamKind::CrashPilot { model } => TeamKindSpec::CrashPilot { model: opt_view(*model) },
            TeamKind::Dummy => TeamKindSpec::Dummy,
            TeamKind::Sumatra => TeamKindSpec::Sumatra,
        }
    }
}

/// What parsing a team-kind argument gives: the name before the first `:`
/// is matched case-insensitively against the known names and aliases; the
/// text after the `:` (if any) becomes the parameter or model argument.
pub open spec fn team_kind_parse_spec(s: Seq<char>) -> Result<TeamKindSpec, Seq<char>> {
    let name = ascii_lower_seq(split_once_spec(s, ':').0);
    let arg = split_once_spec(s, ':').1;
    if name == "bangka"@ || name == "us"@ || name == "new"@ {
        Ok(TeamKindSpec::Bangka)
    } else if name == "bongka"@ {
        Ok(TeamKindSpec::Bongka { params: arg })
    } else if name == "ungabunga"@ {
        Ok(TeamKindSpec::Ungabunga { params: arg })
    } else if name == "bangka1"@ {
        Ok(TeamKindSpec::Bangka1)
    } else if name == "legacy"@ || name == "bangka0"@ || name == "baseline"@ {
        Ok(TeamKindSpec::BangkaLegacy)
    } else if name == "crashpilot"@ || name == "cp"@ || name == "ml"@ || name == "ai"@ {
        Ok(TeamKindSpec::CrashPilot { model: arg })
    } else if name == "dummy"@ || name == "noop"@ || name == "none"@ || name == "idle"@ {
        Ok(TeamKindSpec::Dummy)
    } else if name == "sumatra"@ || name == "real"@ || name == "tigers"@ {
        Ok(TeamKindSpec::Sumatra)
    } else {
        Err("unknown team kind: "@ + name)
    }
}

/// The label of a team kind.
pub open spec fn team_kind_label_spec(k: TeamKindSpec) -> Seq<char> {
    match k {
        TeamKindSpec::Bangka => "bangka"@,
        TeamKindSpec::Bongka { .. } => "bongka"@,
        TeamKindSpec::Ungabunga { .. } => "ungabunga"@,
        TeamKindSpec::Bangka1 => "bangka1"@,
        TeamKindSpec::BangkaLegacy => "legacy"@,
        TeamKindSpec::CrashPilot { .. } => "crashpilot"@,
        TeamKindSpec::Dummy => "dummy"@,
        TeamKindSpec::Sumatra => "sumatra"@,
    }
}

fn owned_arg(arg: Option<&str>) -> (res: Option<String>)
    ensures
        match arg {
            Some(a) => res is Some && res->0@ == a@,
            None => res is None,
        },
{
    match arg {
        Some(a) => Some(a.to_string()),
        None => None,
    }
}

impl TeamKind {
    /// Parses `name` or `name:argument` (see [`team_kind_parse_spec`]).
    pub fn parse(s: &str) -> (res: Result<TeamKind, String>)
        ensures
            match team_kind_parse_spec(s@) {
                Ok(k) => res is Ok && res->Ok_0@ == k,
                Err(e) => res is Err && res->Err_0@ == e,
            },
    {
        let (raw_name, raw_arg) = split_once_char(s, ':');
        let lower = to_ascii_lowercase(raw_name);
        let name = lower.as_str();
        let ghost arg_view: Option<Seq<char>> = split_once_spec(s@, ':').1;
        if str_eq(name, "bangka") || str_eq(name, "us") || str_eq(name, "new") {
            Ok(TeamKind::Bangka)
        } else if str_eq(name, "bongka") {
            Ok(TeamKind::Bongka { params: owned_arg(raw_arg) })
        } else if str_eq(name, "ungabunga") {
            Ok(TeamKind::Ungabunga { params: owned_arg(raw_arg) })
        } else if str_eq(name, "bangka1") {
            Ok(TeamKind::Bangka1)
        } else if str_eq(name, "legacy") || str_eq(name, "bangka0") || str_eq(name, "baseline") {
            Ok(TeamKind::BangkaLegacy)
        } else if str_eq(name, "crashpilot") || str_eq(name, "cp") || str_eq(name, "ml") || str_eq(
            name,
            "ai",
        ) {
            Ok(TeamKind::CrashPilot { model: owned_arg(raw_arg) })
        } else if str_eq(name, "dummy") || str_eq(name, "noop") || str_eq(name, "none") || str_eq(
            name,
            "idle",
        ) {
            Ok(TeamKind::Dummy)
        } else if str_eq(name, "sumatra") || str_eq(name, "real") || str_eq(name, "tigers") {
            Ok(TeamKind::Sumatra)
        } else {
            let mut msg = String::from_str("unknown team kind: ");
            msg.append(name);
            Err(msg)
        }
    }

    /// Short lower-case label of the kind.
    pub fn label(&self) -> (res: &'static str)
        ensures
            res@ == team_kind_label_spec(self@),
    {
        match self {
            TeamKind::Bangka => "bangka",
            TeamKind::Bongka { .. } => "bongka",
            TeamKind::Ungabunga { .. } => "ungabunga",
            TeamKind::Bangka1 => "bangka1",
            TeamKind::BangkaLegacy => "legacy",
            TeamKind::CrashPilot { .. } => "crashpilot",
            TeamKind::Dummy => "dummy",
            TeamKind::Sumatra => "sumatra",
        }
    }

    /// True for AIs that run externally (over SimNet) rather than in-process.
    pub fn is_external(&self) -> (res: bool)
        ensures
            res == (self@ == TeamKindSpec::Sumatra),
    {
        match self {
            TeamKind::Sumatra => true,
            _ => false,
        }
    }

    /// True for in-process sides that go through the robot-stack binding and
    /// so inherit its robot-count limit.
    pub fn uses_crashpilot_binding(&self) -> (res: bool)
        ensures
            res == !(self@ == TeamKindSpec::Dummy || self@ == TeamKindSpec::Sumatra),
    {
        match self {
            TeamKind::Dummy | TeamKind::Sumatra => false,
            _ => true,
        }
    }
}

proof fn lemma_split_without_separator(s: Seq<char>, c: char)
    requires
        forall|i: int| 0 <= i < s.len() ==> s[i] != c,
    ensures
        split_once_spec(s, c) == (s, Option::<Seq<char>>::None),
    decreases s.len(),
{
    if s.len() > 0 {
        lemma_split_without_separator(s.drop_first(), c);
        assert(seq![s[0]] + s.drop_first() =~= s);
    }
}

proof fn lemma_plain_label(s: Seq<char>)
    requires
        forall|i: int| 0 <= i < s.len() ==> ('a' <= #[trigger] s[i] && s[i] <= 'z') || ('0' <= s[i] && s[i] <= '9'),
    ensures
        split_once_spec(s, ':') == (s, Option::<Seq<char>>::None),
        ascii_lower_seq(s) == s,
{
    lemma_split_without_separator(s, ':');
    assert(ascii_lower_seq(s) =~= s);
}

/// A kind with its optional parameter or model argument dropped.
pub open spec fn without_argument(k: TeamKindSpec) -> TeamKindSpec {
    match k {
        TeamKindSpec::Bongka { .. } => TeamKindSpec::Bongka { params: None },
        TeamKindSpec::Ungabunga { .. } => TeamKindSpec::Ungabunga { params: None },
        TeamKindSpec::CrashPilot { .. } => TeamKindSpec::CrashPilot { model: None },
        _ => k,
    }
}

/// Every kind's label parses back to the same kind without its optional
/// parameter or model argument (so to the kind itself when it has none),
/// which again has that label.
pub proof fn label_parses_back(k: TeamKindSpec)
    ensures
        team_kind_parse_spec(team_kind_label_spec(k)) == Ok::<TeamKindSpec, Seq<char>>(without_argument(k)),
        team_kind_label_spec(without_argument(k)) == team_kind_label_spec(k),
{
    reveal_strlit("bangka");
    reveal_strlit("bongka");
    reveal_strlit("ungabunga");
    reveal_strlit("bangka1");
    reveal_strlit("legacy");
    reveal_strlit("crashpilot");
    reveal_strlit("dummy");
    reveal_strlit("sumatra");
    reveal_strlit("us");
    reveal_strlit("new");
    reveal_strlit("bangka0");
    reveal_strlit("baseline");
    reveal_strlit("cp");
    reveal_strlit("ml");
    reveal_strlit("ai");
    reveal_strlit("noop");
    reveal_strlit("none");
    reveal_strlit("idle");
    reveal_strlit("real");
    reveal_strlit("tigers");
    assert("bongka"@[1] != "bangka"@[1]);
    assert("legacy"@[0] != "bangka"@[0]);
    assert("legacy"@[0] != "bongka"@[0]);
    assert("sumatra"@[0] != "bangka1"@[0]);
    assert("sumatra"@[0] != "bangka0"@[0]);
    let l = team_kind_label_spec(k);
    lemma_plain_label(l);
}

} // verus!
