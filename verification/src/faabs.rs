//! Pieces of the robot-stack binding that do not depend on the AI: the
//! firmware status flags a simulated robot reports, and the per-task robot
//! counts shown in the viewer's strategy line.
use vstd::prelude::*;
use crate::team::{TeamColor, KickStatus};
use crate::text::{push_char, push_decimal, push_str, decimal_digits, join, join_spec, trim, trim_seq, views};

verus! {

/// `flags` with bit `bit` set.
pub fn set_bit(flags: u32, bit: u8) -> (res: u32)
    requires
        bit < 32,
    ensures
        res == flags | (1u32 << bit),
{
    flags | (1u32 << bit)
}

/// Firmware status flag: the robot has the ball (infrared barrier).
pub const FLAG_HAS_BALL: u32 = 2;
/// Firmware status flag: the flat kicker is ready.
pub const FLAG_KICK_READY: u32 = 4;
/// Firmware status flag: the chip kicker is ready.
pub const FLAG_CHIP_READY: u32 = 8;

/// The status flags a simulated robot reports to its firmware: bit 1 when
/// it has the ball, bits 2 and 3 (kick and chip ready) when it is not
/// kicking. Bit 0 (error) is never set.
pub fn robot_event_flags(infrared: bool, kick_status: KickStatus) -> (res: u32)
    ensures
        res == (if infrared {
            FLAG_HAS_BALL
        } else {
            0
        }) + (if kick_status == KickStatus::NoKick {
            FLAG_KICK_READY + FLAG_CHIP_READY
        } else {
            0
        }),
{
    let mut flags: u32 = 0;
    if infrared {
        flags = set_bit(flags, 1);
        assert(0u32 | (1u32 << 1u8) == 2) by (bit_vector);
    }
    if kick_status == KickStatus::NoKick {
        let before = flags;
        flags = set_bit(flags, 2);
        flags = set_bit(flags, 3);
        assert(before == 0 || before == 2 ==> (before | (1u32 << 2u8)) | (1u32 << 3u8) == before
            + 12) by (bit_vector);
    }
    flags
}

/// What the viewer shows about one robot of an AI-controlled team.
#[derive(Debug, Clone)]
pub struct RobotDebugInfo {
    pub team: TeamColor,
    pub id: usize,
    /// Short task label, e.g. `Attacker`, `Receiver`, `Marking`.
    pub task: String,
    /// CSS colour used by the browser viewer, preferably `#RRGGBB`.
    pub color: String,
    pub message: Option<String>,
}

/// Whether `a` sorts strictly before `b`, character by character (the
/// order of `str`).
pub open spec fn text_lt(a: Seq<char>, b: Seq<char>) -> bool
    decreases a.len(),
{
    if a.len() == 0 {
        b.len() > 0
    } else if b.len() == 0 {
        false
    } else if a[0] != b[0] {
        a[0] < b[0]
    } else {
        text_lt(a.drop_first(), b.drop_first())
    }
}

proof fn lemma_text_lt_irreflexive(a: Seq<char>)
    ensures
        !text_lt(a, a),
    decreases a.len(),
{
    if a.len() > 0 {
        lemma_text_lt_irreflexive(a.drop_first());
    }
}

proof fn lemma_text_lt_trans(a: Seq<char>, b: Seq<char>, c: Seq<char>)
    requires
        text_lt(a, b),
        text_lt(b, c),
    ensures
        text_lt(a, c),
    decreases a.len(),
{
    if a.len() > 0 && b.len() > 0 && c.len() > 0 && a[0] == b[0] && b[0] == c[0] {
        lemma_text_lt_trans(a.drop_first(), b.drop_first(), c.drop_first());
    }
}

proof fn lemma_text_lt_total(a: Seq<char>, b: Seq<char>)
    requires
        a != b,
    ensures
        text_lt(a, b) || text_lt(b, a),
    decreases a.len(),
{
    if a.len() > 0 && b.len() > 0 && a[0] == b[0] {
        if a.drop_first() == b.drop_first() {
            assert(a =~= seq![a[0]] + a.drop_first());
            assert(b =~= seq![b[0]] + b.drop_first());
        }
        lemma_text_lt_total(a.drop_first(), b.drop_first());
    } else if a.len() == 0 && b.len() == 0 {
        assert(a =~= b);
    }
}

/// See [`text_lt`].
pub fn str_lt(a: &str, b: &str) -> (res: bool)
    ensures
        res == text_lt(a@, b@),
{
    let n = a.unicode_len();
    let m = b.unicode_len();
    let mut i: usize = 0;
    while i < n && i < m && a.get_char(i) == b.get_char(i)
        invariant
            i <= n,
            i <= m,
            n == a@.len(),
            m == b@.len(),
            a@.subrange(0, i as int) == b@.subrange(0, i as int),
        decreases n - i,
    {
        proof {
            assert(a@.subrange(0, i + 1) =~= a@.subrange(0, i as int).push(a@[i as int]));
            assert(b@.subrange(0, i + 1) =~= b@.subrange(0, i as int).push(b@[i as int]));
        }
        i = i + 1;
    }
    proof {
        lemma_text_lt_common_prefix(a@, b@, i as int);
    }
    if i == n {
        i < m
    } else if i == m {
        false
    } else {
        a.get_char(i) < b.get_char(i)
    }
}

proof fn lemma_text_lt_common_prefix(a: Seq<char>, b: Seq<char>, i: int)
    requires
        0 <= i <= a.len(),
        i <= b.len(),
        a.subrange(0, i) == b.subrange(0, i),
    ensures
        text_lt(a, b) == text_lt(a.subrange(i, a.len() as int), b.subrange(i, b.len() as int)),
    decreases i,
{
    if i > 0 {
        assert(a.subrange(0, i)[0] == a[0]);
        assert(b.subrange(0, i)[0] == b[0]);
        assert(a.drop_first().subrange(0, i - 1) =~= a.subrange(0, i).drop_first());
        assert(b.drop_first().subrange(0, i - 1) =~= b.subrange(0, i).drop_first());
        lemma_text_lt_common_prefix(a.drop_first(), b.drop_first(), i - 1);
        assert(a.drop_first().subrange(i - 1, a.len() - 1) =~= a.subrange(i, a.len() as int));
        assert(b.drop_first().subrange(i - 1, b.len() - 1) =~= b.subrange(i, b.len() as int));
    } else {
        assert(a.subrange(0, a.len() as int) =~= a);
        assert(b.subrange(0, b.len() as int) =~= b);
    }
}

/// How many of `tasks` equal `t`.
pub open spec fn task_count(tasks: Seq<Seq<char>>, t: Seq<char>) -> nat
    decreases tasks.len(),
{
    if tasks.len() == 0 {
        0
    } else {
        task_count(tasks.drop_last(), t) + if tasks.last() == t {
            1nat
        } else {
            0nat
        }
    }
}

/// The task labels of a list of robots.
pub open spec fn robot_tasks(robots: Seq<RobotDebugInfo>) -> Seq<Seq<char>> {
    Seq::new(robots.len(), |i: int| robots[i].task@)
}

/// The keys of a count list.
pub open spec fn count_keys(counts: Seq<(String, usize)>) -> Seq<Seq<char>> {
    Seq::new(counts.len(), |i: int| counts[i].0@)
}

/// Task counts of `tasks`: keys strictly ascending, each key a task that
/// occurs, with its number of occurrences, and every occurring task a key.
pub open spec fn is_task_count_list(counts: Seq<(String, usize)>, tasks: Seq<Seq<char>>) -> bool {
    &&& forall|i: int, j: int|
        0 <= i < j < counts.len() ==> text_lt(#[trigger] counts[i].0@, #[trigger] counts[j].0@)
    &&& forall|i: int| 0 <= i < counts.len() ==> (#[trigger] counts[i]).1 == task_count(tasks, counts[i].0@)
        && counts[i].1 > 0
    &&& forall|k: int| 0 <= k < tasks.len() ==> count_keys(counts).contains(#[trigger] tasks[k])
}

proof fn lemma_task_count_push(tasks: Seq<Seq<char>>, x: Seq<char>, t: Seq<char>)
    ensures
        task_count(tasks.push(x), t) == task_count(tasks, t) + if x == t {
            1nat
        } else {
            0nat
        },
{
    assert(tasks.push(x).drop_last() =~= tasks);
}

proof fn lemma_task_count_absent(tasks: Seq<Seq<char>>, t: Seq<char>)
    requires
        !tasks.contains(t),
    ensures
        task_count(tasks, t) == 0,
    decreases tasks.len(),
{
    if tasks.len() > 0 {
        assert(!tasks.drop_last().contains(t)) by {
            if tasks.drop_last().contains(t) {
                let k = choose|k: int| 0 <= k < tasks.drop_last().len() && tasks.drop_last()[k] == t;
                assert(tasks[k] == t);
            }
        }
        lemma_task_count_absent(tasks.drop_last(), t);
    }
}

proof fn lemma_task_count_bound(tasks: Seq<Seq<char>>, t: Seq<char>)
    ensures
        task_count(tasks, t) <= tasks.len(),
    decreases tasks.len(),
{
    if tasks.len() > 0 {
        lemma_task_count_bound(tasks.drop_last(), t);
    }
}

/// The number of robots on each task, keyed by task in ascending order.
pub fn task_counts(robots: &Vec<RobotDebugInfo>) -> (res: Vec<(String, usize)>)
    ensures
        is_task_count_list(res@, robot_tasks(robots@)),
{
    let mut counts: Vec<(String, usize)> = Vec::new();
    let mut i: usize = 0;
    while i < robots.len()
        invariant
            i <= robots@.len(),
            is_task_count_list(counts@, robot_tasks(robots@).take(i as int)),
        decreases robots.len() - i,
    {
        let ghost done = robot_tasks(robots@).take(i as int);
        let ghost next = robot_tasks(robots@).take(i + 1);
        let task = robots[i].task.as_str();
        proof {
            assert(next =~= done.push(task@));
        }
        let mut p: usize = 0;
        while p < counts.len() && str_lt(counts[p].0.as_str(), task)
            invariant
                p <= counts@.len(),
                forall|k: int| 0 <= k < p ==> text_lt(#[trigger] counts@[k].0@, task@),
            decreases counts.len() - p,
        {
            p = p + 1;
        }
        let ghost before = counts@;
        if p < counts.len() && str_eq_text(counts[p].0.as_str(), task) {
            let n = counts[p].1;
            proof {
                lemma_task_count_bound(done, task@);
                assert(n <= i);
            }
            let key = counts[p].0.clone();
            counts.set(p, (key, n + 1));
            proof {
                assert forall|a: int, b: int|
                    0 <= a < b < counts@.len() implies text_lt(#[trigger] counts@[a].0@, #[trigger] counts@[b].0@) by {
                    assert(before[a].0@ == counts@[a].0@);
                    assert(before[b].0@ == counts@[b].0@);
                }
                assert forall|k: int| 0 <= k < counts@.len() implies (#[trigger] counts@[k]).1 == task_count(
                    next,
                    counts@[k].0@,
                ) && counts@[k].1 > 0 by {
                    lemma_task_count_push(done, task@, counts@[k].0@);
                    if k != p as int {
                        assert(counts@[k] == before[k]);
                        if before[k].0@ == task@ {
                            if k < p as int {
                                lemma_text_lt_trans(before[k].0@, before[p as int].0@, task@);
                                lemma_text_lt_irreflexive(task@);
                            } else {
                                lemma_text_lt_trans(before[p as int].0@, before[k].0@, task@);
                                lemma_text_lt_irreflexive(task@);
                            }
                        }
                    }
                }
                assert forall|k: int| 0 <= k < next.len() implies count_keys(counts@).contains(
                    #[trigger] next[k],
                ) by {
                    if k < i {
                        assert(next[k] == done[k]);
                        let w = choose|w: int| 0 <= w < count_keys(before).len() && count_keys(before)[w] == done[k];
                        assert(count_keys(counts@)[w] == done[k]);
                    } else {
                        assert(count_keys(counts@)[p as int] == next[k]);
                    }
                }
            }
        } else {
            proof {
                if p < counts@.len() {
                    lemma_text_lt_total(counts@[p as int].0@, task@);
                }
                assert(!done.contains(task@)) by {
                    if done.contains(task@) {
                        let k = choose|k: int| 0 <= k < done.len() && done[k] == task@;
                        assert(count_keys(before).contains(done[k]));
                        let w = choose|w: int| 0 <= w < count_keys(before).len() && count_keys(before)[w] == task@;
                        if w < p as int {
                            lemma_text_lt_irreflexive(task@);
                        } else if w > p as int {
                            lemma_text_lt_trans(task@, before[p as int].0@, before[w].0@);
                            lemma_text_lt_irreflexive(task@);
                        }
                    }
                }
                lemma_task_count_absent(done, task@);
                lemma_task_count_push(done, task@, task@);
            }
            let key = owned_text(task);
            counts.insert(p, (key, 1));
            proof {
                assert forall|a: int, b: int|
                    0 <= a < b < counts@.len() implies text_lt(#[trigger] counts@[a].0@, #[trigger] counts@[b].0@) by {
                    if b < p as int {
                        assert(counts@[a] == before[a] && counts@[b] == before[b]);
                    } else if b == p as int {
                        assert(counts@[a] == before[a]);
                    } else if a == p as int {
                        assert(counts@[b] == before[b - 1]);
                        if b - 1 > p as int {
                            lemma_text_lt_trans(task@, before[p as int].0@, before[b - 1].0@);
                        }
                    } else if a < p as int {
                        assert(counts@[a] == before[a] && counts@[b] == before[b - 1]);
                        if b - 1 > p as int {
                            lemma_text_lt_trans(task@, before[p as int].0@, before[b - 1].0@);
                        }
                        lemma_text_lt_trans(before[a].0@, task@, before[b - 1].0@);
                    } else {
                        assert(counts@[a] == before[a - 1] && counts@[b] == before[b - 1]);
                    }
                }
                assert forall|k: int| 0 <= k < counts@.len() implies (#[trigger] counts@[k]).1 == task_count(
                    next,
                    counts@[k].0@,
                ) && counts@[k].1 > 0 by {
                    lemma_task_count_push(done, task@, counts@[k].0@);
                    if k < p as int {
                        assert(counts@[k] == before[k]);
                        if before[k].0@ == task@ {
                            lemma_text_lt_irreflexive(task@);
                        }
                    } else if k > p as int {
                        assert(counts@[k] == before[k - 1]);
                        if before[k - 1].0@ == task@ {
                            if k - 1 > p as int {
                                lemma_text_lt_trans(task@, before[p as int].0@, before[k - 1].0@);
                            }
                            lemma_text_lt_irreflexive(task@);
                        }
                    }
                }
                assert forall|k: int| 0 <= k < next.len() implies count_keys(counts@).contains(
                    #[trigger] next[k],
                ) by {
                    if k < i {
                        assert(next[k] == done[k]);
                        let w = choose|w: int| 0 <= w < count_keys(before).len() && count_keys(before)[w] == done[k];
                        if w < p as int {
                            assert(count_keys(counts@)[w] == done[k]);
                        } else {
                            assert(count_keys(counts@)[w + 1] == done[k]);
                        }
                    } else {
                        assert(count_keys(counts@)[p as int] == next[k]);
                    }
                }
            }
        }
        i = i + 1;
    }
    proof {
        assert(robot_tasks(robots@).take(i as int) =~= robot_tasks(robots@));
    }
    counts
}

fn str_eq_text(a: &str, b: &str) -> (res: bool)
    ensures
        res == (a@ == b@),
{
    crate::text::str_eq(a, b)
}

fn owned_text(s: &str) -> (res: String)
    ensures
        res@ == s@,
{
    let mut out = String::new();
    push_str(&mut out, s);
    out
}

/// `"<task> <count>"` for each entry, joined with `", "`, or `"none"` when
/// there are no entries.
pub open spec fn task_counts_text(counts: Seq<(String, usize)>) -> Seq<char> {
    if counts.len() == 0 {
        "none"@
    } else {
        join_spec(
            Seq::new(counts.len(), |i: int| counts[i].0@ + " "@ + decimal_digits(counts[i].1 as nat)),
            ", "@,
        )
    }
}

/// See [`task_counts_text`].
pub fn format_task_counts(counts: &Vec<(String, usize)>) -> (res: String)
    ensures
        res@ == task_counts_text(counts@),
{
    if counts.len() == 0 {
        return owned_text("none");
    }
    let mut parts: Vec<String> = Vec::new();
    let mut i: usize = 0;
    while i < counts.len()
        invariant
            i <= counts@.len(),
            views(parts@) == Seq::new(i as nat, |k: int| counts@[k].0@ + " "@ + decimal_digits(counts@[k].1 as nat)),
        decreases counts.len() - i,
    {
        let mut part = String::new();
        push_str(&mut part, counts[i].0.as_str());
        push_str(&mut part, " ");
        push_decimal(&mut part, counts[i].1 as u64);
        let ghost before = views(parts@);
        proof {
            assert(part@ =~= counts@[i as int].0@ + " "@ + decimal_digits(counts@[i as int].1 as nat));
        }
        parts.push(part);
        proof {
            assert(views(parts@) =~= before.push(part@));
            assert(views(parts@) =~= Seq::new((i + 1) as nat, |k: int| counts@[k].0@ + " "@ + decimal_digits(counts@[k].1 as nat)));
        }
        i = i + 1;
    }
    join(&parts, ", ")
}

/// The robot whose feedback goes to the AI next: the robots take turns,
/// one per step.
pub fn next_feedback_robot(current: u32, robot_count: usize) -> (res: u32)
    requires
        0 < robot_count <= u32::MAX,
        current < u32::MAX,
    ensures
        res == (current + 1) % (robot_count as int),
{
    let next: u32 = current + 1;
    next % (robot_count as u32)
}

/// The team flags of the AI's game interface: `(team_color, side)` is
/// `(true, false)` for yellow and `(false, true)` for blue.
pub fn interface_team_flags(team: TeamColor) -> (res: (bool, bool))
    ensures
        res == (if team == TeamColor::Yellow {
            (true, false)
        } else {
            (false, true)
        }),
{
    match team {
        TeamColor::Yellow => (true, false),
        TeamColor::Blue => (false, true),
    }
}

/// The kind of command the AI gave a robot (its targets and powers left
/// out), as far as the viewer's label and colour depend on it.
#[derive(Debug, Clone, Copy, PartialEq, Eq, Structural)]
pub enum AiCommandKind {
    Pos,
    PosSpeed,
    PosFace,
    PosFaceSpeed,
    Kick,
    Chip,
    RecKick,
    Steal,
    Dribble,
    PosBall,
    Kickoff,
    FreeKick,
    KickGoal,
    /// A pass to the robot with this id.
    PassTo(u32),
    RecPass,
    GoalWall,
    GoalieGuard,
    Hold,
}

/// The name of an AI command kind.
pub open spec fn ai_kind_name(k: AiCommandKind) -> Seq<char> {
    match k {
        AiCommandKind::Pos => "Pos"@,
        AiCommandKind::PosSpeed => "PosSpeed"@,
        AiCommandKind::PosFace => "PosFace"@,
        AiCommandKind::PosFaceSpeed => "PosFaceSpeed"@,
        AiCommandKind::Kick => "Kick"@,
        AiCommandKind::Chip => "Chip"@,
        AiCommandKind::RecKick => "RecKick"@,
        AiCommandKind::Steal => "Steal"@,
        AiCommandKind::Dribble => "Dribble"@,
        AiCommandKind::PosBall => "PosBall"@,
        AiCommandKind::Kickoff => "Kickoff"@,
        AiCommandKind::FreeKick => "FreeKick"@,
        AiCommandKind::KickGoal => "KickGoal"@,
        AiCommandKind::PassTo(robot) => "PassTo "@ + decimal_digits(robot as nat),
        AiCommandKind::RecPass => "RecPass"@,
        AiCommandKind::GoalWall => "GoalWall"@,
        AiCommandKind::GoalieGuard => "GoalieGuard"@,
        AiCommandKind::Hold => "Hold"@,
    }
}

fn kind_name(k: AiCommandKind) -> (res: &'static str)
    requires
        !(k is PassTo),
    ensures
        res@ == ai_kind_name(k),
{
    match k {
        AiCommandKind::Pos => "Pos",
        AiCommandKind::PosSpeed => "PosSpeed",
        AiCommandKind::PosFace => "PosFace",
        AiCommandKind::PosFaceSpeed => "PosFaceSpeed",
        AiCommandKind::Kick => "Kick",
        AiCommandKind::Chip => "Chip",
        AiCommandKind::RecKick => "RecKick",
        AiCommandKind::Steal => "Steal",
        AiCommandKind::Dribble => "Dribble",
        AiCommandKind::PosBall => "PosBall",
        AiCommandKind::Kickoff => "Kickoff",
        AiCommandKind::FreeKick => "FreeKick",
        AiCommandKind::KickGoal => "KickGoal",
        AiCommandKind::PassTo(_) => "PassTo",
        AiCommandKind::RecPass => "RecPass",
        AiCommandKind::GoalWall => "GoalWall",
        AiCommandKind::GoalieGuard => "GoalieGuard",
        AiCommandKind::Hold => "Hold",
    }
}

/// The task label the viewer shows for an AI command: `AI <kind>`, with the
/// receiving robot for a pass (`AI PassTo 4`).
pub fn ai_task_label(k: AiCommandKind) -> (res: String)
    ensures
        res@ == "AI "@ + ai_kind_name(k),
{
    let mut out = String::new();
    push_str(&mut out, "AI ");
    match k {
        AiCommandKind::PassTo(robot) => {
            push_str(&mut out, "PassTo ");
            push_decimal(&mut out, robot as u64);
        },
        _ => push_str(&mut out, kind_name(k)),
    }
    proof {
        assert(out@ =~= "AI "@ + ai_kind_name(k));
    }
    out
}

/// The viewer colour of an AI command: one colour per family of commands
/// (positioning, kicking, receiving, defending, ...).
pub open spec fn ai_task_color_spec(k: AiCommandKind) -> Seq<char> {
    match k {
        AiCommandKind::Pos | AiCommandKind::PosSpeed | AiCommandKind::PosFace
        | AiCommandKind::PosFaceSpeed => "#38bdf8"@,
        AiCommandKind::Kick | AiCommandKind::KickGoal => "#ef4444"@,
        AiCommandKind::Chip => "#f97316"@,
        AiCommandKind::RecKick | AiCommandKind::RecPass => "#22c55e"@,
        AiCommandKind::Steal => "#eab308"@,
        AiCommandKind::Dribble => "#a855f7"@,
        AiCommandKind::PosBall => "#14b8a6"@,
        AiCommandKind::Kickoff => "#ec4899"@,
        AiCommandKind::FreeKick => "#f59e0b"@,
        AiCommandKind::PassTo(_) => "#0ea5e9"@,
        AiCommandKind::GoalWall | AiCommandKind::GoalieGuard => "#6366f1"@,
        AiCommandKind::Hold => "#94a3b8"@,
    }
}

/// See [`ai_task_color_spec`].
pub fn ai_task_color(k: AiCommandKind) -> (res: String)
    ensures
        res@ == ai_task_color_spec(k),
{
    let color = match k {
        AiCommandKind::Pos | AiCommandKind::PosSpeed | AiCommandKind::PosFace
        | AiCommandKind::PosFaceSpeed => "#38bdf8",
        AiCommandKind::Kick | AiCommandKind::KickGoal => "#ef4444",
        AiCommandKind::Chip => "#f97316",
        AiCommandKind::RecKick | AiCommandKind::RecPass => "#22c55e",
        AiCommandKind::Steal => "#eab308",
        AiCommandKind::Dribble => "#a855f7",
        AiCommandKind::PosBall => "#14b8a6",
        AiCommandKind::Kickoff => "#ec4899",
        AiCommandKind::FreeKick => "#f59e0b",
        AiCommandKind::PassTo(_) => "#0ea5e9",
        AiCommandKind::GoalWall | AiCommandKind::GoalieGuard => "#6366f1",
        AiCommandKind::Hold => "#94a3b8",
    };
    owned_text(color)
}

/// The robot-stack task of a command, as far as its viewer colour goes.
#[derive(Debug, Clone, Copy, PartialEq, Eq, Structural)]
pub enum StackTask {
    Pos,
    Kick,
    Chip,
    RecKick,
    Steal,
    Dribble,
    PosBall,
    Block,
    Kickoff,
    Freekick,
    /// Any other task, or a task code the stack does not know.
    Other,
}

/// The viewer colour of a robot-stack command: grey while the robot is
/// halted, else one colour per task.
pub open spec fn task_color_spec(halted: bool, task: StackTask) -> Seq<char> {
    if halted {
        "#64748b"@
    } else {
        match task {
            StackTask::Pos => "#38bdf8"@,
            StackTask::Kick => "#ef4444"@,
            StackTask::Chip => "#f97316"@,
            StackTask::RecKick => "#22c55e"@,
            StackTask::Steal => "#eab308"@,
            StackTask::Dribble => "#a855f7"@,
            StackTask::PosBall => "#14b8a6"@,
            StackTask::Block => "#6366f1"@,
            StackTask::Kickoff => "#ec4899"@,
            StackTask::Freekick => "#f59e0b"@,
            StackTask::Other => "#94a3b8"@,
        }
    }
}

/// See [`task_color_spec`].
pub fn task_color(halted: bool, task: StackTask) -> (res: String)
    ensures
        res@ == task_color_spec(halted, task),
{
    if halted {
        return owned_text("#64748b");
    }
    let color = match task {
        StackTask::Pos => "#38bdf8",
        StackTask::Kick => "#ef4444",
        StackTask::Chip => "#f97316",
        StackTask::RecKick => "#22c55e",
        StackTask::Steal => "#eab308",
        StackTask::Dribble => "#a855f7",
        StackTask::PosBall => "#14b8a6",
        StackTask::Block => "#6366f1",
        StackTask::Kickoff => "#ec4899",
        StackTask::Freekick => "#f59e0b",
        StackTask::Other => "#94a3b8",
    };
    owned_text(color)
}

/// The colour the viewer uses for a robot: the AI command's when there is
/// one, else the robot-stack command's.
pub fn debug_color(ai: Option<AiCommandKind>, halted: bool, task: StackTask) -> (res: String)
    ensures
        res@ == match ai {
            Some(k) => ai_task_color_spec(k),
            None => task_color_spec(halted, task),
        },
{
    match ai {
        Some(k) => ai_task_color(k),
        None => task_color(halted, task),
    }
}

/// The network address of a robot of the team's robot stack: robots 0 and
/// 1 share `10.0.64.101`, robot 2 is at `.102`, robot 3 at `.103`, robots
/// 4 and 5 share `.104`; other ids have no robot.
pub fn robot_stack_address(id: u32) -> (res: Option<(u8, u8, u8, u8)>)
    ensures
        res == if id <= 1 {
            Some((10u8, 0u8, 64u8, 101u8))
        } else if id == 2 {
            Some((10u8, 0u8, 64u8, 102u8))
        } else if id == 3 {
            Some((10u8, 0u8, 64u8, 103u8))
        } else if id <= 5 {
            Some((10u8, 0u8, 64u8, 104u8))
        } else {
            None
        },
{
    if id <= 1 {
        Some((10, 0, 64, 101))
    } else if id == 2 {
        Some((10, 0, 64, 102))
    } else if id == 3 {
        Some((10, 0, 64, 103))
    } else if id <= 5 {
        Some((10, 0, 64, 104))
    } else {
        None
    }
}

/// `Blue <id>` for each blue robot holding the ball, then `Yellow <id>` for
/// each yellow one.
pub open spec fn holder_labels(blue: Seq<usize>, yellow: Seq<usize>) -> Seq<Seq<char>> {
    Seq::new(blue.len(), |i: int| "Blue "@ + decimal_digits(blue[i] as nat)) + Seq::new(
        yellow.len(),
        |i: int| "Yellow "@ + decimal_digits(yellow[i] as nat),
    )
}

/// Whether `s` is in ascending text order.
pub open spec fn text_sorted(s: Seq<Seq<char>>) -> bool {
    forall|i: int, j: int| 0 <= i < j < s.len() ==> !text_lt(#[trigger] s[j], #[trigger] s[i])
}

fn holder_label(prefix: &str, id: usize) -> (res: String)
    ensures
        res@ == prefix@ + decimal_digits(id as nat),
{
    let mut out = String::new();
    push_str(&mut out, prefix);
    push_decimal(&mut out, id as u64);
    out
}

/// The robots holding the ball, as the strategy line lists them: their
/// labels (see [`holder_labels`]) in ascending text order, joined with
/// `", "`; `None` when no robot holds the ball.
pub fn ball_holders(blue: &Vec<usize>, yellow: &Vec<usize>) -> (res: Option<String>)
    ensures
        blue@.len() + yellow@.len() == 0 ==> res is None,
        blue@.len() + yellow@.len() > 0 ==> res is Some && exists|sorted: Seq<Seq<char>>|
            sorted.to_multiset() == holder_labels(blue@, yellow@).to_multiset() && text_sorted(sorted)
                && res->0@ == join_spec(sorted, ", "@),
{
    let ghost all = holder_labels(blue@, yellow@);
    let mut labels: Vec<String> = Vec::new();
    let mut i: usize = 0;
    while i < blue.len()
        invariant
            i <= blue@.len(),
            all == holder_labels(blue@, yellow@),
            views(labels@) == all.take(i as int),
        decreases blue.len() - i,
    {
        let l = holder_label("Blue ", blue[i]);
        let ghost before = views(labels@);
        labels.push(l);
        proof {
            assert(views(labels@) =~= before.push(l@));
            assert(all.take(i + 1) =~= all.take(i as int).push(all[i as int]));
        }
        i = i + 1;
    }
    let nb = blue.len();
    let mut j: usize = 0;
    while j < yellow.len()
        invariant
            j <= yellow@.len(),
            nb == blue@.len(),
            all == holder_labels(blue@, yellow@),
            views(labels@) == all.take(nb + j),
        decreases yellow.len() - j,
    {
        let l = holder_label("Yellow ", yellow[j]);
        let ghost before = views(labels@);
        labels.push(l);
        proof {
            assert(views(labels@) =~= before.push(l@));
            assert(all.take(nb + j + 1) =~= all.take(nb + j).push(all[nb + j]));
        }
        j = j + 1;
    }
    proof {
        assert(all.take(nb + j) =~= all);
    }
    if labels.len() == 0 {
        return None;
    }
    let ghost lv = views(labels@);
    let mut sorted: Vec<String> = Vec::new();
    let mut k: usize = 0;
    proof {
        assert(lv.take(0) =~= Seq::<Seq<char>>::empty());
        assert(views(sorted@) =~= Seq::<Seq<char>>::empty());
    }
    while k < labels.len()
        invariant
            k <= labels@.len(),
            lv == views(labels@),
            views(sorted@).to_multiset() == lv.take(k as int).to_multiset(),
            text_sorted(views(sorted@)),
        decreases labels.len() - k,
    {
        let x = labels[k].as_str();
        let mut p: usize = 0;
        while p < sorted.len() && !str_lt(x, sorted[p].as_str())
            invariant
                p <= sorted@.len(),
                forall|q: int| 0 <= q < p ==> !text_lt(x@, #[trigger] views(sorted@)[q]),
            decreases sorted.len() - p,
        {
            p = p + 1;
        }
        let ghost before = views(sorted@);
        let item = owned_text(x);
        sorted.insert(p, item);
        proof {
            assert(views(sorted@) =~= before.insert(p as int, x@));
            vstd::seq_lib::to_multiset_insert(before, p as int, x@);
            assert(lv.take(k + 1) =~= lv.take(k as int).push(x@));
            vstd::seq_lib::to_multiset_build(lv.take(k as int), x@);
            let now = views(sorted@);
            assert forall|a: int, b: int| 0 <= a < b < now.len() implies !text_lt(#[trigger] now[b], #[trigger] now[a]) by {
                if b < p as int {
                    assert(now[a] == before[a] && now[b] == before[b]);
                } else if b == p as int {
                    assert(now[a] == before[a]);
                } else if a == p as int {
                    assert(now[b] == before[b - 1]);
                    if b - 1 > p as int {
                        if before[b - 1] != before[p as int] {
                            lemma_text_lt_total(before[b - 1], before[p as int]);
                            lemma_text_lt_trans(x@, before[p as int], before[b - 1]);
                        }
                    }
                    if text_lt(before[b - 1], x@) {
                        lemma_text_lt_trans(before[b - 1], x@, before[b - 1]);
                        lemma_text_lt_irreflexive(before[b - 1]);
                    }
                } else if a < p as int {
                    assert(now[a] == before[a] && now[b] == before[b - 1]);
                    if text_lt(before[b - 1], before[a]) {
                        if before[b - 1] != before[p as int] {
                            lemma_text_lt_total(before[b - 1], before[p as int]);
                            lemma_text_lt_trans(x@, before[p as int], before[b - 1]);
                        }
                        lemma_text_lt_trans(x@, before[b - 1], before[a]);
                    }
                } else {
                    assert(now[a] == before[a - 1] && now[b] == before[b - 1]);
                }
            }
        }
        k = k + 1;
    }
    proof {
        assert(lv.take(k as int) =~= lv);
    }
    Some(join(&sorted, ", "))
}

/// The viewer's strategy line for a team driven through the robot stack:
/// how many robots were commanded out of the active ones, the task counts,
/// the ball (as printed by the caller), the ball holders and the referee
/// command, followed by the AI's own debug text when it has any (trimmed).
pub open spec fn strategy_message_spec(
    team: TeamColor,
    commanded: usize,
    active: usize,
    tasks: Seq<char>,
    ball: Seq<char>,
    holders: Option<Seq<char>>,
    referee_command: Option<i32>,
    ai_debug: Option<Seq<char>>,
) -> Seq<char> {
    let team_text = match team {
        TeamColor::Blue => "Blue"@,
        TeamColor::Yellow => "Yellow"@,
    };
    let referee = match referee_command {
        Some(c) => "referee="@ + signed_digits(c as int),
        None => "referee=none"@,
    };
    let summary = "FAABS "@ + team_text + ": commanded "@ + decimal_digits(commanded as nat) + "/"@
        + decimal_digits(active as nat) + " active robots | tasks: "@ + tasks + " | "@ + ball
        + " | holders: "@ + match holders {
        Some(h) => h,
        None => "none"@,
    } + " | "@ + referee;
    match ai_debug {
        Some(d) => if trim_seq(d).len() > 0 {
            summary + " | ai: "@ + trim_seq(d)
        } else {
            summary
        },
        None => summary,
    }
}

/// An integer as `Display` prints it: a minus sign for negative values.
pub open spec fn signed_digits(n: int) -> Seq<char> {
    if n < 0 {
        seq!['-'] + decimal_digits((-n) as nat)
    } else {
        decimal_digits(n as nat)
    }
}

fn push_i32(out: &mut String, n: i32)
    ensures
        final(out)@ == old(out)@ + signed_digits(n as int),
{
    if n < 0 {
        push_char(out, '-');
        let m: u64 = if n == i32::MIN {
            2147483648u64
        } else {
            (-n) as u64
        };
        push_decimal(out, m);
    } else {
        push_decimal(out, n as u64);
    }
    proof {
        assert(final(out)@ =~= old(out)@ + signed_digits(n as int));
    }
}

/// See [`strategy_message_spec`].
pub fn strategy_message(
    team: TeamColor,
    commanded: usize,
    active: usize,
    tasks: &str,
    ball: &str,
    holders: Option<&str>,
    referee_command: Option<i32>,
    ai_debug: Option<&str>,
) -> (res: String)
    ensures
        res@ == strategy_message_spec(
            team,
            commanded,
            active,
            tasks@,
            ball@,
            match holders {
                Some(h) => Some(h@),
                None => None,
            },
            referee_command,
            match ai_debug {
                Some(d) => Some(d@),
                None => None,
            },
        ),
{
    let mut out = String::new();
    push_str(&mut out, "FAABS ");
    match team {
        TeamColor::Blue => push_str(&mut out, "Blue"),
        TeamColor::Yellow => push_str(&mut out, "Yellow"),
    }
    push_str(&mut out, ": commanded ");
    push_decimal(&mut out, commanded as u64);
    push_str(&mut out, "/");
    push_decimal(&mut out, active as u64);
    push_str(&mut out, " active robots | tasks: ");
    push_str(&mut out, tasks);
    push_str(&mut out, " | ");
    push_str(&mut out, ball);
    push_str(&mut out, " | holders: ");
    match holders {
        Some(h) => push_str(&mut out, h),
        None => push_str(&mut out, "none"),
    }
    push_str(&mut out, " | ");
    match referee_command {
        Some(c) => {
            push_str(&mut out, "referee=");
            push_i32(&mut out, c);
        },
        None => push_str(&mut out, "referee=none"),
    }
    match ai_debug {
        Some(d) => {
            let t = trim(d);
            if t.unicode_len() > 0 {
                push_str(&mut out, " | ai: ");
                push_str(&mut out, t);
            }
        },
        None => {},
    }
    out
}

} // verus!
