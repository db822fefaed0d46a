//! State of the browser viewer that does not touch the network: which worlds
//! are selected, web run control, goal and game-state counters, the client
//! message protocol, and the page served to the browser.
use vstd::prelude::*;
use crate::text::{
    eq_ignore_ascii_case, ascii_lower_seq, find_str, occurs_at, parse_usize, parse_usize_spec,
    push_decimal, push_str, decimal_digits, split_once_char, split_once_spec, str_eq, strip_prefix, trim,
    trim_seq,
};

verus! {

/// The websocket listens one port above the HTTP port (saturating).
pub fn websocket_port(http_port: u16) -> (res: u16)
    ensures
        res == (if http_port < u16::MAX {
            (http_port + 1) as u16
        } else {
            u16::MAX
        }),
{
    http_port.saturating_add(1)
}

/// The address the viewer listens on, as far as its printed URL depends on
/// it: the unspecified IPv4 or IPv6 address, or another host given by its
/// printed form.
#[derive(Debug, Clone)]
pub enum ViewerHost {
    UnspecifiedV4,
    UnspecifiedV6,
    Other(String),
}

/// Where the viewer serves its page.
#[derive(Debug, Clone)]
pub struct ViewerConfig {
    pub host: ViewerHost,
    pub http_port: u16,
}

impl ViewerConfig {
    /// All IPv4 interfaces, port 8315.
    pub fn new() -> (res: ViewerConfig)
        ensures
            res.host is UnspecifiedV4,
            res.http_port == 8315,
    {
        ViewerConfig { host: ViewerHost::UnspecifiedV4, http_port: 8315 }
    }

    /// The URL to open in a browser: the loopback address stands in for an
    /// unspecified host.
    pub fn http_url(&self) -> (res: String)
        ensures
            res@ == "http://"@ + match self.host {
                ViewerHost::UnspecifiedV4 => "127.0.0.1"@,
                ViewerHost::UnspecifiedV6 => "[::1]"@,
                ViewerHost::Other(h) => h@,
            } + ":"@ + decimal_digits(self.http_port as nat),
    {
        let mut out = String::new();
        push_str(&mut out, "http://");
        match &self.host {
            ViewerHost::UnspecifiedV4 => push_str(&mut out, "127.0.0.1"),
            ViewerHost::UnspecifiedV6 => push_str(&mut out, "[::1]"),
            ViewerHost::Other(h) => push_str(&mut out, h.as_str()),
        }
        push_str(&mut out, ":");
        push_decimal(&mut out, self.http_port as u64);
        out
    }

    /// The websocket port, one above the HTTP port.
    pub fn websocket_port(&self) -> (res: u16)
        ensures
            res == (if self.http_port < u16::MAX {
                (self.http_port + 1) as u16
            } else {
                u16::MAX
            }),
    {
        websocket_port(self.http_port)
    }
}

/// Game-state info pushed to the viewer alongside world state.
#[derive(Debug, Clone)]
pub struct GameStateInfo {
    /// Current command, in UPPER_SNAKE_CASE (e.g. `FORCE_START`).
    pub command: String,
    /// Monotonic command counter from the game controller.
    pub command_counter: u32,
    /// Optional stage label, e.g. `NORMAL_FIRST_HALF`.
    pub stage: Option<String>,
    pub blue_name: Option<String>,
    pub yellow_name: Option<String>,
}

/// Number of times each command was entered, keyed by command name.
pub open spec fn counts_map(counts: Seq<(String, u32)>) -> Map<Seq<char>, u32>
    decreases counts.len(),
{
    if counts.len() == 0 {
        Map::empty()
    } else {
        counts_map(counts.drop_last()).insert(counts.last().0@, counts.last().1)
    }
}

/// Whether no command name appears twice.
pub open spec fn keys_unique(counts: Seq<(String, u32)>) -> bool {
    forall|i: int, j: int|
        0 <= i < j < counts.len() ==> (#[trigger] counts[i]).0@ != (#[trigger] counts[j]).0@
}

/// Accumulates how often each game state was entered.
pub struct GameStateTracker {
    pub info: Option<GameStateInfo>,
    pub counts: Vec<(String, u32)>,
    pub last_command: Option<String>,
    pub last_counter: Option<u32>,
}

/// How many times `command` has been entered, per `counts`.
pub open spec fn count_of(counts: Seq<(String, u32)>, command: Seq<char>) -> u32 {
    if counts_map(counts).contains_key(command) {
        counts_map(counts)[command]
    } else {
        0
    }
}

proof fn lemma_counts_map_index(counts: Seq<(String, u32)>, i: int)
    requires
        keys_unique(counts),
        0 <= i < counts.len(),
    ensures
        counts_map(counts).contains_key(counts[i].0@),
        counts_map(counts)[counts[i].0@] == counts[i].1,
    decreases counts.len(),
{
    if i < counts.len() - 1 {
        let d = counts.drop_last();
        assert(d[i] == counts[i]);
        assert(keys_unique(d));
        lemma_counts_map_index(d, i);
        assert(counts.last().0@ != counts[i].0@);
    }
}

proof fn lemma_counts_map_absent(counts: Seq<(String, u32)>, key: Seq<char>)
    requires
        forall|i: int| 0 <= i < counts.len() ==> (#[trigger] counts[i]).0@ != key,
    ensures
        !counts_map(counts).contains_key(key),
    decreases counts.len(),
{
    if counts.len() > 0 {
        let d = counts.drop_last();
        assert forall|i: int| 0 <= i < d.len() implies (#[trigger] d[i]).0@ != key by {
            assert(d[i] == counts[i]);
        }
        lemma_counts_map_absent(d, key);
    }
}

proof fn lemma_counts_map_update(counts: Seq<(String, u32)>, i: int, entry: (String, u32))
    requires
        keys_unique(counts),
        0 <= i < counts.len(),
        entry.0@ == counts[i].0@,
    ensures
        keys_unique(counts.update(i, entry)),
        counts_map(counts.update(i, entry)) == counts_map(counts).insert(entry.0@, entry.1),
    decreases counts.len(),
{
    let u = counts.update(i, entry);
    assert forall|a: int, b: int| 0 <= a < b < u.len() implies (#[trigger] u[a]).0@ != (#[trigger] u[b]).0@ by {
        assert(counts[a].0@ != counts[b].0@);
    }
    if i == counts.len() - 1 {
        assert(u.drop_last() =~= counts.drop_last());
        assert(counts_map(counts.drop_last()).insert(entry.0@, entry.1) =~= counts_map(counts).insert(
            entry.0@,
            entry.1,
        ));
    } else {
        let d = counts.drop_last();
        assert(keys_unique(d));
        assert(u.drop_last() =~= d.update(i, entry));
        lemma_counts_map_update(d, i, entry);
        assert(counts.last().0@ != entry.0@);
        assert(counts_map(u) =~= counts_map(counts).insert(entry.0@, entry.1));
    }
}

impl GameStateTracker {
    /// A tracker that has seen no game state.
    pub fn new() -> (res: GameStateTracker)
        ensures
            res.info is None,
            res.counts@.len() == 0,
            res.last_command is None,
            res.last_counter is None,
    {
        GameStateTracker { info: None, counts: Vec::new(), last_command: None, last_counter: None }
    }

    /// Whether no command name is counted twice.
    pub open spec fn wf(&self) -> bool {
        keys_unique(self.counts@)
    }

    /// Records a referee snapshot: the command's count goes up when the
    /// command differs from the previous one or the counter moved (always for
    /// the first snapshot).
    pub fn update(&mut self, info: GameStateInfo)
        requires
            old(self).wf(),
            count_of(old(self).counts@, info.command@) < u32::MAX,
        ensures
            final(self).wf(),
            ({
                let changed = match old(self).last_command {
                    Some(c) => c@ != info.command@,
                    None => true,
                } || match old(self).last_counter {
                    Some(p) => p != info.command_counter,
                    None => true,
                };
                counts_map(final(self).counts@) == if changed {
                    counts_map(old(self).counts@).insert(
                        info.command@,
                        (count_of(old(self).counts@, info.command@) + 1) as u32,
                    )
                } else {
                    counts_map(old(self).counts@)
                }
            }),
            final(self).last_command is Some,
            final(self).last_command->0@ == info.command@,
            final(self).last_counter == Some(info.command_counter),
            final(self).info == Some(info),
    {
        let command_changed = match &self.last_command {
            Some(c) => !str_eq(c.as_str(), info.command.as_str()),
            None => true,
        };
        let counter_advanced = match self.last_counter {
            Some(previous) => info.command_counter != previous,
            None => true,
        };
        if command_changed || counter_advanced {
            let mut i: usize = 0;
            let mut found = false;
            while i < self.counts.len() && !found
                invariant
                    i <= self.counts@.len(),
                    self.counts@ == old(self).counts@,
                    !found ==> forall|j: int| 0 <= j < i ==> (#[trigger] self.counts@[j]).0@ != info.command@,
                    found ==> i >= 1 && self.counts@[i - 1].0@ == info.command@,
                decreases self.counts.len() - i,
            {
                if str_eq(self.counts[i].0.as_str(), info.command.as_str()) {
                    found = true;
                }
                i = i + 1;
            }
            if found {
                let k = i - 1;
                proof {
                    lemma_counts_map_index(self.counts@, k as int);
                }
                let n = self.counts[k].1;
                let key = self.counts[k].0.clone();
                proof {
                    lemma_counts_map_update(self.counts@, k as int, (key, (n + 1) as u32));
                }
                self.counts.set(k, (key, n + 1));
            } else {
                proof {
                    lemma_counts_map_absent(self.counts@, info.command@);
                }
                let ghost before = self.counts@;
                self.counts.push((info.command.clone(), 1));
                proof {
                    assert(self.counts@.drop_last() =~= before);
                    assert forall|a: int, b: int|
                        0 <= a < b < self.counts@.len() implies (#[trigger] self.counts@[a]).0@
                        != (#[trigger] self.counts@[b]).0@ by {
                        if b == self.counts@.len() - 1 {
                            assert(before[a].0@ != info.command@);
                        } else {
                            assert(before[a].0@ != before[b].0@);
                        }
                    }
                }
            }
        }
        self.last_command = Some(info.command.clone());
        self.last_counter = Some(info.command_counter);
        self.info = Some(info);
    }
}

/// What the viewer publishes of the game state: the latest info and the
/// per-command counts, borrowed from the tracker.
#[derive(Debug, Clone, Copy)]
pub struct PublishedGameState<'a> {
    pub command: &'a str,
    pub command_counter: u32,
    pub stage: Option<&'a str>,
    pub blue_name: Option<&'a str>,
    pub yellow_name: Option<&'a str>,
    pub state_counts: &'a Vec<(String, u32)>,
}

/// The view of an optional borrowed string.
pub open spec fn opt_str_view(o: Option<&str>) -> Option<Seq<char>> {
    match o {
        Some(s) => Some(s@),
        None => None,
    }
}

/// The view of an optional owned string.
pub open spec fn opt_string_view(o: Option<String>) -> Option<Seq<char>> {
    match o {
        Some(s) => Some(s@),
        None => None,
    }
}

fn borrow_opt(o: &Option<String>) -> (res: Option<&str>)
    ensures
        opt_str_view(res) == opt_string_view(*o),
{
    match o {
        Some(s) => Some(s.as_str()),
        None => None,
    }
}

impl GameStateTracker {
    /// The state to publish: nothing before the first update, else the
    /// latest info with the counts so far.
    pub fn snapshot(&self) -> (res: Option<PublishedGameState<'_>>)
        ensures
            self.info is None ==> res is None,
            self.info is Some ==> res is Some && {
                let info = self.info->0;
                let p = res->0;
                &&& p.command@ == info.command@
                &&& p.command_counter == info.command_counter
                &&& opt_str_view(p.stage) == opt_string_view(info.stage)
                &&& opt_str_view(p.blue_name) == opt_string_view(info.blue_name)
                &&& opt_str_view(p.yellow_name) == opt_string_view(info.yellow_name)
                &&& p.state_counts@ == self.counts@
            },
    {
        match &self.info {
            Some(info) => Some(
                PublishedGameState {
                    command: info.command.as_str(),
                    command_counter: info.command_counter,
                    stage: borrow_opt(&info.stage),
                    blue_name: borrow_opt(&info.blue_name),
                    yellow_name: borrow_opt(&info.yellow_name),
                    state_counts: &self.counts,
                },
            ),
            None => None,
        }
    }
}

/// Goals seen by the viewer: rising edges of each team's goal flag.
pub struct GoalTracker {
    pub blue: u32,
    pub yellow: u32,
    pub last_blue: bool,
    pub last_yellow: bool,
}

impl GoalTracker {
    /// No goals seen.
    pub fn new() -> (res: GoalTracker)
        ensures
            res.blue == 0 && res.yellow == 0 && !res.last_blue && !res.last_yellow,
    {
        GoalTracker { blue: 0, yellow: 0, last_blue: false, last_yellow: false }
    }

    /// Counts a goal for each flag that is up now and was down before.
    pub fn observe(&mut self, goal_blue: bool, goal_yellow: bool)
        requires
            goal_blue && !old(self).last_blue ==> old(self).blue < u32::MAX,
            goal_yellow && !old(self).last_yellow ==> old(self).yellow < u32::MAX,
        ensures
            final(self).blue == old(self).blue + if goal_blue && !old(self).last_blue {
                1int
            } else {
                0int
            },
            final(self).yellow == old(self).yellow + if goal_yellow && !old(self).last_yellow {
                1int
            } else {
                0int
            },
            final(self).last_blue == goal_blue,
            final(self).last_yellow == goal_yellow,
    {
        if goal_blue && !self.last_blue {
            self.blue = self.blue + 1;
        }
        if goal_yellow && !self.last_yellow {
            self.yellow = self.yellow + 1;
        }
        self.last_blue = goal_blue;
        self.last_yellow = goal_yellow;
    }
}

/// Web-driven run control.
#[derive(Debug, Clone, Copy, PartialEq, Eq, Structural)]
pub struct WebControl {
    pub enabled: bool,
    pub running: bool,
    pub restart_requested: bool,
    pub stop_requested: bool,
    pub speed_percent: usize,
}

impl WebControl {
    /// Control as a freshly bound viewer has it: web control off, running,
    /// at full speed.
    pub fn new() -> (res: WebControl)
        ensures
            res == (WebControl {
                enabled: false,
                running: true,
                restart_requested: false,
                stop_requested: false,
                speed_percent: 100,
            }),
    {
        WebControl {
            enabled: false,
            running: true,
            restart_requested: false,
            stop_requested: false,
            speed_percent: 100,
        }
    }

    /// Opts in to web control: stopped, no pending requests, full speed.
    pub fn enable_web_control(&mut self)
        ensures
            *final(self) == (WebControl {
                enabled: true,
                running: false,
                restart_requested: false,
                stop_requested: false,
                speed_percent: 100,
            }),
    {
        self.enabled = true;
        self.running = false;
        self.restart_requested = false;
        self.stop_requested = false;
        self.speed_percent = 100;
    }

    /// Returns a pending restart request once, clearing it.
    pub fn take_restart_request(&mut self) -> (res: bool)
        ensures
            res == old(self).restart_requested,
            *final(self) == (WebControl { restart_requested: false, ..*old(self) }),
    {
        let r = self.restart_requested;
        self.restart_requested = false;
        r
    }

    /// Returns a pending stop request once, clearing it.
    pub fn take_stop_request(&mut self) -> (res: bool)
        ensures
            res == old(self).stop_requested,
            *final(self) == (WebControl { stop_requested: false, ..*old(self) }),
    {
        let r = self.stop_requested;
        self.stop_requested = false;
        r
    }
}

/// Which worlds the viewer shows.
#[derive(Debug, Clone)]
pub struct WorldSelection {
    pub selected_world: usize,
    /// Empty means all worlds.
    pub selected_worlds: Vec<usize>,
}

/// `index` clamped to the last world (world 0 when there are none).
pub open spec fn clamp_world(index: usize, world_count: usize) -> usize {
    let last = if world_count >= 1 {
        (world_count - 1) as usize
    } else {
        0
    };
    if index < last {
        index
    } else {
        last
    }
}

impl WorldSelection {
    /// World 0 selected.
    pub fn new() -> (res: WorldSelection)
        ensures
            res.selected_world == 0,
            res.selected_worlds@ == seq![0usize],
    {
        let mut worlds = Vec::new();
        worlds.push(0);
        WorldSelection { selected_world: 0, selected_worlds: worlds }
    }

    /// The primary selected world, clamped to the worlds that exist.
    pub fn selected_world(&self, world_count: usize) -> (res: usize)
        ensures
            res == clamp_world(self.selected_world, world_count),
    {
        let last = world_count.saturating_sub(1);
        if self.selected_world < last {
            self.selected_world
        } else {
            last
        }
    }

    /// Selects one world, clamped to the worlds that exist.
    pub fn select_world(&mut self, index: usize, world_count: usize)
        ensures
            final(self).selected_world == clamp_world(index, world_count),
            final(self).selected_worlds@ == seq![clamp_world(index, world_count)],
    {
        let last = world_count.saturating_sub(1);
        let index = if index < last {
            index
        } else {
            last
        };
        self.selected_world = index;
        let mut worlds = Vec::new();
        worlds.push(index);
        self.selected_worlds = worlds;
    }

    /// The worlds to show: every world when the selection is empty, else the
    /// selected worlds that exist; world 0 when that leaves nothing.
    pub fn selected_worlds(&self, world_count: usize) -> (res: Vec<usize>)
        ensures
            ({
                let base = if self.selected_worlds@.len() == 0 {
                    Seq::new(world_count as nat, |i: int| i as usize)
                } else {
                    self.selected_worlds@.filter(|w: usize| w < world_count)
                };
                res@ == if base.len() == 0 {
                    seq![0usize]
                } else {
                    base
                }
            }),
    {
        let mut worlds: Vec<usize> = Vec::new();
        if self.selected_worlds.len() == 0 {
            let mut i: usize = 0;
            while i < world_count
                invariant
                    i <= world_count,
                    worlds@ == Seq::new(i as nat, |k: int| k as usize),
                decreases world_count - i,
            {
                worlds.push(i);
                assert(worlds@ =~= Seq::new((i + 1) as nat, |k: int| k as usize));
                i = i + 1;
            }
        } else {
            let ghost sel = self.selected_worlds@;
            let mut i: usize = 0;
            while i < self.selected_worlds.len()
                invariant
                    i <= sel.len(),
                    sel == self.selected_worlds@,
                    worlds@ == sel.take(i as int).filter(|w: usize| w < world_count),
                decreases sel.len() - i,
            {
                let w = self.selected_worlds[i];
                proof {
                    assert(sel.take(i + 1).drop_last() =~= sel.take(i as int));
                    reveal(Seq::filter);
                }
                if w < world_count {
                    worlds.push(w);
                }
                i = i + 1;
            }
            assert(sel.take(i as int) =~= sel);
        }
        if worlds.len() == 0 {
            worlds.push(0);
            assert(worlds@ =~= seq![0usize]);
        }
        worlds
    }
}

/// Index of the state to show among states with the given world ids: the
/// state of the selected world, else the state at the selected position,
/// else the first; `None` when there are no states.
pub fn selected_state_index(world_ids: &Vec<usize>, selected_world: usize) -> (res: Option<usize>)
    ensures
        world_ids@.len() == 0 ==> res is None,
        world_ids@.len() > 0 ==> res is Some && res->0 < world_ids@.len(),
        world_ids@.contains(selected_world) ==> res is Some && world_ids@[res->0 as int]
            == selected_world && forall|k: int| 0 <= k < res->0 ==> world_ids@[k] != selected_world,
        !world_ids@.contains(selected_world) && selected_world < world_ids@.len() ==> res == Some(
            selected_world,
        ),
        !world_ids@.contains(selected_world) && selected_world >= world_ids@.len()
            && world_ids@.len() > 0 ==> res == Some(0usize),
{
    if world_ids.len() == 0 {
        return None;
    }
    let mut i: usize = 0;
    while i < world_ids.len()
        invariant
            i <= world_ids@.len(),
            forall|k: int| 0 <= k < i ==> world_ids@[k] != selected_world,
        decreases world_ids.len() - i,
    {
        if world_ids[i] == selected_world {
            return Some(i);
        }
        i = i + 1;
    }
    if selected_world < world_ids.len() {
        Some(selected_world)
    } else {
        Some(0)
    }
}

/// Whether `s` is strictly increasing.
pub open spec fn strictly_increasing(s: Seq<usize>) -> bool {
    forall|i: int, j: int| 0 <= i < j < s.len() ==> s[i] < s[j]
}

proof fn lemma_insert_keeps_increasing(before: Seq<usize>, p: int, v: usize)
    requires
        strictly_increasing(before),
        0 <= p <= before.len(),
        forall|k: int| 0 <= k < p ==> before[k] < v,
        p < before.len() ==> before[p] > v,
    ensures
        strictly_increasing(before.insert(p, v)),
{
    let out = before.insert(p, v);
    assert forall|a: int, b: int| 0 <= a < b < out.len() implies out[a] < out[b] by {
        if b < p {
            assert(out[a] == before[a] && out[b] == before[b]);
        } else if a < p && b == p {
            assert(out[a] == before[a]);
        } else if a < p {
            assert(out[a] == before[a] && out[b] == before[b - 1]);
            assert(before[a] < v);
            assert(before[p] > v);
        } else if a == p {
            assert(out[b] == before[b - 1]);
            if b - 1 > p {
                assert(before[b - 1] > before[p]);
            }
        } else {
            assert(out[a] == before[a - 1] && out[b] == before[b - 1]);
        }
    }
}

/// `values` sorted ascending with duplicates removed.
pub fn sort_dedup(values: &Vec<usize>) -> (res: Vec<usize>)
    ensures
        strictly_increasing(res@),
        forall|x: usize| res@.contains(x) <==> values@.contains(x),
{
    let mut out: Vec<usize> = Vec::new();
    let mut i: usize = 0;
    while i < values.len()
        invariant
            i <= values@.len(),
            strictly_increasing(out@),
            forall|x: usize| out@.contains(x) <==> values@.take(i as int).contains(x),
        decreases values.len() - i,
    {
        let v = values[i];
        let mut p: usize = 0;
        while p < out.len() && out[p] < v
            invariant
                p <= out@.len(),
                forall|k: int| 0 <= k < p ==> out@[k] < v,
                strictly_increasing(out@),
                i < values@.len(),
                v == values@[i as int],
                forall|x: usize| out@.contains(x) <==> values@.take(i as int).contains(x),
            decreases out.len() - p,
        {
            p = p + 1;
        }
        let ghost before = out@;
        if p < out.len() && out[p] == v {
        } else {
            out.insert(p, v);
            proof {
                lemma_insert_keeps_increasing(before, p as int, v);
            }
        }
        proof {
            assert(values@.take(i + 1) =~= values@.take(i as int).push(v));
            assert forall|x: usize| out@.contains(x) <==> values@.take(i + 1).contains(x) by {
                if out@.contains(x) {
                    let w = choose|w: int| 0 <= w < out@.len() && #[trigger] out@[w] == x;
                    if x != v {
                        if w < p as int {
                            assert(before[w] == x);
                        } else if out@.len() == before.len() {
                            assert(before[w] == x);
                        } else if w > p as int {
                            assert(before[w - 1] == x);
                        }
                        assert(before.contains(x));
                        let u = choose|u: int|
                            0 <= u < values@.take(i as int).len() && #[trigger] values@.take(i as int)[u] == x;
                        assert(values@.take(i + 1)[u] == x);
                    } else {
                        assert(values@.take(i + 1)[i as int] == v);
                    }
                }
                if values@.take(i + 1).contains(x) {
                    if x == v {
                        if out@.len() == before.len() {
                            assert(out@[p as int] == v);
                        } else {
                            assert(out@[p as int] == v);
                        }
                    } else {
                        let u = choose|u: int|
                            0 <= u < values@.take(i + 1).len() && #[trigger] values@.take(i + 1)[u] == x;
                        assert(values@.take(i as int)[u] == x);
                        assert(before.contains(x));
                        let w = choose|w: int| 0 <= w < before.len() && #[trigger] before[w] == x;
                        if out@.len() == before.len() {
                            assert(out@[w] == x);
                        } else if w < p as int {
                            assert(out@[w] == x);
                        } else {
                            assert(out@[w + 1] == x);
                        }
                    }
                }
            }
        }
        i = i + 1;
    }
    assert(values@.take(i as int) =~= values@);
    out
}

/// `s` split at every `c` (`str::split`).
pub open spec fn split_spec(s: Seq<char>, c: char) -> Seq<Seq<char>>
    decreases s.len(),
{
    match split_once_spec(s, c).1 {
        None => seq![s],
        Some(rest) => if rest.len() < s.len() {
            seq![split_once_spec(s, c).0] + split_spec(rest, c)
        } else {
            seq![s]
        },
    }
}

/// World indices named by a comma-separated list, sorted, without
/// duplicates; parts that are not a number are skipped, and `all` (any
/// case) gives the empty list, meaning every world.
pub open spec fn world_selection_spec(value: Seq<char>, x: usize) -> bool {
    let v = trim_seq(value);
    ascii_lower_seq(v) != "all"@ && exists|k: int|
        0 <= k < split_spec(v, ',').len() && parse_usize_spec(trim_seq(#[trigger] split_spec(v, ',')[k]))
            == Some(x)
}

proof fn lemma_split_once_shorter(s: Seq<char>, c: char)
    ensures
        split_once_spec(s, c).1 matches Some(rest) ==> rest.len() < s.len() && split_once_spec(
            s,
            c,
        ).0.len() + 1 + rest.len() == s.len(),
        split_once_spec(s, c).1 is None ==> split_once_spec(s, c).0 == s,
    decreases s.len(),
{
    if s.len() > 0 && s[0] != c {
        lemma_split_once_shorter(s.drop_first(), c);
    }
}

/// Parses a world selection such as `"3, 1,3"` into `[1, 3]`.
pub fn parse_world_selection(value: &str) -> (res: Vec<usize>)
    ensures
        strictly_increasing(res@),
        forall|x: usize| res@.contains(x) <==> world_selection_spec(value@, x),
        ascii_lower_seq(trim_seq(value@)) == "all"@ ==> res@.len() == 0,
{
    let v = trim(value);
    proof {
        reveal_strlit("all");
        assert(ascii_lower_seq("all"@) =~= "all"@);
    }
    if eq_ignore_ascii_case(v, "all") {
        return Vec::new();
    }
    let mut worlds: Vec<usize> = Vec::new();
    let mut rest: &str = v;
    let ghost parts = split_spec(v@, ',');
    let ghost mut done: int = 0;
    let mut more = true;
    while more
        invariant
            0 <= done <= parts.len(),
            parts == split_spec(v@, ','),
            more ==> split_spec(rest@, ',') == parts.subrange(done, parts.len() as int),
            !more ==> done == parts.len(),
            forall|x: usize| worlds@.contains(x) <==> exists|k: int|
                0 <= k < done && parse_usize_spec(trim_seq(#[trigger] parts[k])) == Some(x),
        decreases (if more {
            rest@.len() + 1
        } else {
            0
        }),
    {
        let (part, tail) = split_once_char(rest, ',');
        proof {
            lemma_split_once_shorter(rest@, ',');
        }
        let ghost k = done;
        let ghost whole = split_spec(rest@, ',');
        proof {
            assert(whole[0] == part@);
            assert(whole.len() >= 1);
            assert(whole == parts.subrange(k, parts.len() as int));
            assert(whole[0] == parts[k]);
        }
        let before = worlds.len();
        let ghost wb = worlds@;
        match parse_usize(trim(part)) {
            Some(x) => {
                worlds.push(x);
            },
            None => {},
        }
        proof {
            done = done + 1;
            assert forall|x: usize| worlds@.contains(x) <==> exists|j: int|
                0 <= j < done && parse_usize_spec(trim_seq(#[trigger] parts[j])) == Some(x) by {
                if worlds@.contains(x) {
                    let w = choose|w: int| 0 <= w < worlds@.len() && worlds@[w] == x;
                    if w < wb.len() {
                        assert(wb[w] == x);
                        assert(wb.contains(x));
                    } else {
                        assert(parse_usize_spec(trim_seq(parts[k])) == Some(x));
                    }
                }
                if exists|j: int| 0 <= j < done && parse_usize_spec(trim_seq(#[trigger] parts[j])) == Some(x) {
                    let j = choose|j: int| 0 <= j < done && parse_usize_spec(trim_seq(#[trigger] parts[j])) == Some(x);
                    if j < k {
                        assert(wb.contains(x));
                        let w = choose|w: int| 0 <= w < wb.len() && wb[w] == x;
                        assert(worlds@[w] == x);
                    } else {
                        assert(worlds@[wb.len() as int] == x);
                    }
                }
            }
        }
        match tail {
            Some(t) => {
                proof {
                    assert(whole == seq![part@] + split_spec(t@, ','));
                    assert(split_spec(t@, ',') =~= whole.subrange(1, whole.len() as int));
                    assert(whole.subrange(1, whole.len() as int) =~= parts.subrange(done, parts.len() as int));
                }
                rest = t;
            },
            None => {
                proof {
                    assert(split_spec(rest@, ',') == seq![rest@]);
                    assert(parts.subrange(k, parts.len() as int).len() == 1);
                }
                more = false;
            },
        }
    }
    let sorted = sort_dedup(&worlds);
    proof {
        assert forall|x: usize| sorted@.contains(x) <==> world_selection_spec(value@, x) by {
            if sorted@.contains(x) {
                let k = choose|k: int| 0 <= k < parts.len() && parse_usize_spec(trim_seq(#[trigger] parts[k])) == Some(x);
                assert(split_spec(v@, ',')[k] == parts[k]);
            }
            if world_selection_spec(value@, x) {
                let k = choose|k: int|
                    0 <= k < split_spec(v@, ',').len() && parse_usize_spec(trim_seq(#[trigger] split_spec(v@, ',')[k]))
                        == Some(x);
                assert(worlds@.contains(x));
            }
        }
    }
    sorted
}

/// What a client message asks of the viewer beyond selection and run
/// control: a speed change, whose value the caller parses.
#[derive(Debug, Clone, Copy, PartialEq, Eq)]
pub enum MessageEffect<'a> {
    Nothing,
    Speed(&'a str),
}

proof fn lemma_prefix_excludes(s: Seq<char>, a: Seq<char>, b: Seq<char>, i: int)
    requires
        occurs_at(s, a, 0),
        0 <= i < a.len(),
        i < b.len(),
        a[i] != b[i],
    ensures
        !occurs_at(s, b, 0),
{
    assert(s.subrange(0, a.len() as int)[i] == s[i]);
    if occurs_at(s, b, 0) {
        assert(s.subrange(0, b.len() as int)[i] == s[i]);
    }
}

/// Applies one text message from a browser client:
/// `world:<n>` selects one world; `worlds:<list>` selects several (`all`
/// selects every world); `control:start|pause|stop|restart` drives the run
/// when web control is enabled; `speed:<x>` is handed back to the caller
/// when web control is enabled. Anything else is ignored.
pub fn handle_client_message<'a>(
    message: &'a str,
    selection: &mut WorldSelection,
    control: &mut WebControl,
) -> (res: MessageEffect<'a>)
    ensures
        occurs_at(message@, "world:"@, 0) ==> *final(control) == *old(control) && res
            == MessageEffect::Nothing && match parse_usize_spec(
            trim_seq(message@.subrange(6, message@.len() as int)),
        ) {
            Some(index) => final(selection).selected_world == index
                && final(selection).selected_worlds@ == seq![index],
            None => final(selection).selected_world == old(selection).selected_world
                && final(selection).selected_worlds@ == old(selection).selected_worlds@,
        },
        !occurs_at(message@, "world:"@, 0) && occurs_at(message@, "control:"@, 0) ==> {
            let action = trim_seq(message@.subrange(8, message@.len() as int));
            &&& res == MessageEffect::Nothing
            &&& final(selection).selected_world == old(selection).selected_world
            &&& final(selection).selected_worlds@ == old(selection).selected_worlds@
            &&& *final(control) == if !old(control).enabled {
                *old(control)
            } else if action == "start"@ {
                WebControl { running: true, ..*old(control) }
            } else if action == "pause"@ {
                WebControl { running: false, ..*old(control) }
            } else if action == "stop"@ {
                WebControl { stop_requested: true, running: false, ..*old(control) }
            } else if action == "restart"@ {
                WebControl { restart_requested: true, running: true, ..*old(control) }
            } else {
                *old(control)
            }
        },
        !occurs_at(message@, "world:"@, 0) && !occurs_at(message@, "worlds:"@, 0) && !occurs_at(
            message@,
            "control:"@,
            0,
        ) && occurs_at(message@, "speed:"@, 0) ==> *final(control) == *old(control) && (
        old(control).enabled ==> (res matches MessageEffect::Speed(v) && v@ == message@.subrange(
            6,
            message@.len() as int,
        ))) && (!old(control).enabled ==> res == MessageEffect::Nothing),
        !occurs_at(message@, "world:"@, 0) && !occurs_at(message@, "worlds:"@, 0) && !occurs_at(
            message@,
            "control:"@,
            0,
        ) && !occurs_at(message@, "speed:"@, 0) ==> *final(control) == *old(control) && res
            == MessageEffect::Nothing && final(selection).selected_world == old(
            selection,
        ).selected_world && final(selection).selected_worlds@ == old(selection).selected_worlds@,
        occurs_at(message@, "worlds:"@, 0) ==> {
            let value = message@.subrange(7, message@.len() as int);
            &&& *final(control) == *old(control)
            &&& res == MessageEffect::Nothing
            &&& if ascii_lower_seq(trim_seq(value)) == "all"@ {
                final(selection).selected_world == 0 && final(selection).selected_worlds@.len() == 0
            } else if exists|x: usize| world_selection_spec(value, x) {
                &&& strictly_increasing(final(selection).selected_worlds@)
                &&& forall|x: usize|
                    final(selection).selected_worlds@.contains(x) <==> world_selection_spec(value, x)
                &&& final(selection).selected_world == final(selection).selected_worlds@[0]
            } else {
                final(selection).selected_world == old(selection).selected_world
                    && final(selection).selected_worlds@ == old(selection).selected_worlds@
            }
        },
{
    proof {
        reveal_strlit("world:");
        reveal_strlit("worlds:");
        reveal_strlit("control:");
        reveal_strlit("speed:");
        reveal_strlit("all");
        assert(ascii_lower_seq("all"@) =~= "all"@);
    }
    if let Some(value) = strip_prefix(message, "world:") {
        proof {
            lemma_prefix_excludes(message@, "world:"@, "worlds:"@, 5);
            lemma_prefix_excludes(message@, "world:"@, "control:"@, 0);
            lemma_prefix_excludes(message@, "world:"@, "speed:"@, 0);
        }
        if let Some(index) = parse_usize(trim(value)) {
            selection.selected_world = index;
            let mut worlds = Vec::new();
            worlds.push(index);
            selection.selected_worlds = worlds;
        }
        return MessageEffect::Nothing;
    }
    if let Some(value) = strip_prefix(message, "worlds:") {
        proof {
            lemma_prefix_excludes(message@, "worlds:"@, "control:"@, 0);
            lemma_prefix_excludes(message@, "worlds:"@, "speed:"@, 0);
        }
        let worlds = parse_world_selection(value);
        if eq_ignore_ascii_case(trim(value), "all") {
            selection.selected_world = 0;
            selection.selected_worlds = Vec::new();
        } else if worlds.len() > 0 {
            proof {
                assert(worlds@.contains(worlds@[0]));
                assert(world_selection_spec(value@, worlds@[0]));
            }
            selection.selected_world = worlds[0];
            selection.selected_worlds = worlds;
        } else {
            proof {
                assert forall|x: usize| !world_selection_spec(value@, x) by {
                    if world_selection_spec(value@, x) {
                        assert(worlds@.contains(x));
                    }
                }
            }
        }
        return MessageEffect::Nothing;
    }
    if let Some(action) = strip_prefix(message, "control:") {
        proof {
            lemma_prefix_excludes(message@, "control:"@, "speed:"@, 0);
            lemma_prefix_excludes(message@, "control:"@, "worlds:"@, 0);
        }
        if !control.enabled {
            return MessageEffect::Nothing;
        }
        let a = trim(action);
        if str_eq(a, "start") {
            control.running = true;
        } else if str_eq(a, "pause") {
            control.running = false;
        } else if str_eq(a, "stop") {
            control.stop_requested = true;
            control.running = false;
        } else if str_eq(a, "restart") {
            control.restart_requested = true;
            control.running = true;
        }
        return MessageEffect::Nothing;
    }
    if let Some(value) = strip_prefix(message, "speed:") {
        proof {
            lemma_prefix_excludes(message@, "speed:"@, "worlds:"@, 0);
        }
        if !control.enabled {
            return MessageEffect::Nothing;
        }
        return MessageEffect::Speed(value);
    }
    MessageEffect::Nothing
}

/// The script tag that tells the page which websocket port to use.
pub open spec fn port_script(ws_port: u16) -> Seq<char> {
    "<script>window.__SIMHARK_WS_PORT__="@ + decimal_digits(ws_port as nat) + ";</script>"@
}

/// The viewer page with the port script injected just before `</head>`, or
/// in front of the whole page when it has no `</head>`.
pub fn render_index(ws_port: u16, html: &str) -> (res: String)
    ensures
        (exists|i: int| occurs_at(html@, "</head>"@, i)) ==> exists|i: int|
            occurs_at(html@, "</head>"@, i) && (forall|j: int| 0 <= j < i ==> !occurs_at(html@, "</head>"@, j))
                && res@ == html@.subrange(0, i) + port_script(ws_port) + html@.subrange(
                i,
                html@.len() as int,
            ),
        !(exists|i: int| occurs_at(html@, "</head>"@, i)) ==> res@ == port_script(ws_port) + html@,
{
    let mut injected = String::from_str("<script>window.__SIMHARK_WS_PORT__=");
    push_decimal(&mut injected, ws_port as u64);
    injected.append(";</script>");
    let n = html.unicode_len();
    match find_str(html, "</head>") {
        Some(i) => {
            let mut out = String::from_str(html.substring_char(0, i));
            out.append(injected.as_str());
            out.append(html.substring_char(i, n));
            out
        },
        None => {
            injected.append(html);
            injected
        },
    }
}

} // verus!
