//! How the batch test runner lays tests out over simulated worlds: chunking
//! root groups into concurrent batches, checking initial robot rosters, and
//! deciding which trace frames to keep.
use vstd::prelude::*;
use crate::team::TeamColor;
use crate::testing::TestStatusKind;
use crate::viewer::{sort_dedup, strictly_increasing};
use crate::text::{str_eq, views};

verus! {

/// Most robots a team may field in a test world (ids `0..16`).
pub const MAX_ROBOTS_PER_TEAM: usize = 16;

/// The element sequences of a list of vectors.
pub open spec fn vviews<X>(v: Seq<Vec<X>>) -> Seq<Seq<X>> {
    Seq::new(v.len(), |i: int| v[i]@)
}

/// All elements of a list of sequences, in order.
pub open spec fn flatten<X>(s: Seq<Seq<X>>) -> Seq<X>
    decreases s.len(),
{
    if s.len() == 0 {
        Seq::empty()
    } else {
        s[0] + flatten(s.drop_first())
    }
}

/// Chunking groups left to right: when the current chunk already holds
/// `size` groups it is closed; each group is appended to the current chunk;
/// a non-empty current chunk is closed at the end.
pub open spec fn chunk_fold<X>(
    groups: Seq<Seq<X>>,
    size: nat,
    chunks: Seq<Seq<X>>,
    current: Seq<X>,
    roots: nat,
) -> Seq<Seq<X>>
    decreases groups.len(),
{
    if groups.len() == 0 {
        if current.len() > 0 {
            chunks.push(current)
        } else {
            chunks
        }
    } else if roots == size {
        chunk_fold(groups.drop_first(), size, chunks.push(current), groups[0], 1)
    } else {
        chunk_fold(groups.drop_first(), size, chunks, current + groups[0], roots + 1)
    }
}

/// Root groups merged into batches of `size` groups each.
pub open spec fn group_chunks_spec<X>(groups: Seq<Seq<X>>, size: nat) -> Seq<Seq<X>> {
    chunk_fold(groups, size, Seq::empty(), Seq::empty(), 0)
}

/// Merges consecutive root groups, `chunk_size` at a time, into batches.
pub fn group_chunks<X>(groups: Vec<Vec<X>>, chunk_size: usize) -> (res: Vec<Vec<X>>)
    ensures
        vviews(res@) == group_chunks_spec(vviews(groups@), chunk_size as nat),
        chunk_size > 0 ==> vviews(res@) == batches_spec(vviews(groups@), chunk_size as nat),
{
    proof {
        if chunk_size > 0 {
            group_chunks_closed_form(vviews(groups@), chunk_size as nat);
        }
    }
    let ghost orig = vviews(groups@);
    let total = groups.len();
    let mut rest = groups;
    let mut chunks: Vec<Vec<X>> = Vec::new();
    let mut current: Vec<X> = Vec::new();
    let mut current_roots: usize = 0;
    proof {
        assert(vviews(chunks@) =~= Seq::<Seq<X>>::empty());
        assert(vviews(rest@) =~= orig);
    }
    while rest.len() > 0
        invariant
            current_roots <= total - rest@.len(),
            rest@.len() <= total,
            chunk_fold(vviews(rest@), chunk_size as nat, vviews(chunks@), current@, current_roots as nat)
                == chunk_fold(orig, chunk_size as nat, Seq::empty(), Seq::empty(), 0),
        decreases rest@.len(),
    {
        let ghost rest_before = vviews(rest@);
        let mut group = rest.remove(0);
        proof {
            assert(vviews(rest@) =~= rest_before.drop_first());
            assert(rest_before[0] == group@);
        }
        if current_roots == chunk_size {
            let ghost before = vviews(chunks@);
            let closed = current;
            chunks.push(closed);
            current = Vec::new();
            current_roots = 0;
            proof {
                assert(vviews(chunks@) =~= before.push(closed@));
            }
        }
        let ghost cur_before = current@;
        current.append(&mut group);
        current_roots = current_roots + 1;
        proof {
            assert(current@ =~= cur_before + rest_before[0]);
            if cur_before.len() == 0 && current_roots == 1 {
                assert(current@ =~= rest_before[0]);
            }
        }
    }
    if current.len() > 0 {
        let ghost before = vviews(chunks@);
        let last = current;
        chunks.push(last);
        proof {
            assert(vviews(chunks@) =~= before.push(last@));
        }
    }
    chunks
}

proof fn lemma_flatten_push<X>(s: Seq<Seq<X>>, x: Seq<X>)
    ensures
        flatten(s.push(x)) == flatten(s) + x,
    decreases s.len(),
{
    if s.len() == 0 {
        assert(s.push(x).drop_first() =~= Seq::<Seq<X>>::empty());
        assert(flatten(Seq::<Seq<X>>::empty()) == Seq::<X>::empty());
        assert(flatten(s.push(x)) =~= x);
    } else {
        assert(s.push(x).drop_first() =~= s.drop_first().push(x));
        lemma_flatten_push(s.drop_first(), x);
        assert(flatten(s.push(x)) =~= flatten(s) + x);
    }
}

proof fn lemma_chunk_fold_flatten<X>(
    groups: Seq<Seq<X>>,
    size: nat,
    chunks: Seq<Seq<X>>,
    current: Seq<X>,
    roots: nat,
)
    ensures
        flatten(chunk_fold(groups, size, chunks, current, roots)) == flatten(chunks) + current
            + flatten(groups),
    decreases groups.len(),
{
    if groups.len() == 0 {
        assert(flatten(groups) == Seq::<X>::empty());
        if current.len() > 0 {
            lemma_flatten_push(chunks, current);
        }
        assert(flatten(chunks) + current + flatten(groups) =~= flatten(chunks) + current);
        assert(current.len() == 0 ==> flatten(chunks) + current =~= flatten(chunks));
    } else if roots == size {
        lemma_chunk_fold_flatten(groups.drop_first(), size, chunks.push(current), groups[0], 1);
        lemma_flatten_push(chunks, current);
        assert(flatten(chunks.push(current)) + groups[0] + flatten(groups.drop_first())
            =~= flatten(chunks) + current + flatten(groups));
    } else {
        lemma_chunk_fold_flatten(groups.drop_first(), size, chunks, current + groups[0], roots + 1);
        assert(flatten(chunks) + (current + groups[0]) + flatten(groups.drop_first())
            =~= flatten(chunks) + current + flatten(groups));
    }
}

/// Chunking never loses, duplicates or reorders a test: the batches, read
/// in order, hold exactly the tests of the root groups in plan order.
pub proof fn group_chunks_preserve_tests<X>(groups: Seq<Seq<X>>, size: nat)
    ensures
        flatten(group_chunks_spec(groups, size)) == flatten(groups),
{
    lemma_chunk_fold_flatten(groups, size, Seq::empty(), Seq::empty(), 0);
    assert(flatten(Seq::<Seq<X>>::empty()) == Seq::<X>::empty());
    assert(Seq::<X>::empty() + Seq::<X>::empty() + flatten(groups) =~= flatten(groups));
}

/// Root groups taken `size` at a time from the front: each batch holds the
/// tests of `size` consecutive groups (the last batch those of the groups
/// left over), and a last batch with no tests is left out.
pub open spec fn batches_spec<X>(groups: Seq<Seq<X>>, size: nat) -> Seq<Seq<X>>
    decreases groups.len(),
{
    if size == 0 || groups.len() <= size {
        if flatten(groups).len() > 0 {
            seq![flatten(groups)]
        } else {
            Seq::empty()
        }
    } else {
        seq![flatten(groups.take(size as int))] + batches_spec(groups.skip(size as int), size)
    }
}

/// The batches still to come when the open batch `current` already holds
/// `roots` of at most `size` groups.
spec fn batches_from<X>(current: Seq<X>, roots: nat, groups: Seq<Seq<X>>, size: nat) -> Seq<Seq<X>> {
    if groups.len() <= size - roots {
        if (current + flatten(groups)).len() > 0 {
            seq![current + flatten(groups)]
        } else {
            Seq::empty()
        }
    } else {
        seq![current + flatten(groups.take(size - roots))] + batches_spec(
            groups.skip(size - roots),
            size,
        )
    }
}

proof fn lemma_chunk_fold_batches<X>(
    groups: Seq<Seq<X>>,
    size: nat,
    chunks: Seq<Seq<X>>,
    current: Seq<X>,
    roots: nat,
)
    requires
        size > 0,
        roots <= size,
    ensures
        chunk_fold(groups, size, chunks, current, roots) == chunks + batches_from(
            current,
            roots,
            groups,
            size,
        ),
    decreases groups.len(),
{
    if groups.len() == 0 {
        assert(flatten(groups) == Seq::<X>::empty());
        assert(current + flatten(groups) =~= current);
        if current.len() > 0 {
            assert(chunks.push(current) =~= chunks + seq![current]);
        } else {
            assert(chunks + Seq::<Seq<X>>::empty() =~= chunks);
        }
    } else {
        let g0 = groups[0];
        let rest = groups.drop_first();
        assert(flatten(groups) == g0 + flatten(rest));
        if roots == size {
            lemma_chunk_fold_batches(rest, size, chunks.push(current), g0, 1);
            assert(groups.take(0) =~= Seq::<Seq<X>>::empty());
            assert(flatten(groups.take(0)) == Seq::<X>::empty());
            assert(current + flatten(groups.take(0)) =~= current);
            assert(groups.skip(0) =~= groups);
            // batches_spec(groups) from the open batch of the first group.
            if groups.len() <= size {
                assert(g0 + flatten(rest) =~= flatten(groups));
            } else {
                assert(groups.take(size as int).drop_first() =~= rest.take(size - 1));
                assert(groups.take(size as int)[0] == g0);
                assert(flatten(groups.take(size as int)) == g0 + flatten(rest.take(size - 1)));
                assert(rest.skip(size - 1) =~= groups.skip(size as int));
            }
            assert(chunks.push(current) + batches_from(g0, 1, rest, size) =~= chunks + (seq![current]
                + batches_spec(groups, size)));
        } else {
            lemma_chunk_fold_batches(rest, size, chunks, current + g0, roots + 1);
            assert(current + g0 + flatten(rest) =~= current + flatten(groups));
            if groups.len() > size - roots {
                let n = (size - roots) as int;
                assert(groups.take(n).drop_first() =~= rest.take(n - 1));
                assert(groups.take(n)[0] == g0);
                assert(flatten(groups.take(n)) == g0 + flatten(rest.take(n - 1)));
                assert(current + g0 + flatten(rest.take(n - 1)) =~= current + flatten(groups.take(n)));
                assert(rest.skip(n - 1) =~= groups.skip(n));
            }
        }
    }
}

/// Batching in closed form: for a positive size, the batches are the root
/// groups taken `size` at a time (see [`batches_spec`]).
pub proof fn group_chunks_closed_form<X>(groups: Seq<Seq<X>>, size: nat)
    requires
        size > 0,
    ensures
        group_chunks_spec(groups, size) == batches_spec(groups, size),
{
    lemma_chunk_fold_batches(groups, size, Seq::empty(), Seq::empty(), 0);
    assert(Seq::<X>::empty() + flatten(groups) =~= flatten(groups));
    assert(groups.take(size as int) =~= groups.take(size as int));
    assert(Seq::<X>::empty() + flatten(groups.take(size as int)) =~= flatten(groups.take(size as int)));
    assert(Seq::<Seq<X>>::empty() + batches_from(Seq::<X>::empty(), 0, groups, size) =~= batches_spec(
        groups,
        size,
    ));
}

/// Sum of `lens[from..to]`.
pub open spec fn range_sum(lens: Seq<nat>, from: int, to: int) -> nat
    decreases to - from,
{
    if to <= from {
        0
    } else {
        range_sum(lens, from, to - 1) + lens[to - 1]
    }
}

/// Largest world count of any chunk of `size` consecutive groups, starting
/// at group `start`.
pub open spec fn max_chunk_from(lens: Seq<nat>, size: nat, start: int) -> nat
    decreases lens.len() - start,
{
    if size == 0 || start < 0 || start >= lens.len() {
        0
    } else {
        let end = if start + size < lens.len() {
            start + size
        } else {
            lens.len() as int
        };
        let here = range_sum(lens, start, end);
        let later = max_chunk_from(lens, size, end);
        if here >= later {
            here
        } else {
            later
        }
    }
}

/// Number of tests in each group.
pub open spec fn group_lens<X>(groups: Seq<Vec<X>>) -> Seq<nat> {
    Seq::new(groups.len(), |i: int| groups[i]@.len())
}

proof fn lemma_range_sum_mono(lens: Seq<nat>, from: int, a: int, b: int)
    requires
        from <= a <= b,
    ensures
        range_sum(lens, from, a) <= range_sum(lens, from, b),
    decreases b - a,
{
    if a < b {
        lemma_range_sum_mono(lens, from, a, b - 1);
    }
}

proof fn lemma_range_sum_split(lens: Seq<nat>, a: int, b: int, c: int)
    requires
        a <= b <= c,
    ensures
        range_sum(lens, a, c) == range_sum(lens, a, b) + range_sum(lens, b, c),
    decreases c - b,
{
    if b < c {
        lemma_range_sum_split(lens, a, b, c - 1);
    }
}

/// The most worlds any batch needs when groups are run `chunk_size` (at least
/// one) at a time; zero for no groups.
pub fn max_chunk_world_count<X>(groups: &Vec<Vec<X>>, chunk_size: usize) -> (res: usize)
    requires
        range_sum(group_lens(groups@), 0, groups@.len() as int) <= usize::MAX,
    ensures
        res == max_chunk_from(
            group_lens(groups@),
            if chunk_size >= 1 {
                chunk_size as nat
            } else {
                1
            },
            0,
        ),
{
    let size: usize = if chunk_size >= 1 {
        chunk_size
    } else {
        1
    };
    let ghost lens = group_lens(groups@);
    let n = groups.len();
    let mut best: usize = 0;
    let mut start: usize = 0;
    while start < n
        invariant
            size >= 1,
            n == groups@.len(),
            lens == group_lens(groups@),
            start <= n,
            range_sum(lens, 0, n as int) <= usize::MAX,
            best <= range_sum(lens, 0, n as int),
            (if best >= max_chunk_from(lens, size as nat, start as int) {
                best as nat
            } else {
                max_chunk_from(lens, size as nat, start as int)
            }) == max_chunk_from(lens, size as nat, 0),
        decreases n - start,
    {
        let end: usize = if n - start <= size {
            n
        } else {
            start + size
        };
        let mut sum: usize = 0;
        let mut j: usize = start;
        while j < end
            invariant
                start <= j <= end,
                end <= n,
                n == groups@.len(),
                lens == group_lens(groups@),
                range_sum(lens, 0, n as int) <= usize::MAX,
                sum == range_sum(lens, start as int, j as int),
            decreases end - j,
        {
            proof {
                lemma_range_sum_split(lens, 0, start as int, j + 1);
                lemma_range_sum_mono(lens, 0, j + 1, n as int);
            }
            sum = sum + groups[j].len();
            j = j + 1;
        }
        proof {
            lemma_range_sum_split(lens, 0, start as int, end as int);
            lemma_range_sum_mono(lens, 0, end as int, n as int);
        }
        if sum > best {
            best = sum;
        }
        start = end;
    }
    best
}

/// A problem with a test world's initial robots.
#[derive(Debug, Clone, Copy, PartialEq, Eq, Structural)]
pub enum RosterProblem {
    /// The team has more than sixteen robots.
    TooManyRobots { team: TeamColor, count: usize },
    /// A robot id is sixteen or more.
    IdOutOfRange { team: TeamColor, id: usize },
    /// Two robots of the team share an id.
    DuplicateId { team: TeamColor, id: usize },
}

/// Whether robot `j` of `ids` is the first bad one seen: out of range, or a
/// repeat of an earlier id.
pub open spec fn id_problem_at(ids: Seq<usize>, j: int) -> bool {
    ids[j] >= MAX_ROBOTS_PER_TEAM || ids.subrange(0, j).contains(ids[j])
}

/// The problem a bad robot id is reported as.
pub open spec fn id_problem(team: TeamColor, id: usize) -> RosterProblem {
    if id >= MAX_ROBOTS_PER_TEAM {
        RosterProblem::IdOutOfRange { team, id }
    } else {
        RosterProblem::DuplicateId { team, id }
    }
}

/// The first bad id of `ids` at or after position `j`, as a problem.
pub open spec fn first_id_problem_from(team: TeamColor, ids: Seq<usize>, j: int) -> Option<RosterProblem>
    decreases ids.len() - j,
{
    if j < 0 || j >= ids.len() {
        None
    } else if id_problem_at(ids, j) {
        Some(id_problem(team, ids[j]))
    } else {
        first_id_problem_from(team, ids, j + 1)
    }
}

/// The problem [`check_roster`] reports: too many blue robots, else too
/// many yellow robots, else blue's first bad id, else yellow's first bad id.
pub open spec fn roster_problem_spec(blue: Seq<usize>, yellow: Seq<usize>) -> Option<RosterProblem> {
    if blue.len() > MAX_ROBOTS_PER_TEAM {
        Some(RosterProblem::TooManyRobots { team: TeamColor::Blue, count: blue.len() as usize })
    } else if yellow.len() > MAX_ROBOTS_PER_TEAM {
        Some(RosterProblem::TooManyRobots { team: TeamColor::Yellow, count: yellow.len() as usize })
    } else if first_id_problem_from(TeamColor::Blue, blue, 0) is Some {
        first_id_problem_from(TeamColor::Blue, blue, 0)
    } else {
        first_id_problem_from(TeamColor::Yellow, yellow, 0)
    }
}

fn first_id_problem(team: TeamColor, ids: &Vec<usize>) -> (res: Option<RosterProblem>)
    ensures
        res == first_id_problem_from(team, ids@, 0),
        match res {
            None => forall|j: int| 0 <= j < ids@.len() ==> !#[trigger] id_problem_at(ids@, j),
            Some(p) => exists|j: int|
                0 <= j < ids@.len() && #[trigger] id_problem_at(ids@, j) && (forall|k: int|
                    0 <= k < j ==> !id_problem_at(ids@, k)) && p == (if ids@[j] >= MAX_ROBOTS_PER_TEAM {
                    RosterProblem::IdOutOfRange { team, id: ids@[j] }
                } else {
                    RosterProblem::DuplicateId { team, id: ids@[j] }
                }),
        },
{
    let mut seen: Vec<bool> = Vec::new();
    while seen.len() < MAX_ROBOTS_PER_TEAM
        invariant
            seen@.len() <= MAX_ROBOTS_PER_TEAM,
            forall|i: int| 0 <= i < seen@.len() ==> !seen@[i],
        decreases MAX_ROBOTS_PER_TEAM - seen@.len(),
    {
        seen.push(false);
    }
    let mut j: usize = 0;
    while j < ids.len()
        invariant
            j <= ids@.len(),
            seen@.len() == MAX_ROBOTS_PER_TEAM,
            forall|k: int| 0 <= k < j ==> !#[trigger] id_problem_at(ids@, k),
            forall|i: int| 0 <= i < MAX_ROBOTS_PER_TEAM ==> seen@[i] == ids@.subrange(0, j as int).contains(i as usize),
            first_id_problem_from(team, ids@, 0) == first_id_problem_from(team, ids@, j as int),
        decreases ids.len() - j,
    {
        let id = ids[j];
        if id >= MAX_ROBOTS_PER_TEAM {
            assert(id_problem_at(ids@, j as int));
            return Some(RosterProblem::IdOutOfRange { team, id });
        }
        if seen[id] {
            assert(id_problem_at(ids@, j as int));
            return Some(RosterProblem::DuplicateId { team, id });
        }
        proof {
            assert(!ids@.subrange(0, j as int).contains(id));
            assert(!id_problem_at(ids@, j as int));
            assert(ids@.subrange(0, j + 1) =~= ids@.subrange(0, j as int).push(id));
        }
        let ghost old_seen = seen@;
        seen.set(id, true);
        proof {
            let prev = ids@.subrange(0, j as int);
            let next = ids@.subrange(0, j + 1);
            assert forall|i: int| 0 <= i < MAX_ROBOTS_PER_TEAM implies seen@[i] == next.contains(
                i as usize,
            ) by {
                if i == id {
                    assert(next[j as int] == id);
                } else {
                    if next.contains(i as usize) {
                        let w = choose|w: int| 0 <= w < next.len() && next[w] == i as usize;
                        assert(prev[w] == i as usize);
                    }
                    if prev.contains(i as usize) {
                        let w = choose|w: int| 0 <= w < prev.len() && prev[w] == i as usize;
                        assert(next[w] == i as usize);
                    }
                }
            }
        }
        j = j + 1;
    }
    None
}

/// The first problem with a world's initial robots, checked in the order
/// blue count, yellow count, blue ids, yellow ids; `None` when the world is
/// valid.
pub fn check_roster(blue_ids: &Vec<usize>, yellow_ids: &Vec<usize>) -> (res: Option<RosterProblem>)
    ensures
        res == roster_problem_spec(blue_ids@, yellow_ids@),
        blue_ids@.len() > MAX_ROBOTS_PER_TEAM ==> res == Some(
            RosterProblem::TooManyRobots { team: TeamColor::Blue, count: blue_ids@.len() as usize },
        ),
        blue_ids@.len() <= MAX_ROBOTS_PER_TEAM && yellow_ids@.len() > MAX_ROBOTS_PER_TEAM ==> res
            == Some(
            RosterProblem::TooManyRobots {
                team: TeamColor::Yellow,
                count: yellow_ids@.len() as usize,
            },
        ),
        res is None <==> (blue_ids@.len() <= MAX_ROBOTS_PER_TEAM && yellow_ids@.len()
            <= MAX_ROBOTS_PER_TEAM && (forall|j: int|
            0 <= j < blue_ids@.len() ==> !#[trigger] id_problem_at(blue_ids@, j)) && (forall|j: int|
            0 <= j < yellow_ids@.len() ==> !#[trigger] id_problem_at(yellow_ids@, j))),
        res matches Some(RosterProblem::IdOutOfRange { id, .. }) ==> id >= MAX_ROBOTS_PER_TEAM,
        res matches Some(RosterProblem::DuplicateId { team, id }) ==> id < MAX_ROBOTS_PER_TEAM
            && (team == TeamColor::Blue ==> blue_ids@.contains(id)) && (team == TeamColor::Yellow
            ==> yellow_ids@.contains(id)),
{
    if blue_ids.len() > MAX_ROBOTS_PER_TEAM {
        return Some(RosterProblem::TooManyRobots { team: TeamColor::Blue, count: blue_ids.len() });
    }
    if yellow_ids.len() > MAX_ROBOTS_PER_TEAM {
        return Some(
            RosterProblem::TooManyRobots { team: TeamColor::Yellow, count: yellow_ids.len() },
        );
    }
    match first_id_problem(TeamColor::Blue, blue_ids) {
        Some(p) => {
            proof {
                let j = choose|j: int|
                    0 <= j < blue_ids@.len() && #[trigger] id_problem_at(blue_ids@, j) && (forall|k: int|
                        0 <= k < j ==> !id_problem_at(blue_ids@, k)) && p == (if blue_ids@[j]
                        >= MAX_ROBOTS_PER_TEAM {
                        RosterProblem::IdOutOfRange { team: TeamColor::Blue, id: blue_ids@[j] }
                    } else {
                        RosterProblem::DuplicateId { team: TeamColor::Blue, id: blue_ids@[j] }
                    });
                assert(blue_ids@[j] == blue_ids@[j]);
            }
            return Some(p);
        },
        None => {},
    }
    let r = first_id_problem(TeamColor::Yellow, yellow_ids);
    proof {
        if r is Some {
            let p = r->0;
            let j = choose|j: int|
                0 <= j < yellow_ids@.len() && #[trigger] id_problem_at(yellow_ids@, j) && (forall|k: int|
                    0 <= k < j ==> !id_problem_at(yellow_ids@, k)) && p == (if yellow_ids@[j]
                    >= MAX_ROBOTS_PER_TEAM {
                    RosterProblem::IdOutOfRange { team: TeamColor::Yellow, id: yellow_ids@[j] }
                } else {
                    RosterProblem::DuplicateId { team: TeamColor::Yellow, id: yellow_ids@[j] }
                });
            assert(yellow_ids@[j] == yellow_ids@[j]);
        }
    }
    r
}

/// For each robot slot `0..robots_per_team`, the index of the first initial
/// robot with that id, or `None` when the slot stays empty (switched off).
pub fn setup_slots(ids: &Vec<usize>, robots_per_team: usize) -> (res: Vec<Option<usize>>)
    ensures
        res@.len() == robots_per_team,
        forall|id: int|
            0 <= id < robots_per_team ==> match #[trigger] res@[id] {
                Some(k) => k < ids@.len() && ids@[k as int] == id && forall|m: int|
                    0 <= m < k ==> ids@[m] != id,
                None => forall|m: int| 0 <= m < ids@.len() ==> ids@[m] != id,
            },
{
    let mut slots: Vec<Option<usize>> = Vec::new();
    let mut id: usize = 0;
    while id < robots_per_team
        invariant
            id <= robots_per_team,
            slots@.len() == id,
            forall|s: int|
                0 <= s < id ==> match #[trigger] slots@[s] {
                    Some(k) => k < ids@.len() && ids@[k as int] == s && forall|m: int|
                        0 <= m < k ==> ids@[m] != s,
                    None => forall|m: int| 0 <= m < ids@.len() ==> ids@[m] != s,
                },
        decreases robots_per_team - id,
    {
        let mut found: Option<usize> = None;
        let mut k: usize = 0;
        while k < ids.len() && found.is_none()
            invariant
                k <= ids@.len(),
                found is None ==> forall|m: int| 0 <= m < k ==> ids@[m] != id,
                found matches Some(f) ==> f < ids@.len() && ids@[f as int] == id && forall|m: int|
                    0 <= m < f ==> ids@[m] != id,
            decreases ids.len() - k,
        {
            if ids[k] == id {
                found = Some(k);
            }
            k = k + 1;
        }
        slots.push(found);
        id = id + 1;
    }
    slots
}

/// Whether a traced test's frame is kept: every `trace_every`-th frame, and
/// any frame on which the test's status changed.
pub fn records_trace_frame(
    frame: u64,
    trace_every: u64,
    outcome: TestStatusKind,
    last_outcome: TestStatusKind,
) -> (res: bool)
    requires
        trace_every >= 1,
    ensures
        res == (frame % trace_every == 0 || outcome != last_outcome),
{
    frame % trace_every == 0 || outcome != last_outcome
}

/// Takes the next `concurrent` pending root groups (all of them when fewer
/// are left) off the front of `pending` and merges them, in order, into the
/// next batch.
pub fn take_next_chunk<X>(pending: &mut Vec<Vec<X>>, concurrent: usize) -> (res: Vec<X>)
    ensures
        ({
            let end = if concurrent <= old(pending)@.len() {
                concurrent as int
            } else {
                old(pending)@.len() as int
            };
            &&& res@ == flatten(vviews(old(pending)@.take(end)))
            &&& final(pending)@ == old(pending)@.skip(end)
        }),
{
    let end = if concurrent <= pending.len() {
        concurrent
    } else {
        pending.len()
    };
    let ghost orig = pending@;
    let mut out: Vec<X> = Vec::new();
    let mut k: usize = 0;
    proof {
        assert(vviews(orig.take(0)) =~= Seq::<Seq<X>>::empty());
        assert(orig.skip(0) =~= orig);
    }
    while k < end
        invariant
            k <= end,
            end <= orig.len(),
            pending@ == orig.skip(k as int),
            out@ == flatten(vviews(orig.take(k as int))),
        decreases end - k,
    {
        let mut group = pending.remove(0);
        let ghost before = out@;
        out.append(&mut group);
        proof {
            assert(pending@ =~= orig.skip(k + 1));
            assert(vviews(orig.take(k + 1)) =~= vviews(orig.take(k as int)).push(orig[k as int]@));
            lemma_flatten_push(vviews(orig.take(k as int)), orig[k as int]@);
        }
        k = k + 1;
    }
    out
}

/// The world shown for a selected world index: the index, clamped to the
/// last world (world 0 when there are none).
pub fn batch_state_index(selected_world: usize, world_count: usize) -> (res: usize)
    ensures
        res == if selected_world <= world_count - 1 {
            selected_world as int
        } else if world_count == 0 {
            0
        } else {
            world_count - 1
        },
{
    let last = if world_count == 0 {
        0
    } else {
        world_count - 1
    };
    if selected_world <= last {
        selected_world
    } else {
        last
    }
}

/// The worlds to rerun: the requested indices that name an existing world,
/// ascending, each once.
pub fn rerun_indices(worlds: &Vec<usize>, world_count: usize) -> (res: Vec<usize>)
    ensures
        strictly_increasing(res@),
        forall|x: usize| res@.contains(x) <==> (worlds@.contains(x) && x < world_count),
{
    let mut kept: Vec<usize> = Vec::new();
    let mut i: usize = 0;
    while i < worlds.len()
        invariant
            i <= worlds@.len(),
            forall|x: usize| kept@.contains(x) <==> (worlds@.take(i as int).contains(x) && x < world_count),
        decreases worlds.len() - i,
    {
        let w = worlds[i];
        let ghost before = kept@;
        if w < world_count {
            kept.push(w);
        }
        proof {
            assert(worlds@.take(i + 1) =~= worlds@.take(i as int).push(w));
            assert forall|x: usize| kept@.contains(x) <==> (worlds@.take(i + 1).contains(x) && x < world_count) by {
                if kept@.contains(x) {
                    let k = choose|k: int| 0 <= k < kept@.len() && #[trigger] kept@[k] == x;
                    if k < before.len() {
                        assert(before[k] == x);
                        assert(before.contains(x));
                        let j = choose|j: int| 0 <= j < i && #[trigger] worlds@.take(i as int)[j] == x;
                        assert(worlds@.take(i + 1)[j] == x);
                    } else {
                        assert(worlds@.take(i + 1)[i as int] == x);
                    }
                }
                if worlds@.take(i + 1).contains(x) && x < world_count {
                    let j = choose|j: int| 0 <= j < i + 1 && #[trigger] worlds@.take(i + 1)[j] == x;
                    if j < i {
                        assert(worlds@.take(i as int)[j] == x);
                        assert(before.contains(x));
                        let k = choose|k: int| 0 <= k < before.len() && #[trigger] before[k] == x;
                        assert(kept@[k] == x);
                    } else {
                        assert(kept@[kept@.len() - 1] == x);
                    }
                }
            }
        }
        i = i + 1;
    }
    proof {
        assert(worlds@.take(i as int) =~= worlds@);
    }
    let res = sort_dedup(&kept);
    res
}

/// Position of the last `n` in `s`, or `-1`.
pub open spec fn last_index_of(s: Seq<Seq<char>>, n: Seq<char>) -> int
    decreases s.len(),
{
    if s.len() == 0 {
        -1
    } else if s.last() == n {
        s.len() - 1
    } else {
        last_index_of(s.drop_last(), n)
    }
}

/// Which rerun worlds get which fresh test: going through the world
/// indices in order, a world takes the last fresh test whose display name
/// equals its own, unless an earlier world of the same name already took
/// it; worlds without a fresh test of their name are left alone. Pairs are
/// (world index, fresh test position).
pub open spec fn rerun_pairs_spec(current: Seq<Seq<char>>, fresh: Seq<Seq<char>>, idx: Seq<usize>) -> Seq<
    (usize, usize),
>
    decreases idx.len(),
{
    if idx.len() == 0 {
        Seq::empty()
    } else {
        let prev = rerun_pairs_spec(current, fresh, idx.drop_last());
        let i = idx.last();
        let name = current[i as int];
        let seen = exists|k: int| 0 <= k < idx.len() - 1 && current[idx[k] as int] == name;
        if last_index_of(fresh, name) >= 0 && !seen {
            prev.push((i, last_index_of(fresh, name) as usize))
        } else {
            prev
        }
    }
}

fn find_last_name(fresh: &Vec<String>, name: &str) -> (res: Option<usize>)
    ensures
        match res {
            Some(j) => j as int == last_index_of(views(fresh@), name@),
            None => last_index_of(views(fresh@), name@) == -1,
        },
{
    let ghost fv = views(fresh@);
    let mut k: usize = fresh.len();
    proof {
        assert(fv.take(k as int) =~= fv);
    }
    while k > 0
        invariant
            k <= fresh@.len(),
            fv == views(fresh@),
            last_index_of(fv, name@) == last_index_of(fv.take(k as int), name@),
        decreases k,
    {
        proof {
            assert(fv.take(k as int).drop_last() =~= fv.take(k - 1));
            assert(fv.take(k as int).last() == fresh@[k - 1]@);
        }
        if str_eq(fresh[k - 1].as_str(), name) {
            return Some(k - 1);
        }
        k = k - 1;
    }
    None
}

/// See [`rerun_pairs_spec`].
pub fn rerun_matches(current: &Vec<String>, fresh: &Vec<String>, indices: &Vec<usize>) -> (res: Vec<
    (usize, usize),
>)
    requires
        forall|k: int| 0 <= k < indices@.len() ==> indices@[k] < current@.len(),
    ensures
        res@ == rerun_pairs_spec(views(current@), views(fresh@), indices@),
{
    let ghost cv = views(current@);
    let ghost fv = views(fresh@);
    let mut pairs: Vec<(usize, usize)> = Vec::new();
    let mut t: usize = 0;
    proof {
        assert(indices@.take(0) =~= Seq::<usize>::empty());
    }
    while t < indices.len()
        invariant
            t <= indices@.len(),
            cv == views(current@),
            fv == views(fresh@),
            forall|k: int| 0 <= k < indices@.len() ==> indices@[k] < current@.len(),
            pairs@ == rerun_pairs_spec(cv, fv, indices@.take(t as int)),
        decreases indices.len() - t,
    {
        let i = indices[t];
        let name = current[i].as_str();
        let mut seen = false;
        let mut k: usize = 0;
        while k < t && !seen
            invariant
                k <= t,
                t < indices@.len(),
                cv == views(current@),
                i == indices@[t as int],
                name@ == cv[i as int],
                forall|q: int| 0 <= q < indices@.len() ==> indices@[q] < current@.len(),
                seen == exists|q: int| 0 <= q < k && cv[indices@[q] as int] == name@,
            decreases t - k + (if seen { 0int } else { 1int }),
        {
            if str_eq(current[indices[k]].as_str(), name) {
                seen = true;
            }
            k = k + 1;
        }
        let ghost pre = indices@.take(t + 1);
        proof {
            assert(pre.drop_last() =~= indices@.take(t as int));
            assert(pre.last() == i);
            let a = exists|q: int| 0 <= q < pre.len() - 1 && cv[pre[q] as int] == name@;
            if seen {
                let q = choose|q: int| 0 <= q < k && cv[indices@[q] as int] == name@;
                assert(pre[q] == indices@[q]);
            }
            if a {
                let q = choose|q: int| 0 <= q < pre.len() - 1 && cv[pre[q] as int] == name@;
                assert(pre[q] == indices@[q]);
            }
        }
        if !seen {
            match find_last_name(fresh, name) {
                Some(j) => {
                    pairs.push((i, j));
                },
                None => {},
            }
        }
        t = t + 1;
    }
    proof {
        assert(indices@.take(t as int) =~= indices@);
    }
    pairs
}

} // verus!
