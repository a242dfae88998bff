//! Fixed-capacity particle trail history without front-removal shifts.
//!
//! A trail keeps the most recent positions of a particle for rendering tail
//! trails, preserving a fixed maximum window size.

use vstd::prelude::*;

verus! {

/// Number of past positions a trail keeps.
pub const TRAIL_CAP: usize = 4;

/// A trail after one push: appended while below capacity, otherwise the
/// oldest of the first `TRAIL_CAP` entries is dropped and the point takes the
/// last window slot (entries past the window, if any, stay in place).
pub open spec fn pushed_trail(history: Seq<(i32, i32)>, point: (i32, i32)) -> Seq<(i32, i32)> {
    if history.len() < TRAIL_CAP {
        history.push(point)
    } else {
        history.subrange(1, TRAIL_CAP as int).push(point) + history.subrange(
            TRAIL_CAP as int,
            history.len() as int,
        )
    }
}

/// Pushes a new position into the particle trail history, removing the oldest
/// element once the history holds `TRAIL_CAP` positions.
pub fn push_particle_history(history: &mut Vec<(i32, i32)>, x: i32, y: i32)
    ensures
        final(history)@ == pushed_trail(old(history)@, (x, y)),
        old(history)@.len() < TRAIL_CAP ==> final(history)@ == old(history)@.push((x, y)),
        old(history)@.len() >= TRAIL_CAP ==> {
            &&& final(history)@.len() == old(history)@.len()
            &&& final(history)@[TRAIL_CAP - 1] == (x, y)
            &&& forall|k: int| 0 <= k < TRAIL_CAP - 1 ==> #[trigger] final(history)@[k] == old(
                history,
            )@[k + 1]
            &&& forall|k: int|
                TRAIL_CAP <= k < old(history)@.len() ==> #[trigger] final(history)@[k] == old(
                    history,
                )@[k]
        },
{
    if history.len() < TRAIL_CAP {
        history.push((x, y));
        proof {
            lemma_one_push(old(history)@, (x, y));
        }
        return;
    }
    let ghost before = history@;
    let mut i: usize = 0;
    while i < TRAIL_CAP - 1
        invariant
            i <= TRAIL_CAP - 1,
            before.len() >= TRAIL_CAP,
            history@.len() == before.len(),
            forall|k: int| 0 <= k < i ==> history@[k] == before[k + 1],
            forall|k: int| i <= k < history@.len() ==> history@[k] == before[k],
        decreases TRAIL_CAP - 1 - i,
    {
        let next = history[i + 1];
        history[i] = next;
        i += 1;
    }
    history[TRAIL_CAP - 1] = (x, y);
    assert(history@ =~= pushed_trail(before, (x, y)));
    proof {
        lemma_one_push(before, (x, y));
    }
}

/// One push: below capacity the point is appended; at capacity the oldest
/// of the first `TRAIL_CAP` positions leaves, the others move one slot
/// toward the front, the point takes the last window slot, and anything past
/// the window stays where it was.
pub proof fn lemma_one_push(history: Seq<(i32, i32)>, point: (i32, i32))
    ensures
        history.len() < TRAIL_CAP ==> pushed_trail(history, point) == history.push(point),
        history.len() >= TRAIL_CAP ==> {
            let after = pushed_trail(history, point);
            &&& after.len() == history.len()
            &&& after[TRAIL_CAP - 1] == point
            &&& forall|k: int| 0 <= k < TRAIL_CAP - 1 ==> #[trigger] after[k] == history[k + 1]
            &&& forall|k: int| TRAIL_CAP <= k < history.len() ==> #[trigger] after[k] == history[k]
        },
{
}

/// A trail after pushing every point of `points` in order.
pub open spec fn trail_after(history: Seq<(i32, i32)>, points: Seq<(i32, i32)>) -> Seq<(i32, i32)>
    decreases points.len(),
{
    if points.len() == 0 {
        history
    } else {
        pushed_trail(trail_after(history, points.drop_last()), points.last())
    }
}

/// The last `n` entries of `s` (all of `s` when it is shorter).
pub open spec fn latest(s: Seq<(i32, i32)>, n: nat) -> Seq<(i32, i32)> {
    if s.len() <= n {
        s
    } else {
        s.subrange(s.len() - n, s.len() as int)
    }
}

/// A trail never holds more than `TRAIL_CAP` positions, and it always holds
/// exactly the most recent `TRAIL_CAP` positions pushed, oldest first.
pub proof fn lemma_trail_is_latest_window(history: Seq<(i32, i32)>, points: Seq<(i32, i32)>)
    requires
        history.len() <= TRAIL_CAP,
    ensures
        trail_after(history, points) == latest(history + points, TRAIL_CAP as nat),
        trail_after(history, points).len() <= TRAIL_CAP,
    decreases points.len(),
{
    if points.len() > 0 {
        let prev = points.drop_last();
        lemma_trail_is_latest_window(history, prev);
        let all = history + points;
        let all_prev = history + prev;
        assert(all_prev =~= all.drop_last());
        let t = trail_after(history, prev);
        if all_prev.len() < TRAIL_CAP {
            assert(t.push(points.last()) =~= latest(all, TRAIL_CAP as nat));
        } else {
            assert(t.len() == TRAIL_CAP);
            assert(pushed_trail(t, points.last()) =~= latest(all, TRAIL_CAP as nat));
        }
    }
}

} // verus!
