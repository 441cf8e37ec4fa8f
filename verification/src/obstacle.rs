//! Obstacles, and what a collection of them holds.

use vstd::prelude::*;
use crate::geometry::{rect_at, Circle, Rect, Size, Vec2};

verus! {

/// A breakable obstacle: top-left corner, extent, and whether the ball has
/// destroyed it. A destroyed obstacle stays in its collection.
#[derive(Clone, Copy, Debug, PartialEq, Eq, Structural)]
pub struct Obstacle {
    pub pos: Vec2,
    pub size: Size,
    pub hit: bool,
}

impl Obstacle {
    /// The rectangle that the obstacle covers.
    pub open spec fn rect(self) -> Rect {
        rect_at(self.pos, self.size)
    }

    /// The same obstacle, destroyed.
    pub open spec fn destroyed(self) -> Obstacle {
        Obstacle { hit: true, ..self }
    }
}

/// The rectangles that the obstacles cover, in order.
pub open spec fn outlines(obstacles: Seq<Obstacle>) -> Seq<Rect> {
    Seq::new(obstacles.len(), |i: int| obstacles[i].rect())
}

/// No obstacle has been destroyed.
pub open spec fn all_intact(obstacles: Seq<Obstacle>) -> bool {
    forall|i: int| 0 <= i < obstacles.len() ==> !(#[trigger] obstacles[i]).hit
}

/// Every obstacle has been destroyed.
pub open spec fn all_hit(obstacles: Seq<Obstacle>) -> bool {
    forall|i: int| 0 <= i < obstacles.len() ==> (#[trigger] obstacles[i]).hit
}

/// The number of obstacles that have not been destroyed.
pub open spec fn remaining(obstacles: Seq<Obstacle>) -> nat
    decreases obstacles.len(),
{
    if obstacles.len() == 0 {
        0
    } else if obstacles.last().hit {
        remaining(obstacles.drop_last())
    } else {
        remaining(obstacles.drop_last()) + 1
    }
}

/// The ball can destroy the obstacle at index `i`: it is there, it has not
/// been destroyed, and the ball overlaps it.
pub open spec fn is_target(obstacles: Seq<Obstacle>, ball: Circle, i: int) -> bool {
    0 <= i < obstacles.len() && !obstacles[i].hit && ball.meets(obstacles[i].rect())
}

/// The least index from `from` on of an obstacle that the ball can destroy,
/// or the length of the collection if there is none.
pub open spec fn first_target_from(obstacles: Seq<Obstacle>, ball: Circle, from: int) -> int
    decreases obstacles.len() - from,
{
    if from < 0 || from >= obstacles.len() {
        obstacles.len() as int
    } else if is_target(obstacles, ball, from) {
        from
    } else {
        first_target_from(obstacles, ball, from + 1)
    }
}

/// The index of the first obstacle, in the order of the collection, that the
/// ball can destroy, or the length of the collection if there is none.
pub open spec fn first_target(obstacles: Seq<Obstacle>, ball: Circle) -> int {
    first_target_from(obstacles, ball, 0)
}

/// `first_target_from` returns a target with no target between `from` and it,
/// or the length if there is no target from `from` on.
pub proof fn lemma_first_target_from(obstacles: Seq<Obstacle>, ball: Circle, from: int)
    requires
        0 <= from <= obstacles.len(),
    ensures
        from <= first_target_from(obstacles, ball, from) <= obstacles.len(),
        first_target_from(obstacles, ball, from) < obstacles.len() ==> is_target(
            obstacles,
            ball,
            first_target_from(obstacles, ball, from),
        ),
        forall|j: int|
            from <= j < first_target_from(obstacles, ball, from) ==> !is_target(obstacles, ball, j),
    decreases obstacles.len() - from,
{
    if from < obstacles.len() && !is_target(obstacles, ball, from) {
        lemma_first_target_from(obstacles, ball, from + 1);
    }
}

/// Destroying an obstacle that was intact leaves one fewer to destroy.
pub proof fn lemma_remaining_after_hit(obstacles: Seq<Obstacle>, i: int)
    requires
        0 <= i < obstacles.len(),
        !obstacles[i].hit,
    ensures
        remaining(obstacles.update(i, obstacles[i].destroyed())) + 1 == remaining(obstacles),
    decreases obstacles.len(),
{
    let after: Seq<Obstacle> = obstacles.update(i, obstacles[i].destroyed());
    if i == obstacles.len() - 1 {
        assert(after.drop_last() =~= obstacles.drop_last());
    } else {
        lemma_remaining_after_hit(obstacles.drop_last(), i);
        assert(after.drop_last() =~= obstacles.drop_last().update(
            i,
            obstacles.drop_last()[i].destroyed(),
        ));
    }
}

/// No obstacle is left exactly when every obstacle has been destroyed.
pub proof fn lemma_none_remaining_iff_all_hit(obstacles: Seq<Obstacle>)
    ensures
        (remaining(obstacles) == 0) == all_hit(obstacles),
        remaining(obstacles) <= obstacles.len(),
    decreases obstacles.len(),
{
    if obstacles.len() > 0 {
        let front: Seq<Obstacle> = obstacles.drop_last();
        lemma_none_remaining_iff_all_hit(front);
        if all_hit(obstacles) {
            assert forall|i: int| 0 <= i < front.len() implies (#[trigger] front[i]).hit by {
            }
        }
        if remaining(obstacles) == 0 {
            assert forall|i: int| 0 <= i < obstacles.len() implies (
            #[trigger] obstacles[i]).hit by {
                if i < front.len() {
                    assert(front[i].hit);
                }
            }
        }
    }
}

/// Counts the obstacles that have not been destroyed.
pub fn count_remaining(obstacles: &Vec<Obstacle>) -> (count: usize)
    ensures
        count == remaining(obstacles@),
{
    let mut count: usize = 0;
    let mut i: usize = 0;
    while i < obstacles.len()
        invariant
            i <= obstacles.len(),
            count == remaining(obstacles@.take(i as int)),
            count <= i,
        decreases obstacles.len() - i,
    {
        proof {
            assert(obstacles@.take(i + 1).drop_last() =~= obstacles@.take(i as int));
        }
        if !obstacles[i].hit {
            count = count + 1;
        }
        i = i + 1;
    }
    proof {
        assert(obstacles@.take(i as int) =~= obstacles@);
    }
    count
}

/// Tests whether every obstacle has been destroyed.
pub fn all_destroyed(obstacles: &Vec<Obstacle>) -> (done: bool)
    ensures
        done == all_hit(obstacles@),
{
    let mut i: usize = 0;
    while i < obstacles.len()
        invariant
            i <= obstacles.len(),
            forall|j: int| 0 <= j < i ==> (#[trigger] obstacles@[j]).hit,
        decreases obstacles.len() - i,
    {
        if !obstacles[i].hit {
            return false;
        }
        i = i + 1;
    }
    true
}

} // verus!
