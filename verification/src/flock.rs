//! Agents and the per-frame cohesion update.
//!
//! Each frame every agent moves toward the centroid of the flock by the
//! fraction `gain = speed * delta_time` of its remaining distance (a
//! fixed-point fraction of `FIXED_ONE_SQ`).  The update is two separable
//! passes: compute the centroid, then move every agent independently.

use vstd::prelude::*;
use vstd::arithmetic::div_mod::{
    lemma_div_basics, lemma_div_is_ordered, lemma_div_multiples_vanish, lemma_div_of0,
    lemma_div_pos_is_pos, lemma_fundamental_div_mod, lemma_mod_division_less_than_divisor,
    lemma_multiply_divide_le,
};
use vstd::arithmetic::mul::lemma_mul_inequality;
use crate::fixed::{
    div_trunc, tdiv, lemma_tdiv_bounded, lemma_tdiv_multiples_vanish, FIXED_ONE_SQ, FLOCK_LIMIT,
    POS_LIMIT,
};
use crate::vector2::Vector2;

verus! {

/// A simulated particle: a position and a drawing radius, both in
/// fixed-point steps.  The position is mutated every frame; the radius is
/// fixed after construction.
#[derive(Clone, Copy, Debug, PartialEq, Eq, Structural)]
pub struct Boid {
    pub position: Vector2,
    pub radius: i64,
}

/// The agent's coordinates are within the world the simulation admits and
/// its radius is positive.
pub open spec fn boid_wf(b: Boid) -> bool {
    &&& -POS_LIMIT <= b.position.x <= POS_LIMIT
    &&& -POS_LIMIT <= b.position.y <= POS_LIMIT
    &&& 0 < b.radius
}

/// A flock the simulation admits: not too many agents, each well formed.
pub open spec fn flock_wf(s: Seq<Boid>) -> bool {
    &&& s.len() <= FLOCK_LIMIT
    &&& forall|i: int| 0 <= i < s.len() ==> boid_wf(#[trigger] s[i])
}

/// Sum of the x coordinates of a flock's positions.
pub open spec fn sum_x(s: Seq<Boid>) -> int
    decreases s.len(),
{
    if s.len() == 0 {
        0
    } else {
        sum_x(s.drop_last()) + s.last().position.x
    }
}

/// Sum of the y coordinates of a flock's positions.
pub open spec fn sum_y(s: Seq<Boid>) -> int
    decreases s.len(),
{
    if s.len() == 0 {
        0
    } else {
        sum_y(s.drop_last()) + s.last().position.y
    }
}

/// x coordinate of the centroid: the mean of the x coordinates, rounded
/// toward zero onto the fixed-point grid.
pub open spec fn centroid_x(s: Seq<Boid>) -> int
    recommends
        s.len() > 0,
{
    tdiv(sum_x(s), s.len() as int)
}

/// y coordinate of the centroid.
pub open spec fn centroid_y(s: Seq<Boid>) -> int
    recommends
        s.len() > 0,
{
    tdiv(sum_y(s), s.len() as int)
}

/// Where one coordinate lands after one cohesion step: the agent moves by
/// the fixed-point fraction `gain / FIXED_ONE_SQ` of its distance to the
/// centroid coordinate `c`, rounded toward zero.
pub open spec fn step_coord(p: int, c: int, gain: int) -> int {
    p + tdiv((c - p) * gain, FIXED_ONE_SQ as int)
}

/// Agent `i` of `post` is agent `i` of `pre` moved one cohesion step
/// toward the centroid of `pre`.
pub open spec fn stepped_at(pre: Seq<Boid>, post: Seq<Boid>, gain: int, i: int) -> bool {
    &&& post[i].position.x == step_coord(pre[i].position.x as int, centroid_x(pre), gain)
    &&& post[i].position.y == step_coord(pre[i].position.y as int, centroid_y(pre), gain)
    &&& post[i].radius == pre[i].radius
}

/// `post` is `pre` after one whole update step: an empty flock is left
/// alone, otherwise every agent has moved one cohesion step toward the
/// centroid of `pre`, radius kept.
pub open spec fn flock_stepped(pre: Seq<Boid>, post: Seq<Boid>, gain: int) -> bool {
    &&& post.len() == pre.len()
    &&& pre.len() == 0 ==> post == pre
    &&& pre.len() > 0 ==> forall|i: int| 0 <= i < pre.len() ==> #[trigger] stepped_at(
        pre,
        post,
        gain,
        i,
    )
}

/// The per-step gain actually applied: `speed * delta_time`, capped at
/// `FIXED_ONE_SQ` (one whole step onto the centroid) so that a stalled
/// frame cannot hurl the flock past its goal.
pub open spec fn gain_of(speed: int, delta_time: int) -> int {
    if speed * delta_time > FIXED_ONE_SQ {
        FIXED_ONE_SQ as int
    } else {
        speed * delta_time
    }
}

impl Boid {
    /// An agent at the given position with the given drawing radius.
    pub fn new(position: Vector2, radius: i64) -> (r: Boid)
        requires
            0 < radius,
        ensures
            r.position == position,
            r.radius == radius,
    {
        Boid { position, radius }
    }

    /// Move the agent by the given delta; only the position changes.
    pub fn translate(&mut self, dir: Vector2)
        requires
            i64::MIN <= old(self).position.x + dir.x <= i64::MAX,
            i64::MIN <= old(self).position.y + dir.y <= i64::MAX,
        ensures
            final(self).position.x == old(self).position.x + dir.x,
            final(self).position.y == old(self).position.y + dir.y,
            final(self).radius == old(self).radius,
    {
        self.position = self.position.add(&dir);
    }

    /// The x coordinate in whole world units (screen pixels): the
    /// fixed-point coordinate truncated toward zero.
    pub fn screen_x(&self) -> (r: i64)
        ensures
            r == tdiv(self.position.x as int, crate::fixed::FIXED_ONE as int),
    {
        div_trunc(self.position.x, crate::fixed::FIXED_ONE)
    }

    /// The y coordinate in whole world units, truncated toward zero.
    pub fn screen_y(&self) -> (r: i64)
        ensures
            r == tdiv(self.position.y as int, crate::fixed::FIXED_ONE as int),
    {
        div_trunc(self.position.y, crate::fixed::FIXED_ONE)
    }

    /// The radius in whole world units, truncated toward zero.
    pub fn screen_radius(&self) -> (r: i64)
        ensures
            r == tdiv(self.radius as int, crate::fixed::FIXED_ONE as int),
    {
        div_trunc(self.radius, crate::fixed::FIXED_ONE)
    }
}

/// One cohesion step stays inside the closed interval between the agent's
/// coordinate and the centroid's: the agent moves toward the centroid and
/// never past it.
pub proof fn lemma_step_in_interval(p: int, c: int, gain: int)
    requires
        0 <= gain <= FIXED_ONE_SQ,
    ensures
        p <= c ==> p <= step_coord(p, c, gain) <= c,
        c <= p ==> c <= step_coord(p, c, gain) <= p,
{
    let ss = FIXED_ONE_SQ as int;
    let d = c - p;
    if d >= 0 {
        assert(0 <= d * gain <= d * ss) by (nonlinear_arith)
            requires
                0 <= d,
                0 <= gain <= ss,
        ;
        lemma_div_pos_is_pos(d * gain, ss);
        assert(d * ss == ss * d) by (nonlinear_arith);
        lemma_multiply_divide_le(d * gain, ss, d);
    } else {
        assert(0 <= (-d) * gain <= (-d) * ss && (-d) * gain == -(d * gain)) by (nonlinear_arith)
            requires
                d < 0,
                0 <= gain <= ss,
        ;
        lemma_div_pos_is_pos((-d) * gain, ss);
        assert((-d) * ss == ss * (-d)) by (nonlinear_arith);
        lemma_multiply_divide_le((-d) * gain, ss, -d);
    }
}

/// The centroid of a well-formed non-empty flock, exactly
/// `(sum_x / n, sum_y / n)` rounded toward zero, and itself inside the
/// admitted world.
pub fn centroid(boids: &Vec<Boid>) -> (r: Vector2)
    requires
        boids@.len() > 0,
        flock_wf(boids@),
    ensures
        r.x == centroid_x(boids@),
        r.y == centroid_y(boids@),
        -POS_LIMIT <= r.x <= POS_LIMIT,
        -POS_LIMIT <= r.y <= POS_LIMIT,
{
    let n = boids.len();
    let mut sx: i64 = 0;
    let mut sy: i64 = 0;
    let mut i: usize = 0;
    while i < n
        invariant
            0 <= i <= n,
            n == boids@.len(),
            flock_wf(boids@),
            sx == sum_x(boids@.subrange(0, i as int)),
            sy == sum_y(boids@.subrange(0, i as int)),
            -(i as int) * (POS_LIMIT as int) <= sx <= (i as int) * (POS_LIMIT as int),
            -(i as int) * (POS_LIMIT as int) <= sy <= (i as int) * (POS_LIMIT as int),
        decreases n - i,
    {
        proof {
            assert(boids@.subrange(0, i as int + 1).drop_last() =~= boids@.subrange(0, i as int));
            assert(boids@.subrange(0, i as int + 1).last() == boids@[i as int]);
            assert(boid_wf(boids@[i as int]));
        }
        sx = sx + boids[i].position.x;
        sy = sy + boids[i].position.y;
        i = i + 1;
    }
    proof {
        assert(boids@.subrange(0, n as int) =~= boids@);
        lemma_tdiv_bounded(sum_x(boids@), n as int, POS_LIMIT as int);
        lemma_tdiv_bounded(sum_y(boids@), n as int, POS_LIMIT as int);
        assert((n as int) * (POS_LIMIT as int) == (POS_LIMIT as int) * (n as int))
            by (nonlinear_arith);
    }
    let cx = div_trunc(sx, n as i64);
    let cy = div_trunc(sy, n as i64);
    Vector2::new(cx, cy)
}

/// The positions of the flock after one update step, the current
/// positions untouched: the centroid pass, then one cohesion step per
/// agent.  With `gain == 0` (a zero-tick frame) the result is the flock
/// as it was; an empty flock is returned as it is rather than divide by
/// its size.
pub fn stepped_flock(boids: &Vec<Boid>, gain: i64) -> (r: Vec<Boid>)
    requires
        flock_wf(boids@),
        0 <= gain <= FIXED_ONE_SQ,
    ensures
        flock_stepped(boids@, r@, gain as int),
        flock_wf(r@),
        gain == 0 ==> r@ == boids@,
{
    let n = boids.len();
    let mut moved: Vec<Boid> = Vec::new();
    if n == 0 {
        proof {
            assert(moved@ =~= boids@);
        }
        return moved;
    }
    let c = centroid(boids);
    let mut i: usize = 0;
    while i < n
        invariant
            0 <= i <= n,
            n == boids@.len(),
            flock_wf(boids@),
            0 <= gain <= FIXED_ONE_SQ,
            c.x == centroid_x(boids@),
            c.y == centroid_y(boids@),
            -POS_LIMIT <= c.x <= POS_LIMIT,
            -POS_LIMIT <= c.y <= POS_LIMIT,
            moved@.len() == i,
            forall|j: int| 0 <= j < i ==> #[trigger] stepped_at(boids@, moved@, gain as int, j),
            forall|j: int| 0 <= j < i ==> boid_wf(#[trigger] moved@[j]),
        decreases n - i,
    {
        let b = boids[i];
        proof {
            assert(boid_wf(boids@[i as int]));
            lemma_step_in_interval(b.position.x as int, c.x as int, gain as int);
            lemma_step_in_interval(b.position.y as int, c.y as int, gain as int);
            assert(-2_000_000_000_000_000_000 <= (c.x - b.position.x) * gain
                <= 2_000_000_000_000_000_000) by (nonlinear_arith)
                requires
                    -2 * (POS_LIMIT as int) <= c.x - b.position.x <= 2 * (POS_LIMIT as int),
                    0 <= gain <= FIXED_ONE_SQ,
            ;
            assert(-2_000_000_000_000_000_000 <= (c.y - b.position.y) * gain
                <= 2_000_000_000_000_000_000) by (nonlinear_arith)
                requires
                    -2 * (POS_LIMIT as int) <= c.y - b.position.y <= 2 * (POS_LIMIT as int),
                    0 <= gain <= FIXED_ONE_SQ,
            ;
        }
        let dx = div_trunc((c.x - b.position.x) * gain, FIXED_ONE_SQ);
        let dy = div_trunc((c.y - b.position.y) * gain, FIXED_ONE_SQ);
        let ghost pre_moved = moved@;
        let mut nb = b;
        nb.translate(Vector2::new(dx, dy));
        moved.push(nb);
        proof {
            assert forall|j: int| 0 <= j < i + 1 implies #[trigger] stepped_at(
                boids@,
                moved@,
                gain as int,
                j,
            ) by {
                if j < i {
                    assert(stepped_at(boids@, pre_moved, gain as int, j));
                    assert(moved@[j] == pre_moved[j]);
                }
            };
        }
        i = i + 1;
    }
    proof {
        if gain == 0 {
            lemma_div_of0(FIXED_ONE_SQ as int);
            assert forall|j: int| 0 <= j < n implies moved@[j] == boids@[j] by {
                assert(stepped_at(boids@, moved@, 0, j));
                assert((centroid_x(boids@) - boids@[j].position.x) * 0 == 0);
                assert((centroid_y(boids@) - boids@[j].position.y) * 0 == 0);
            };
            assert(moved@ =~= boids@);
        }
    }
    moved
}

/// The flock update step of the simulation: move every agent toward the
/// centroid of the flock by the fraction `speed * delta_time` of its
/// remaining distance.  With `delta_time == 0` every position is left
/// unchanged, whatever the centroid; an empty flock is left unchanged
/// rather than divide by zero.
pub fn update_flock(boids: &mut Vec<Boid>, speed: i64, delta_time: i64)
    requires
        flock_wf(old(boids)@),
        0 <= speed,
        0 <= delta_time,
        speed * delta_time <= FIXED_ONE_SQ,
    ensures
        flock_stepped(old(boids)@, final(boids)@, speed * delta_time),
        flock_wf(final(boids)@),
        delta_time == 0 ==> final(boids)@ == old(boids)@,
        old(boids)@.len() == 0 ==> final(boids)@ == old(boids)@,
{
    proof {
        assert(0 <= speed * delta_time) by (nonlinear_arith)
            requires
                0 <= speed,
                0 <= delta_time,
        ;
    }
    let k = speed * delta_time;
    let moved = stepped_flock(boids, k);
    *boids = moved;
}

/// Removing one agent removes exactly its coordinates from the sums.
proof fn lemma_sum_remove(s: Seq<Boid>, i: int)
    requires
        0 <= i < s.len(),
    ensures
        sum_x(s) == sum_x(s.remove(i)) + s[i].position.x,
        sum_y(s) == sum_y(s.remove(i)) + s[i].position.y,
    decreases s.len(),
{
    if i == s.len() - 1 {
        assert(s.remove(i) =~= s.drop_last());
    } else {
        let t = s.drop_last();
        lemma_sum_remove(t, i);
        assert(s.remove(i).drop_last() =~= t.remove(i));
        assert(s.remove(i).last() == s.last());
    }
}

/// The sums of the coordinates do not depend on the order of the agents.
proof fn lemma_sum_permutation(s1: Seq<Boid>, s2: Seq<Boid>)
    requires
        s1.to_multiset() == s2.to_multiset(),
    ensures
        sum_x(s1) == sum_x(s2),
        sum_y(s1) == sum_y(s2),
    decreases s1.len(),
{
    broadcast use vstd::seq_lib::group_to_multiset_ensures;

    assert(s1.to_multiset().len() == s1.len());
    assert(s2.to_multiset().len() == s2.len());
    if s1.len() == 0 {
        assert(s2.len() == 0);
    } else {
        let i1 = s1.len() - 1;
        let v = s1[i1 as int];
        assert(s1.contains(v));
        assert(s1.to_multiset().count(v) > 0);
        assert(s2.to_multiset().count(v) > 0);
        assert(s2.contains(v));
        let j = choose|j: int| 0 <= j < s2.len() && s2[j] == v;
        lemma_sum_remove(s1, i1 as int);
        lemma_sum_remove(s2, j);
        assert(s1.remove(i1 as int).to_multiset() == s1.to_multiset().remove(v));
        assert(s2.remove(j).to_multiset() == s2.to_multiset().remove(v));
        lemma_sum_permutation(s1.remove(i1 as int), s2.remove(j));
    }
}

/// For every non-empty flock the centroid is exactly the componentwise
/// sum of the positions divided by the agent count, and it does not
/// depend on the order in which the agents are listed: two flocks that
/// hold the same agents give the same centroid.
pub proof fn lemma_centroid_order_independent(s1: Seq<Boid>, s2: Seq<Boid>)
    requires
        s1.len() > 0,
        s1.to_multiset() == s2.to_multiset(),
    ensures
        centroid_x(s1) == tdiv(sum_x(s1), s1.len() as int),
        centroid_y(s1) == tdiv(sum_y(s1), s1.len() as int),
        centroid_x(s1) == centroid_x(s2),
        centroid_y(s1) == centroid_y(s2),
{
    broadcast use vstd::seq_lib::group_to_multiset_ensures;

    lemma_sum_permutation(s1, s2);
    assert(s1.to_multiset().len() == s1.len());
    assert(s2.to_multiset().len() == s2.len());
    assert(s1.len() == s2.len());
}

/// A single-agent flock is already at rest: the centroid is the agent's
/// own position, so the cohesion direction is the zero vector and one
/// update step leaves the agent where it stands, whatever the gain
/// (speed and elapsed time).
pub proof fn lemma_single_agent_stationary(s: Seq<Boid>, gain: int)
    requires
        s.len() == 1,
    ensures
        centroid_x(s) == s[0].position.x,
        centroid_y(s) == s[0].position.y,
        step_coord(s[0].position.x as int, centroid_x(s), gain) == s[0].position.x,
        step_coord(s[0].position.y as int, centroid_y(s), gain) == s[0].position.y,
{
    assert(s.drop_last().len() == 0);
    assert(sum_x(s.drop_last()) == 0);
    assert(sum_y(s.drop_last()) == 0);
    assert(s.last() == s[0]);
    assert(sum_x(s) == s[0].position.x);
    assert(sum_y(s) == s[0].position.y);
    lemma_tdiv_multiples_vanish(s[0].position.x as int, 1);
    lemma_tdiv_multiples_vanish(s[0].position.y as int, 1);
    lemma_div_of0(FIXED_ONE_SQ as int);
}

/// Every agent at one shared position contributes that position once to
/// the sums.
proof fn lemma_sum_constant(s: Seq<Boid>, p: Vector2)
    requires
        forall|i: int| 0 <= i < s.len() ==> (#[trigger] s[i]).position == p,
    ensures
        sum_x(s) == s.len() * p.x,
        sum_y(s) == s.len() * p.y,
    decreases s.len(),
{
    if s.len() == 0 {
    } else {
        lemma_sum_constant(s.drop_last(), p);
        assert(s.last().position == p);
        assert((s.len() as int) * p.x == (s.drop_last().len() as int) * p.x + p.x)
            by (nonlinear_arith)
            requires
                s.len() as int == s.drop_last().len() as int + 1,
        ;
        assert((s.len() as int) * p.y == (s.drop_last().len() as int) * p.y + p.y)
            by (nonlinear_arith)
            requires
                s.len() as int == s.drop_last().len() as int + 1,
        ;
    }
}

/// Idempotence at equilibrium: if every agent already sits exactly at one
/// shared point, that point is the centroid, and one update step moves
/// nobody, whatever the gain (speed and elapsed time).
pub proof fn lemma_equilibrium_fixed_point(s: Seq<Boid>, gain: int)
    requires
        s.len() > 0,
        forall|i: int| 0 <= i < s.len() ==> (#[trigger] s[i]).position == s[0].position,
    ensures
        centroid_x(s) == s[0].position.x,
        centroid_y(s) == s[0].position.y,
        forall|i: int| 0 <= i < s.len() ==> step_coord(
            (#[trigger] s[i]).position.x as int,
            centroid_x(s),
            gain,
        ) == s[i].position.x && step_coord(s[i].position.y as int, centroid_y(s), gain)
            == s[i].position.y,
{
    let p = s[0].position;
    lemma_sum_constant(s, p);
    lemma_tdiv_multiples_vanish(p.x as int, s.len() as int);
    lemma_tdiv_multiples_vanish(p.y as int, s.len() as int);
    assert(centroid_x(s) == p.x);
    assert(centroid_y(s) == p.y);
    lemma_div_of0(FIXED_ONE_SQ as int);
    assert forall|i: int| 0 <= i < s.len() implies step_coord(
        (#[trigger] s[i]).position.x as int,
        centroid_x(s),
        gain,
    ) == s[i].position.x && step_coord(s[i].position.y as int, centroid_y(s), gain)
        == s[i].position.y by {
        assert(s[i].position == p);
        assert((centroid_x(s) - s[i].position.x) * gain == 0);
        assert((centroid_y(s) - s[i].position.y) * gain == 0);
    };
}

/// The centroid of a two-agent flock is the truncated midpoint of the two
/// positions.
pub proof fn lemma_pair_centroid(s: Seq<Boid>)
    requires
        s.len() == 2,
    ensures
        centroid_x(s) == tdiv(s[0].position.x + s[1].position.x, 2),
        centroid_y(s) == tdiv(s[0].position.y + s[1].position.y, 2),
{
    let t = s.drop_last();
    assert(t.len() == 1);
    assert(t.drop_last().len() == 0);
    assert(sum_x(t.drop_last()) == 0);
    assert(sum_y(t.drop_last()) == 0);
    assert(t.last() == s[0]);
    assert(s.last() == s[1]);
    assert(sum_x(t) == s[0].position.x);
    assert(sum_y(t) == s[0].position.y);
    assert(sum_x(s) == s[0].position.x + s[1].position.x);
    assert(sum_y(s) == s[0].position.y + s[1].position.y);
}

/// The truncated midpoint lies between the two coordinates, and twice the
/// midpoint is within one of their exact sum.
proof fn lemma_pair_midpoint_between(x1: int, x2: int)
    requires
        x1 <= x2,
    ensures
        x1 <= tdiv(x1 + x2, 2) <= x2,
        x1 + x2 - 1 <= 2 * tdiv(x1 + x2, 2) <= x1 + x2 + 1,
{
    let s = x1 + x2;
    if s >= 0 {
        lemma_fundamental_div_mod(s, 2);
        lemma_mod_division_less_than_divisor(s, 2);
    } else {
        lemma_fundamental_div_mod(-s, 2);
        lemma_mod_division_less_than_divisor(-s, 2);
    }
}

/// A two-agent flock never overshoots, on each axis: with the gain at
/// most `FIXED_ONE_SQ` (`speed * delta_time` at most one), one update
/// step keeps both coordinates between their old values and on their old
/// sides of each other, so their separation never grows.
pub proof fn lemma_pair_never_overshoots(x1: int, x2: int, gain: int)
    requires
        x1 <= x2,
        0 <= gain <= FIXED_ONE_SQ,
    ensures
        ({
            let c = tdiv(x1 + x2, 2);
            let n1 = step_coord(x1, c, gain);
            let n2 = step_coord(x2, c, gain);
            x1 <= n1 <= n2 <= x2 && n2 - n1 <= x2 - x1
        }),
{
    let c = tdiv(x1 + x2, 2);
    lemma_pair_midpoint_between(x1, x2);
    lemma_step_in_interval(x1, c, gain);
    lemma_step_in_interval(x2, c, gain);
}

/// Monotone convergence of a two-agent flock, on each axis: with a
/// positive gain, and a separation wide enough that truncation cannot
/// swallow the motion, one update step strictly narrows the separation
/// while still never overshooting.  (A separation too narrow for the
/// hypothesis can stall: with both agents one fixed-point step apart and
/// a small gain, each agent's displacement truncates to zero.)
pub proof fn lemma_pair_strictly_converges(x1: int, x2: int, gain: int)
    requires
        x1 < x2,
        0 < gain <= FIXED_ONE_SQ,
        (x2 - x1 - 1) * gain >= 2 * FIXED_ONE_SQ,
    ensures
        ({
            let c = tdiv(x1 + x2, 2);
            let n1 = step_coord(x1, c, gain);
            let n2 = step_coord(x2, c, gain);
            x1 <= n1 <= n2 <= x2 && 0 <= n2 - n1 < x2 - x1
        }),
{
    let ss = FIXED_ONE_SQ as int;
    let c = tdiv(x1 + x2, 2);
    lemma_pair_never_overshoots(x1, x2, gain);
    lemma_pair_midpoint_between(x1, x2);
    assert(x2 - x1 - 1 <= 2 * (x2 - c));
    lemma_mul_inequality(x2 - x1 - 1, 2 * (x2 - c), gain);
    assert((2 * (x2 - c)) * gain == 2 * ((x2 - c) * gain)) by (nonlinear_arith);
    assert((x2 - c) * gain >= ss);
    lemma_div_is_ordered(ss, (x2 - c) * gain, ss);
    lemma_div_basics(ss);
    assert(((x2 - c) * gain) / ss >= 1);
    assert((c - x2) * gain == -((x2 - c) * gain)) by (nonlinear_arith);
    assert(tdiv((c - x2) * gain, ss) <= -1);
    assert(step_coord(x2, c, gain) <= x2 - 1);
}

} // verus!
