//! Plain value types shared by the whole simulation core.

use vstd::prelude::*;

verus! {

/// Integer 2-vector used for positions, velocities and camera offsets.
/// All physics is integer-stepped; there is no fractional component.
#[derive(Clone, Copy, PartialEq, Eq, Structural, Hash, Debug)]
pub struct Vec2i(pub i32, pub i32);

/// Axis-aligned rectangle, origin at the top-left corner, non-negative extent.
#[derive(Clone, Copy, PartialEq, Eq, Structural, Hash, Debug)]
pub struct Rect {
    pub x: i32,
    pub y: i32,
    pub w: u16,
    pub h: u16,
}

/// An RGBA color; kept as plain bytes, used only by rendering collaborators.
#[derive(Clone, Copy, PartialEq, Eq, Structural, Hash, Debug)]
pub struct Rgba(pub u8, pub u8, pub u8, pub u8);

/// A player entity: identity, position, velocity, and which mode's tile
/// space it currently belongs to (0 = platform mode, 1 = exploration mode).
#[derive(Clone, Copy, PartialEq, Eq, Structural, Debug)]
pub struct Player {
    pub id: i32,
    pub pos: Vec2i,
    pub vel: Vec2i,
    pub world: i32,
}

impl Player {
    /// A fresh entity: unassigned id, at the origin of the platform world.
    pub fn new() -> (p: Player)
        ensures
            p.id == -1 && p.pos == Vec2i(0, 0) && p.vel == Vec2i(0, 0) && p.world == 0,
    {
        Player { id: -1, pos: Vec2i(0, 0), vel: Vec2i(0, 0), world: 0 }
    }
}

/// Division truncating toward zero, as the machine's signed division does.
pub open spec fn div_trunc(a: int, b: int) -> int {
    if a >= 0 {
        a / b
    } else {
        -((-a) / b)
    }
}

/// Halving truncates toward zero, so it never grows a magnitude and
/// never crosses zero.
pub proof fn lemma_div_trunc_half(a: int)
    ensures
        a >= 0 ==> 0 <= div_trunc(a, 2) <= a,
        a < 0 ==> a <= div_trunc(a, 2) <= 0,
{
    if a >= 0 {
        vstd::arithmetic::div_mod::lemma_div_pos_is_pos(a, 2);
        vstd::arithmetic::div_mod::lemma_fundamental_div_mod(a, 2);
        vstd::arithmetic::div_mod::lemma_mod_bound(a, 2);
        assert(a / 2 <= a) by (nonlinear_arith)
            requires
                a == 2 * (a / 2) + a % 2,
                a % 2 >= 0,
                a / 2 >= 0,
        ;
    } else {
        vstd::arithmetic::div_mod::lemma_div_pos_is_pos(-a, 2);
        vstd::arithmetic::div_mod::lemma_fundamental_div_mod(-a, 2);
        vstd::arithmetic::div_mod::lemma_mod_bound(-a, 2);
        assert((-a) / 2 <= -a) by (nonlinear_arith)
            requires
                -a == 2 * ((-a) / 2) + (-a) % 2,
                (-a) % 2 >= 0,
                (-a) / 2 >= 0,
        ;
    }
}

/// Truncating signed division with a positive divisor.
pub fn div_trunc_i32(a: i32, b: i32) -> (q: i32)
    requires
        b > 0,
        a > i32::MIN,
    ensures
        q == div_trunc(a as int, b as int),
{
    if a >= 0 {
        a / b
    } else {
        -((-a) / b)
    }
}

} // verus!
