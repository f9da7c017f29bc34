//! The camera: a translation in world space and a zoom level.
//!
//! The scale of the view is not stored. It is `UNITS_PER_WORLD * (4/5)^level`
//! world sub-units per screen unit, which is a whole number at every level
//! between `MIN_ZOOM_LEVEL` and `MAX_ZOOM_LEVEL`. Level 0 is scale 1; each
//! level above it shrinks the scale by the factor 0.8, each level below it
//! grows the scale by the factor 1.25.

use crate::geometry::{ScreenPoint, WorldPoint, PLACEMENT_LIMIT, UNITS_PER_WORLD};
use vstd::arithmetic::div_mod::{
    lemma_div_is_ordered,
    lemma_div_multiples_vanish,
    lemma_fundamental_div_mod,
    lemma_fundamental_div_mod_converse,
};
use vstd::arithmetic::power::{lemma_pow0, lemma_pow1, lemma_pow_adds, lemma_pow_increases, lemma_pow_positive, pow};
use vstd::prelude::*;

verus! {

/// The most zoomed-in level: scale `(4/5)^8`, about 0.168.
pub const MAX_ZOOM_LEVEL: i32 = 8;

/// The most zoomed-out level: scale `(5/4)^8`, about 5.96.
pub const MIN_ZOOM_LEVEL: i32 = -8;

/// An upper bound of the scale at every level, in world sub-units per screen
/// unit: 2 to the 70th power.
pub const SCALE_LIMIT: i128 = 1_180_591_620_717_411_303_424;

/// An upper bound of the distance between two screen coordinates: 2 to the
/// 32nd power.
pub const SCREEN_SPAN: i128 = 4_294_967_296;

/// Whether `level` is a zoom level that a viewport can have.
pub open spec fn level_in_range(level: int) -> bool {
    MIN_ZOOM_LEVEL <= level <= MAX_ZOOM_LEVEL
}

/// The scale at `level`, in world sub-units per screen unit:
/// `4^(8 + level) * 5^(8 - level)`, which is `20^8 * (4/5)^level`.
pub open spec fn scale_units(level: int) -> int {
    pow(4, (8 + level) as nat) * pow(5, (8 - level) as nat)
}

/// World coordinate of a screen coordinate along one axis:
/// `(screen - half) * scale + translation`.
pub open spec fn axis_to_world(screen: int, half: int, scale: int, translation: int) -> int {
    (screen - half) * scale + translation
}

/// Screen coordinate of a world coordinate along one axis, rounded down:
/// `(world - translation) / scale + half`.
pub open spec fn axis_to_screen(world: int, half: int, scale: int, translation: int) -> int {
    (world - translation) / scale + half
}

/// The powers of 4 and 5 that bound the scale.
pub proof fn lemma_power_values()
    ensures
        pow(4, 8) == 65536,
        pow(5, 8) == 390625,
        pow(4, 16) == 4294967296,
        pow(5, 16) == 152587890625,
{
    lemma_pow1(4);
    lemma_pow_adds(4, 1, 1);
    assert(pow(4, 2) == 16);
    lemma_pow_adds(4, 2, 2);
    assert(pow(4, 4) == 256);
    lemma_pow_adds(4, 4, 4);
    assert(pow(4, 8) == 65536);
    lemma_pow_adds(4, 8, 8);
    lemma_pow1(5);
    lemma_pow_adds(5, 1, 1);
    assert(pow(5, 2) == 25);
    lemma_pow_adds(5, 2, 2);
    assert(pow(5, 4) == 625);
    lemma_pow_adds(5, 4, 4);
    assert(pow(5, 8) == 390625);
    lemma_pow_adds(5, 8, 8);
}

/// At level 0 one screen unit is one world unit.
pub proof fn lemma_scale_at_level_zero()
    ensures
        scale_units(0) == UNITS_PER_WORLD,
{
    lemma_power_values();
}

/// The scale is positive and below `SCALE_LIMIT` at every level in range.
pub proof fn lemma_scale_bounds(level: int)
    requires
        level_in_range(level),
    ensures
        0 < scale_units(level) <= SCALE_LIMIT,
{
    let a = pow(4, (8 + level) as nat);
    let b = pow(5, (8 - level) as nat);
    lemma_power_values();
    lemma_pow_positive(4, (8 + level) as nat);
    lemma_pow_positive(5, (8 - level) as nat);
    lemma_pow_increases(4, (8 + level) as nat, 16);
    lemma_pow_increases(5, (8 - level) as nat, 16);
    assert(0 < a * b <= 4294967296 * 152587890625) by (nonlinear_arith)
        requires
            0 < a <= 4294967296,
            0 < b <= 152587890625,
    ;
}

/// One level up multiplies the scale by exactly 4/5.
pub proof fn lemma_scale_step(level: int)
    requires
        MIN_ZOOM_LEVEL <= level < MAX_ZOOM_LEVEL,
    ensures
        5 * scale_units(level + 1) == 4 * scale_units(level),
{
    let a = pow(4, (8 + level) as nat);
    let b = pow(5, (7 - level) as nat);
    lemma_pow1(4);
    lemma_pow1(5);
    lemma_pow_adds(4, (8 + level) as nat, 1);
    lemma_pow_adds(5, (7 - level) as nat, 1);
    assert(pow(4, (9 + level) as nat) == a * 4);
    assert(pow(5, (8 - level) as nat) == b * 5);
    assert(5 * ((a * 4) * b) == 4 * (a * (b * 5))) by (nonlinear_arith);
}

/// The world position of a screen position fits the coordinate type.
pub proof fn lemma_world_bounds(view: ViewportState, screen: ScreenPoint, half: ScreenPoint)
    requires
        view.wf(),
    ensures
        -(SCREEN_SPAN * SCALE_LIMIT + PLACEMENT_LIMIT) <= view.world_x(screen, half) <= SCREEN_SPAN
            * SCALE_LIMIT + PLACEMENT_LIMIT,
        -(SCREEN_SPAN * SCALE_LIMIT + PLACEMENT_LIMIT) <= view.world_y(screen, half) <= SCREEN_SPAN
            * SCALE_LIMIT + PLACEMENT_LIMIT,
{
    lemma_scale_bounds(view.level as int);
    let s = view.scale_spec();
    let dx = screen.x - half.x;
    let dy = screen.y - half.y;
    assert(-4_294_967_296 * 1_180_591_620_717_411_303_424 <= dx * s <= 4_294_967_296
        * 1_180_591_620_717_411_303_424) by (nonlinear_arith)
        requires
            -4_294_967_296 <= dx <= 4_294_967_296,
            0 < s <= 1_180_591_620_717_411_303_424,
    ;
    assert(-4_294_967_296 * 1_180_591_620_717_411_303_424 <= dy * s <= 4_294_967_296
        * 1_180_591_620_717_411_303_424) by (nonlinear_arith)
        requires
            -4_294_967_296 <= dy <= 4_294_967_296,
            0 < s <= 1_180_591_620_717_411_303_424,
    ;
}

/// Computes the scale at `level`.
pub fn scale_at(level: i32) -> (s: i128)
    requires
        level_in_range(level as int),
    ensures
        s == scale_units(level as int),
        0 < s <= SCALE_LIMIT,
{
    let fours: i32 = 8 + level;
    let fives: i32 = 8 - level;
    let mut s: i128 = 1;
    let mut i: i32 = 0;
    proof {
        lemma_pow0(4);
        lemma_power_values();
    }
    while i < fours
        invariant
            0 <= i <= fours <= 16,
            s == pow(4, i as nat),
            0 < s <= 4294967296,
            pow(4, 16) == 4294967296,
        decreases fours - i,
    {
        proof {
            lemma_pow1(4);
            lemma_pow_adds(4, i as nat, 1);
            lemma_pow_positive(4, (i + 1) as nat);
            lemma_pow_increases(4, (i + 1) as nat, 16);
        }
        s = s * 4;
        i = i + 1;
    }
    let ghost a: int = s as int;
    let mut j: i32 = 0;
    proof {
        lemma_pow0(5);
    }
    while j < fives
        invariant
            0 <= j <= fives <= 16,
            a == pow(4, fours as nat),
            0 < a <= 4294967296,
            s == a * pow(5, j as nat),
            0 < pow(5, j as nat) <= 152587890625,
            pow(5, 16) == 152587890625,
        decreases fives - j,
    {
        proof {
            let b = pow(5, j as nat);
            lemma_pow1(5);
            lemma_pow_adds(5, j as nat, 1);
            lemma_pow_positive(5, (j + 1) as nat);
            lemma_pow_increases(5, (j + 1) as nat, 16);
            assert((a * b) * 5 == a * (b * 5)) by (nonlinear_arith);
            assert(0 < a * (b * 5) <= 4294967296 * 152587890625) by (nonlinear_arith)
                requires
                    0 < a <= 4294967296,
                    0 < b * 5 <= 152587890625,
            ;
        }
        s = s * 5;
        j = j + 1;
    }
    proof {
        lemma_scale_bounds(level as int);
    }
    s
}

/// The product of a screen distance and a scale, with its size.
pub fn scaled(distance: i128, scale: i128) -> (r: i128)
    requires
        -SCREEN_SPAN <= distance <= SCREEN_SPAN,
        0 < scale <= SCALE_LIMIT,
    ensures
        r == distance * scale,
        -SCREEN_SPAN * SCALE_LIMIT <= r <= SCREEN_SPAN * SCALE_LIMIT,
{
    assert(-4_294_967_296 * 1_180_591_620_717_411_303_424 <= distance * scale <= 4_294_967_296
        * 1_180_591_620_717_411_303_424) by (nonlinear_arith)
        requires
            -4_294_967_296 <= distance <= 4_294_967_296,
            0 < scale <= 1_180_591_620_717_411_303_424,
    ;
    distance * scale
}

/// The quotient of `n` by `d`, rounded down.
pub fn floor_div(n: i128, d: i128) -> (q: i128)
    requires
        d > 0,
    ensures
        q == n / d,
{
    if n >= 0 {
        let a: u128 = n as u128;
        let b: u128 = d as u128;
        let q: u128 = a / b;
        proof {
            lemma_fundamental_div_mod(n as int, d as int);
            assert(0 <= q <= n) by (nonlinear_arith)
                requires
                    n == d * q + (n % d),
                    0 <= n % d,
                    d > 0,
                    n >= 0,
                    q == n / d,
            ;
        }
        q as i128
    } else {
        let m: i128 = -(n + 1);
        let a: u128 = m as u128;
        let b: u128 = d as u128;
        let q: u128 = a / b;
        proof {
            lemma_fundamental_div_mod(m as int, d as int);
            assert(0 <= q <= m) by (nonlinear_arith)
                requires
                    m == d * q + (m % d),
                    0 <= m % d,
                    d > 0,
                    m >= 0,
                    q == m / d,
            ;
            let r = (m as int) % (d as int);
            assert(n == (-q - 1) * d + (d - 1 - r)) by (nonlinear_arith)
                requires
                    m == d * q + r,
                    m == -(n + 1),
            ;
            lemma_fundamental_div_mod_converse(n as int, d as int, -q - 1, d - 1 - r);
        }
        -(q as i128) - 1
    }
}

/// A world coordinate maps back to the screen coordinate that it came from.
pub proof fn lemma_axis_round_trip(screen: int, half: int, scale: int, translation: int)
    requires
        scale > 0,
    ensures
        axis_to_screen(axis_to_world(screen, half, scale, translation), half, scale, translation)
            == screen,
{
    lemma_div_multiples_vanish(screen - half, scale);
    assert((screen - half) * scale == scale * (screen - half)) by (nonlinear_arith);
}

/// A world coordinate lies in the cell of the screen coordinate that it maps
/// to: at or after the cell's world coordinate and less than one scale step
/// beyond it.
pub proof fn lemma_axis_cell(world: int, half: int, scale: int, translation: int)
    requires
        scale > 0,
    ensures
        axis_to_world(axis_to_screen(world, half, scale, translation), half, scale, translation)
            <= world < axis_to_world(
            axis_to_screen(world, half, scale, translation),
            half,
            scale,
            translation,
        ) + scale,
{
    let n = world - translation;
    lemma_fundamental_div_mod(n, scale);
    assert((n / scale) * scale == scale * (n / scale)) by (nonlinear_arith);
}

/// Screen coordinate of a world coordinate along one axis, if it is a screen
/// coordinate.
fn axis_screen(world: i128, half: i32, scale: i128, translation: i128) -> (r: Option<i32>)
    requires
        0 < scale <= SCALE_LIMIT,
        -PLACEMENT_LIMIT <= translation <= PLACEMENT_LIMIT,
    ensures
        r.is_some() <==> -0x8000_0000 <= axis_to_screen(
            world as int,
            half as int,
            scale as int,
            translation as int,
        ) <= 0x7fff_ffff,
        r.is_some() ==> r.unwrap() == axis_to_screen(
            world as int,
            half as int,
            scale as int,
            translation as int,
        ),
{
    // 2^126: a world coordinate beyond this is more than 2^33 screen units away.
    let far: i128 = 85_070_591_730_234_615_865_843_651_857_942_052_864;
    // 2^40
    let k: i128 = 1_099_511_627_776;
    if world > far {
        proof {
            let n = world - translation;
            assert(k * scale <= 1_099_511_627_776 * 1_180_591_620_717_411_303_424)
                by (nonlinear_arith)
                requires
                    k == 1_099_511_627_776,
                    0 < scale <= 1_180_591_620_717_411_303_424,
            ;
            assert(scale * k == k * scale) by (nonlinear_arith);
            lemma_div_is_ordered(scale * k, n, scale as int);
            lemma_div_multiples_vanish(k as int, scale as int);
        }
        return None;
    }
    if world < -far {
        proof {
            let n = world - translation;
            assert(k * scale <= 1_099_511_627_776 * 1_180_591_620_717_411_303_424)
                by (nonlinear_arith)
                requires
                    k == 1_099_511_627_776,
                    0 < scale <= 1_180_591_620_717_411_303_424,
            ;
            assert(scale * (-k) == -(k * scale)) by (nonlinear_arith);
            lemma_div_is_ordered(n, scale * (-k), scale as int);
            lemma_div_multiples_vanish(-k, scale as int);
        }
        return None;
    }
    let q: i128 = floor_div(world - translation, scale);
    proof {
        let n = world - translation;
        let sc = scale as int;
        let rem = n % sc;
        lemma_fundamental_div_mod(n, sc);
        assert(-0x4000_0000_0000_0000_0000_0000_0000_0000 - 0x10_0000_0000_0000_0000_0000_0000
            <= q <= 0x4000_0000_0000_0000_0000_0000_0000_0000
            + 0x10_0000_0000_0000_0000_0000_0000) by (nonlinear_arith)
            requires
                n == sc * q + rem,
                0 <= rem < sc,
                sc >= 1,
                -0x4000_0000_0000_0000_0000_0000_0000_0000 - 0x10_0000_0000_0000_0000_0000_0000
                    <= n <= 0x4000_0000_0000_0000_0000_0000_0000_0000
                    + 0x10_0000_0000_0000_0000_0000_0000,
        ;
    }
    let on_screen: i128 = q + half as i128;
    if -0x8000_0000 <= on_screen && on_screen <= 0x7fff_ffff {
        Some(on_screen as i32)
    } else {
        None
    }
}

/// The camera's state.
#[derive(Clone, Copy, Debug, PartialEq, Eq, Structural)]
pub struct ViewportState {
    /// World position of the viewport's centre, in world sub-units.
    pub translation: WorldPoint,
    /// Zoom level; the scale is `scale_units(level)`.
    pub level: i32,
}

impl ViewportState {
    /// The state's invariant: the translation is within the placement limit
    /// and the level is in range, so the scale is positive.
    pub open spec fn wf(self) -> bool {
        self.translation.placeable() && level_in_range(self.level as int)
    }

    /// The scale, in world sub-units per screen unit.
    pub open spec fn scale_spec(self) -> int {
        scale_units(self.level as int)
    }

    /// World x coordinate of a screen position.
    pub open spec fn world_x(self, screen: ScreenPoint, half: ScreenPoint) -> int {
        axis_to_world(screen.x as int, half.x as int, self.scale_spec(), self.translation.x as int)
    }

    /// World y coordinate of a screen position.
    pub open spec fn world_y(self, screen: ScreenPoint, half: ScreenPoint) -> int {
        axis_to_world(screen.y as int, half.y as int, self.scale_spec(), self.translation.y as int)
    }

    /// Whether `world` is the world position of `screen`.
    pub open spec fn maps_to(self, screen: ScreenPoint, half: ScreenPoint, world: WorldPoint) -> bool {
        world.x == self.world_x(screen, half) && world.y == self.world_y(screen, half)
    }

    /// The view at startup: centred on the world origin, at scale 1.
    pub fn new() -> (v: ViewportState)
        ensures
            v.wf(),
            v.translation == (WorldPoint { x: 0, y: 0 }),
            v.level == 0,
            v.scale_spec() == UNITS_PER_WORLD,
    {
        proof {
            lemma_scale_at_level_zero();
        }
        ViewportState { translation: WorldPoint { x: 0, y: 0 }, level: 0 }
    }

    /// A view with the given translation and level, if they satisfy the
    /// invariant.
    pub fn from_parts(translation: WorldPoint, level: i32) -> (r: Option<ViewportState>)
        ensures
            r.is_some() <==> translation.placeable() && level_in_range(level as int),
            r.is_some() ==> r.unwrap().wf() && r.unwrap().translation == translation
                && r.unwrap().level == level,
    {
        if translation.is_placeable() && MIN_ZOOM_LEVEL <= level && level <= MAX_ZOOM_LEVEL {
            Some(ViewportState { translation, level })
        } else {
            None
        }
    }

    /// Decides the invariant.
    pub fn is_valid(&self) -> (ok: bool)
        ensures
            ok == self.wf(),
    {
        self.translation.is_placeable() && MIN_ZOOM_LEVEL <= self.level && self.level
            <= MAX_ZOOM_LEVEL
    }

    /// The scale, in world sub-units per screen unit.
    pub fn scale(&self) -> (s: i128)
        requires
            self.wf(),
        ensures
            s == self.scale_spec(),
            0 < s <= SCALE_LIMIT,
    {
        scale_at(self.level)
    }

    /// World position of a screen position. `half` is half the window's size,
    /// the screen position of the viewport's centre. The screen position may
    /// lie outside the window.
    pub fn screen_to_world(&self, screen: ScreenPoint, half: ScreenPoint) -> (w: WorldPoint)
        requires
            self.wf(),
        ensures
            self.maps_to(screen, half, w),
    {
        let s: i128 = scale_at(self.level);
        let dx: i128 = screen.x as i128 - half.x as i128;
        let dy: i128 = screen.y as i128 - half.y as i128;
        let px: i128 = scaled(dx, s);
        let py: i128 = scaled(dy, s);
        WorldPoint { x: px + self.translation.x, y: py + self.translation.y }
    }

    /// Screen x coordinate of a world position, rounded down.
    pub open spec fn screen_x(self, world: WorldPoint, half: ScreenPoint) -> int {
        axis_to_screen(world.x as int, half.x as int, self.scale_spec(), self.translation.x as int)
    }

    /// Screen y coordinate of a world position, rounded down.
    pub open spec fn screen_y(self, world: WorldPoint, half: ScreenPoint) -> int {
        axis_to_screen(world.y as int, half.y as int, self.scale_spec(), self.translation.y as int)
    }

    /// Screen position of a world position, the inverse of
    /// `screen_to_world`, rounded down to whole screen units. `None` where the
    /// position is not a screen position because a coordinate is out of the
    /// range of screen coordinates.
    pub fn world_to_screen(&self, world: WorldPoint, half: ScreenPoint) -> (r: Option<ScreenPoint>)
        requires
            self.wf(),
        ensures
            r.is_some() <==> -0x8000_0000 <= self.screen_x(world, half) <= 0x7fff_ffff
                && -0x8000_0000 <= self.screen_y(world, half) <= 0x7fff_ffff,
            r.is_some() ==> r.unwrap().x == self.screen_x(world, half) && r.unwrap().y
                == self.screen_y(world, half),
    {
        let s: i128 = scale_at(self.level);
        match axis_screen(world.x, half.x, s, self.translation.x) {
            None => None,
            Some(x) => match axis_screen(world.y, half.y, s, self.translation.y) {
                None => None,
                Some(y) => Some(ScreenPoint { x, y }),
            },
        }
    }

    /// Round trip: the world position of a screen position maps back to that
    /// screen position.
    pub proof fn lemma_round_trip(self, screen: ScreenPoint, half: ScreenPoint, world: WorldPoint)
        requires
            self.wf(),
            self.maps_to(screen, half, world),
        ensures
            self.screen_x(world, half) == screen.x,
            self.screen_y(world, half) == screen.y,
    {
        lemma_scale_bounds(self.level as int);
        lemma_axis_round_trip(
            screen.x as int,
            half.x as int,
            self.scale_spec(),
            self.translation.x as int,
        );
        lemma_axis_round_trip(
            screen.y as int,
            half.y as int,
            self.scale_spec(),
            self.translation.y as int,
        );
    }
}

} // verus!
