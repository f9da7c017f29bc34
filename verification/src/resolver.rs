//! Click resolution: which placed image lies under a world point, and which
//! of its texels.
//!
//! An image is a rectangle centred at its translation. Along each axis it is
//! `count` texels of `texel` world sub-units each. A point on the rectangle's
//! edge is inside it. Where images overlap, the one placed last is on top.

use crate::geometry::{coord_placeable, ScreenPoint, WorldPoint, PLACEMENT_LIMIT};
use crate::viewport::ViewportState;
use vstd::arithmetic::div_mod::{
    lemma_div_is_ordered,
    lemma_div_multiples_vanish,
    lemma_fundamental_div_mod,
    lemma_fundamental_div_mod_converse,
};
use vstd::prelude::*;

verus! {

/// Whether `world` lies within the extent of `count` texels of size `texel`
/// centred at `centre`, edges included.
pub open spec fn axis_inside(world: int, centre: int, texel: int, count: int) -> bool {
    -(count * texel) <= 2 * (world - centre) <= count * texel
}

/// The index of the texel that holds `world`:
/// `floor((world - centre) / texel + count / 2)`, kept within `0 ..= count - 1`.
pub open spec fn axis_pixel(world: int, centre: int, texel: int, count: int) -> int {
    let raw = (2 * (world - centre) + count * texel) / (2 * texel);
    if raw < 0 {
        0
    } else if raw > count - 1 {
        count - 1
    } else {
        raw
    }
}

/// Whether texel `index` holds `world`: the point is at or after the texel's
/// low edge and before its high edge, or on the high edge of the last texel.
pub open spec fn axis_in_texel(world: int, centre: int, texel: int, count: int, index: int) -> bool {
    let offset = 2 * (world - centre) + count * texel;
    &&& 0 <= index < count
    &&& index * (2 * texel) <= offset
    &&& (offset < (index + 1) * (2 * texel) || (index == count - 1 && offset == count * (2
        * texel)))
}

/// Resolves one axis: the texel index if `world` is inside the extent.
pub fn axis_hit(world: i128, centre: i128, texel: u64, count: u32) -> (r: Option<u32>)
    requires
        coord_placeable(centre as int),
        texel > 0,
        count > 0,
    ensures
        r.is_some() <==> axis_inside(world as int, centre as int, texel as int, count as int),
        r.is_some() ==> r.unwrap() == axis_pixel(
            world as int,
            centre as int,
            texel as int,
            count as int,
        ),
        r.is_some() ==> axis_in_texel(
            world as int,
            centre as int,
            texel as int,
            count as int,
            r.unwrap() as int,
        ),
{
    let size: u128 = texel as u128;
    let n: u128 = count as u128;
    assert(0 < n * size <= 0xffff_ffff * 0xffff_ffff_ffff_ffff) by (nonlinear_arith)
        requires
            0 < n <= 0xffff_ffff,
            0 < size <= 0xffff_ffff_ffff_ffff,
    ;
    let extent: i128 = (n * size) as i128;
    // Far beyond every placeable image.
    if world > 4 * PLACEMENT_LIMIT || world < -4 * PLACEMENT_LIMIT {
        return None;
    }
    let twice: i128 = 2 * (world - centre);
    if twice < -extent || twice > extent {
        return None;
    }
    let numerator: u128 = (twice + extent) as u128;
    let denominator: u128 = 2 * size;
    let raw: u128 = numerator / denominator;
    proof {
        let num = numerator as int;
        let den = denominator as int;
        assert(n * den == 2 * (n * size)) by (nonlinear_arith)
            requires
                den == 2 * size,
        ;
        assert(den * n == n * den) by (nonlinear_arith);
        lemma_div_is_ordered(num, den * n, den);
        lemma_div_multiples_vanish(n as int, den);
        lemma_fundamental_div_mod(num, den);
        assert(raw * den == den * raw) by (nonlinear_arith);
        assert((raw + 1) * den == den * raw + den) by (nonlinear_arith);
        assert((raw - 1) * den == den * raw - den) by (nonlinear_arith);
    }
    if raw > n - 1 {
        Some(count - 1)
    } else {
        Some(raw as u32)
    }
}

/// An image placed in world space.
#[derive(Clone, Copy, Debug, PartialEq, Eq)]
pub struct PlacedImage {
    /// World position of the image's centre, in world sub-units.
    pub translation: WorldPoint,
    /// Width and height of one texel, in world sub-units.
    pub world_scale: (u64, u64),
    /// Native width and height, in texels.
    pub pixel_dimensions: (u32, u32),
}

impl PlacedImage {
    /// Whether the image can be hit: it has texels, they have a size, and its
    /// centre is within the placement limit. An image that is not ready is
    /// never hit.
    pub open spec fn ready(self) -> bool {
        &&& self.translation.placeable()
        &&& self.world_scale.0 > 0
        &&& self.world_scale.1 > 0
        &&& self.pixel_dimensions.0 > 0
        &&& self.pixel_dimensions.1 > 0
    }

    /// Whether the world point `(x, y)` lies on the image.
    pub open spec fn covers(self, x: int, y: int) -> bool {
        &&& self.ready()
        &&& axis_inside(
            x,
            self.translation.x as int,
            self.world_scale.0 as int,
            self.pixel_dimensions.0 as int,
        )
        &&& axis_inside(
            y,
            self.translation.y as int,
            self.world_scale.1 as int,
            self.pixel_dimensions.1 as int,
        )
    }

    /// The texel column under world coordinate `x`.
    pub open spec fn pixel_x(self, x: int) -> int {
        axis_pixel(
            x,
            self.translation.x as int,
            self.world_scale.0 as int,
            self.pixel_dimensions.0 as int,
        )
    }

    /// The texel row under world coordinate `y`.
    pub open spec fn pixel_y(self, y: int) -> int {
        axis_pixel(
            y,
            self.translation.y as int,
            self.world_scale.1 as int,
            self.pixel_dimensions.1 as int,
        )
    }

    /// Whether the texel in column `px` and row `py` holds the world point
    /// `(x, y)`.
    pub open spec fn texel_holds(self, x: int, y: int, px: int, py: int) -> bool {
        &&& axis_in_texel(
            x,
            self.translation.x as int,
            self.world_scale.0 as int,
            self.pixel_dimensions.0 as int,
            px,
        )
        &&& axis_in_texel(
            y,
            self.translation.y as int,
            self.world_scale.1 as int,
            self.pixel_dimensions.1 as int,
            py,
        )
    }

    /// An image centred at `translation`, of `pixel_dimensions` texels, each
    /// texel `world_scale` world sub-units wide and high.
    pub fn new(
        translation: WorldPoint,
        world_scale: (u64, u64),
        pixel_dimensions: (u32, u32),
    ) -> (img: PlacedImage)
        ensures
            img.translation == translation,
            img.world_scale == world_scale,
            img.pixel_dimensions == pixel_dimensions,
    {
        PlacedImage { translation, world_scale, pixel_dimensions }
    }

    /// Decides `ready`.
    pub fn is_ready(&self) -> (ok: bool)
        ensures
            ok == self.ready(),
    {
        self.translation.is_placeable() && self.world_scale.0 > 0 && self.world_scale.1 > 0
            && self.pixel_dimensions.0 > 0 && self.pixel_dimensions.1 > 0
    }

    /// The texel under the world point `p`, if `p` lies on the image.
    pub fn pixel_at(&self, p: WorldPoint) -> (r: Option<(u32, u32)>)
        ensures
            r.is_some() <==> self.covers(p.x as int, p.y as int),
            r.is_some() ==> r.unwrap().0 == self.pixel_x(p.x as int) && r.unwrap().1
                == self.pixel_y(p.y as int),
            r.is_some() ==> self.texel_holds(
                p.x as int,
                p.y as int,
                r.unwrap().0 as int,
                r.unwrap().1 as int,
            ),
    {
        if !self.is_ready() {
            return None;
        }
        match axis_hit(p.x, self.translation.x, self.world_scale.0, self.pixel_dimensions.0) {
            None => None,
            Some(px) => match axis_hit(
                p.y,
                self.translation.y,
                self.world_scale.1,
                self.pixel_dimensions.1,
            ) {
                None => None,
                Some(py) => Some((px, py)),
            },
        }
    }

    /// Whether the world point `p` lies on the image.
    pub fn contains(&self, p: WorldPoint) -> (inside: bool)
        ensures
            inside == self.covers(p.x as int, p.y as int),
    {
        self.pixel_at(p).is_some()
    }
}

/// The outcome of a click that hit an image.
#[derive(Clone, Copy, Debug, PartialEq, Eq)]
pub struct PixelHit {
    /// Position of the image in the collection.
    pub image: usize,
    /// Texel column, counted from 0.
    pub pixel_x: u32,
    /// Texel row, counted from 0.
    pub pixel_y: u32,
}

/// Whether image `i` covers `(x, y)` and no image placed after it does.
pub open spec fn is_topmost(images: Seq<PlacedImage>, x: int, y: int, i: int) -> bool {
    &&& 0 <= i < images.len()
    &&& images[i].covers(x, y)
    &&& forall|j: int| i < j < images.len() ==> !(#[trigger] images[j]).covers(x, y)
}

/// Whether no image covers `(x, y)`.
pub open spec fn nothing_covers(images: Seq<PlacedImage>, x: int, y: int) -> bool {
    forall|j: int| 0 <= j < images.len() ==> !(#[trigger] images[j]).covers(x, y)
}

/// Whether `r` is the resolution of a click at the world point `(x, y)`: the
/// topmost image that covers the point with the texel under it, which is the
/// texel that holds the point, or nothing if no image covers it.
pub open spec fn resolves_to(images: Seq<PlacedImage>, x: int, y: int, r: Option<PixelHit>) -> bool {
    match r {
        Some(hit) => {
            &&& is_topmost(images, x, y, hit.image as int)
            &&& hit.pixel_x == images[hit.image as int].pixel_x(x)
            &&& hit.pixel_y == images[hit.image as int].pixel_y(y)
            &&& images[hit.image as int].texel_holds(x, y, hit.pixel_x as int, hit.pixel_y as int)
        },
        None => nothing_covers(images, x, y),
    }
}

/// Resolves a click at the world point `p` against the images, which are in
/// the order in which they were placed.
pub fn resolve_world(images: &Vec<PlacedImage>, p: WorldPoint) -> (r: Option<PixelHit>)
    ensures
        resolves_to(images@, p.x as int, p.y as int, r),
{
    let mut i: usize = images.len();
    while i > 0
        invariant
            0 <= i <= images.len(),
            forall|j: int| i <= j < images.len() ==> !(#[trigger] images@[j]).covers(p.x as int, p.y as int),
        decreases i,
    {
        i = i - 1;
        match images[i].pixel_at(p) {
            Some((pixel_x, pixel_y)) => {
                return Some(PixelHit { image: i, pixel_x, pixel_y });
            },
            None => {},
        }
    }
    None
}

/// Resolves a click at a cursor position. Without a cursor nothing is hit.
pub fn resolve_click(
    view: &ViewportState,
    cursor: Option<ScreenPoint>,
    half: ScreenPoint,
    images: &Vec<PlacedImage>,
) -> (r: Option<PixelHit>)
    requires
        view.wf(),
    ensures
        match cursor {
            Some(c) => resolves_to(images@, view.world_x(c, half), view.world_y(c, half), r),
            None => r.is_none(),
        },
{
    match cursor {
        Some(c) => {
            let p = view.screen_to_world(c, half);
            resolve_world(images, p)
        },
        None => None,
    }
}

/// A click resolves to at most one outcome.
pub proof fn lemma_resolution_unique(
    images: Seq<PlacedImage>,
    x: int,
    y: int,
    a: Option<PixelHit>,
    b: Option<PixelHit>,
)
    requires
        resolves_to(images, x, y, a),
        resolves_to(images, x, y, b),
    ensures
        a == b,
{
    if a.is_some() && b.is_some() {
        let i = a.unwrap().image as int;
        let j = b.unwrap().image as int;
        if i < j {
            assert(!images[j].covers(x, y));
        }
        if j < i {
            assert(!images[i].covers(x, y));
        }
    } else if a.is_some() {
        assert(images[a.unwrap().image as int].covers(x, y));
    } else if b.is_some() {
        assert(images[b.unwrap().image as int].covers(x, y));
    }
}

/// Where two images both cover the clicked point, the click resolves to an
/// image, and not to one placed before the later of the two. With no third
/// image after them, it resolves to the later of the two.
pub proof fn lemma_overlap_resolves_to_topmost(
    images: Seq<PlacedImage>,
    x: int,
    y: int,
    earlier: int,
    later: int,
    r: Option<PixelHit>,
)
    requires
        0 <= earlier < later < images.len(),
        images[earlier].covers(x, y),
        images[later].covers(x, y),
        resolves_to(images, x, y, r),
    ensures
        r.is_some(),
        r.unwrap().image >= later,
        r.unwrap().image != earlier,
        later == images.len() - 1 ==> r.unwrap().image == later,
{
    if r.is_some() {
        let i = r.unwrap().image as int;
        if i < later {
            assert(!images[later].covers(x, y));
        }
    } else {
        assert(!images[later].covers(x, y));
    }
}

/// The texel index of a point inside the extent is the index of the texel
/// that holds it.
pub proof fn lemma_axis_pixel_is(world: int, centre: int, texel: int, count: int, index: int)
    requires
        texel > 0,
        count > 0,
        axis_in_texel(world, centre, texel, count, index),
    ensures
        axis_pixel(world, centre, texel, count) == index,
{
    let offset = 2 * (world - centre) + count * texel;
    let den = 2 * texel;
    if offset < (index + 1) * den {
        let rem = offset - index * den;
        assert((index + 1) * den == index * den + den) by (nonlinear_arith);
        lemma_fundamental_div_mod_converse(offset, den, index, rem);
    } else {
        assert(count * den == den * count) by (nonlinear_arith);
        lemma_div_multiples_vanish(count, den);
    }
}

/// A resolved texel lies within the image's native dimensions.
pub proof fn lemma_pixel_in_range(world: int, centre: int, texel: int, count: int)
    requires
        count > 0,
    ensures
        0 <= axis_pixel(world, centre, texel, count) < count,
{
}

} // verus!
