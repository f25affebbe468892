//! Integer plane geometry: positions, extents, headings and the box tests
//! that the simulation is built on.
//!
//! Lengths are in milli-pixels. A heading is one of `HEADING_STEPS` evenly
//! spaced directions, and its cosine and sine are fixed-point numbers with
//! `UNIT` standing for one.
use vstd::prelude::*;

verus! {

/// Largest magnitude of a coordinate that the simulation handles.
pub const MAX_COORD: i64 = 1_000_000_000_000_000;

/// Largest width or height of a sprite or of the viewport.
pub const MAX_EXTENT: i64 = 1_000_000_000_000;

/// Number of distinct headings in a full turn.
pub const HEADING_STEPS: u32 = 76;

/// Fixed-point one, for cosines and sines.
pub const UNIT: i64 = 1_000_000;

/// Scale factor one, in thousandths.
pub const SCALE_ONE: i64 = 1000;

/// Largest scale factor, in thousandths: sprites are never enlarged.
pub const MAX_SCALE: i64 = 1000;

/// Magnitude of a vector component that may be rotated.
pub const MAX_ROTATED: i64 = 1_000_000_000_000;

/// A point of the plane, in milli-pixels.
#[derive(Clone, Copy, Debug, PartialEq, Eq, Structural)]
pub struct Point {
    pub x: i64,
    pub y: i64,
}

/// Width and height of a sprite before scaling, in milli-pixels.
#[derive(Clone, Copy, Debug, PartialEq, Eq, Structural)]
pub struct Extent {
    pub w: i64,
    pub h: i64,
}

/// The bounds of the visible area, centred on the origin.
#[derive(Clone, Copy, Debug, PartialEq, Eq, Structural)]
pub struct ViewportSize {
    pub w: i64,
    pub h: i64,
}

/// A direction: `index` steps of a full turn divided in `HEADING_STEPS`,
/// counted counterclockwise from the positive x axis.
#[derive(Clone, Copy, Debug, PartialEq, Eq, Structural)]
pub struct Heading {
    pub index: u32,
}

pub open spec fn abs(v: int) -> int {
    if v < 0 {
        -v
    } else {
        v
    }
}

/// Division rounded toward zero.
pub open spec fn trunc_div(n: int, d: int) -> int {
    if n >= 0 {
        n / d
    } else {
        -((-n) / d)
    }
}

impl Point {
    pub open spec fn in_range(self) -> bool {
        abs(self.x as int) <= MAX_COORD && abs(self.y as int) <= MAX_COORD
    }
}

impl Extent {
    /// A sprite always has a positive size.
    pub open spec fn wf(self) -> bool {
        0 < self.w <= MAX_EXTENT && 0 < self.h <= MAX_EXTENT
    }
}

impl ViewportSize {
    pub open spec fn wf(self) -> bool {
        0 < self.w <= MAX_EXTENT && 0 < self.h <= MAX_EXTENT
    }
}

impl Heading {
    pub open spec fn wf(self) -> bool {
        self.index < HEADING_STEPS
    }

    /// The heading `steps` steps further counterclockwise.
    pub open spec fn turned_spec(self, steps: int) -> Heading {
        Heading { index: ((self.index as int + steps) % (HEADING_STEPS as int)) as u32 }
    }

    pub open spec fn sin_spec(self) -> int {
        sine_of_step(self.index as int)
    }

    pub open spec fn cos_spec(self) -> int {
        sine_of_step((self.index as int + 19) % (HEADING_STEPS as int))
    }

    /// The heading pointing along the positive x axis.
    pub fn identity() -> (r: Heading)
        ensures
            r.index == 0,
    {
        Heading { index: 0 }
    }

    pub fn turned(self, steps: i64) -> (r: Heading)
        requires
            self.wf(),
        ensures
            r == self.turned_spec(steps as int),
            r.wf(),
    {
        let n = HEADING_STEPS as i64;
        let m = steps % n;
        let m = if m < 0 { m + n } else { m };
        let idx = (self.index as i64 + m) % n;
        assert(((self.index as int + steps) % 76) == (self.index as int + m) % 76) by {
            assert(steps % 76 == steps - 76 * (steps / 76)) by {
                vstd::arithmetic::div_mod::lemma_fundamental_div_mod(steps as int, 76);
            }
            vstd::arithmetic::div_mod::lemma_mod_add_multiples_vanish(
                self.index as int + m,
                76,
            );
            assert(self.index as int + steps == (self.index as int + m) + 76 * (steps / 76 - (if m
                == steps % 76 { 0int } else { 1int })));
            vstd::arithmetic::div_mod::lemma_mod_multiples_vanish(
                steps / 76 - (if m == steps % 76 { 0int } else { 1int }),
                self.index as int + m,
                76,
            );
        }
        Heading { index: idx as u32 }
    }

    pub fn sin(self) -> (r: i64)
        requires
            self.wf(),
        ensures
            r == self.sin_spec(),
            -UNIT <= r <= UNIT,
    {
        sine_step(self.index)
    }

    pub fn cos(self) -> (r: i64)
        requires
            self.wf(),
        ensures
            r == self.cos_spec(),
            -UNIT <= r <= UNIT,
    {
        sine_step((self.index + 19) % HEADING_STEPS)
    }
}

/// The sine of each heading step of the first quarter turn, times `UNIT`.
pub open spec fn quarter_sine(r: int) -> int {
    if r == 0 { 0 }
    else if r == 1 { 82579 }
    else if r == 2 { 164595 }
    else if r == 3 { 245485 }
    else if r == 4 { 324699 }
    else if r == 5 { 401695 }
    else if r == 6 { 475947 }
    else if r == 7 { 546948 }
    else if r == 8 { 614213 }
    else if r == 9 { 677282 }
    else if r == 10 { 735724 }
    else if r == 11 { 789141 }
    else if r == 12 { 837166 }
    else if r == 13 { 879474 }
    else if r == 14 { 915773 }
    else if r == 15 { 945817 }
    else if r == 16 { 969400 }
    else if r == 17 { 986361 }
    else if r == 18 { 996584 }
    else { 1000000 }
}

/// The sine of heading step `k`, from the quarter table by symmetry.
pub open spec fn sine_of_step(k: int) -> int {
    let q = k / 19;
    let r = k % 19;
    if q == 0 {
        quarter_sine(r)
    } else if q == 1 {
        quarter_sine(19 - r)
    } else if q == 2 {
        -quarter_sine(r)
    } else {
        -quarter_sine(19 - r)
    }
}

fn quarter_sine_exec(r: u32) -> (v: i64)
    requires
        r <= 19,
    ensures
        v == quarter_sine(r as int),
        0 <= v <= UNIT,
{
    match r {
        0 => 0,
        1 => 82579,
        2 => 164595,
        3 => 245485,
        4 => 324699,
        5 => 401695,
        6 => 475947,
        7 => 546948,
        8 => 614213,
        9 => 677282,
        10 => 735724,
        11 => 789141,
        12 => 837166,
        13 => 879474,
        14 => 915773,
        15 => 945817,
        16 => 969400,
        17 => 986361,
        18 => 996584,
        _ => 1000000,
    }
}

fn sine_step(k: u32) -> (v: i64)
    requires
        k < HEADING_STEPS,
    ensures
        v == sine_of_step(k as int),
        -UNIT <= v <= UNIT,
{
    let q = k / 19;
    let r = k % 19;
    if q == 0 {
        quarter_sine_exec(r)
    } else if q == 1 {
        quarter_sine_exec(19 - r)
    } else if q == 2 {
        -quarter_sine_exec(r)
    } else {
        -quarter_sine_exec(19 - r)
    }
}

/// Division of `n` by a positive `d`, rounded toward zero.
pub fn div_toward_zero(n: i64, d: i64) -> (r: i64)
    requires
        n > i64::MIN,
        d > 0,
    ensures
        r == trunc_div(n as int, d as int),
{
    if n >= 0 {
        ((n as u64) / (d as u64)) as i64
    } else {
        let m = (-n) as u64;
        let q = m / (d as u64);
        assert(q <= m);
        -(q as i64)
    }
}

/// Whether two boxes, given by their centres and full (scaled) extents,
/// overlap on both axes. Touching edges count as overlapping.
pub open spec fn boxes_overlap(a: Point, aw: int, ah: int, b: Point, bw: int, bh: int) -> bool {
    2 * abs(a.x - b.x) <= aw + bw && 2 * abs(a.y - b.y) <= ah + bh
}

pub fn overlap(a: Point, aw: i64, ah: i64, b: Point, bw: i64, bh: i64) -> (r: bool)
    requires
        a.in_range(),
        b.in_range(),
        0 <= aw <= MAX_COORD,
        0 <= ah <= MAX_COORD,
        0 <= bw <= MAX_COORD,
        0 <= bh <= MAX_COORD,
    ensures
        r == boxes_overlap(a, aw as int, ah as int, b, bw as int, bh as int),
{
    let dx = if a.x >= b.x { a.x - b.x } else { b.x - a.x };
    let dy = if a.y >= b.y { a.y - b.y } else { b.y - a.y };
    2 * dx <= aw + bw && 2 * dy <= ah + bh
}

/// Whether a box of extent `size` centred on `p` lies within
/// `(viewport - size / 2) / 2` of the origin on both axes.
pub open spec fn contained_in(p: Point, size: Extent, vp: ViewportSize) -> bool {
    4 * abs(p.x as int) <= 2 * vp.w - size.w && 4 * abs(p.y as int) <= 2 * vp.h - size.h
}

/// Whether a box of extent `size` centred on `p` is farther than
/// `(viewport + size / 2) / 2` from the origin on either axis.
pub open spec fn outside_of(p: Point, size: Extent, vp: ViewportSize) -> bool {
    4 * abs(p.x as int) > 2 * vp.w + size.w || 4 * abs(p.y as int) > 2 * vp.h + size.h
}

pub fn is_contained_in_viewport(p: Point, size: Extent, vp: ViewportSize) -> (r: bool)
    requires
        p.in_range(),
        size.wf(),
        vp.wf(),
    ensures
        r == contained_in(p, size, vp),
{
    let ax = if p.x < 0 { -p.x } else { p.x };
    let ay = if p.y < 0 { -p.y } else { p.y };
    4 * ax <= 2 * vp.w - size.w && 4 * ay <= 2 * vp.h - size.h
}

pub fn is_outside_viewport(p: Point, size: Extent, vp: ViewportSize) -> (r: bool)
    requires
        p.in_range(),
        size.wf(),
        vp.wf(),
    ensures
        r == outside_of(p, size, vp),
{
    let ax = if p.x < 0 { -p.x } else { p.x };
    let ay = if p.y < 0 { -p.y } else { p.y };
    4 * ax > 2 * vp.w + size.w || 4 * ay > 2 * vp.h + size.h
}

} // verus!
