//! Pure rectangle-splitting primitives.
//!
//! Every split is stateless and deterministic: the percentage splits place
//! the scaled share in the first (left or top) part, and the midpoint splits
//! give the first part the extra pixel when the extent is odd.

use vstd::prelude::*;

verus! {

/// Fractions are carried as an integer number of thousandths, so a valid
/// split fraction lies between `0` and `RATIO_UNIT`.
pub const RATIO_UNIT: u32 = 1000;

/// An axis-aligned pixel rectangle. A zero-area rectangle is valid: it
/// renders nothing but is never an error.
#[derive(Clone, Copy, Debug, PartialEq, Eq, Structural)]
pub struct Rect {
    pub x: i32,
    pub y: i32,
    pub w: u32,
    pub h: u32,
}

impl Rect {
    /// The right and bottom edges stay representable in `i32`, so splitting
    /// and re-merging this rectangle never overflows.
    pub open spec fn fits(self) -> bool {
        self.x + self.w <= i32::MAX && self.y + self.h <= i32::MAX
    }
}

/// A split fraction in thousandths: `Ratio { thousandths: 500 }` is one half.
/// Values above `RATIO_UNIT` denote fractions outside `[0, 1]` and are
/// rejected by the percentage splits.
#[derive(Clone, Copy, Debug, PartialEq, Eq, Structural)]
pub struct Ratio {
    pub thousandths: u32,
}

impl Ratio {
    /// The fraction lies in `[0, 1]`.
    pub open spec fn is_valid(self) -> bool {
        self.thousandths <= RATIO_UNIT
    }
}

/// A percentage split was requested with a fraction outside `[0, 1]`.
#[derive(Clone, Copy, Debug, PartialEq, Eq, Structural)]
pub enum LayoutError {
    InvalidRatio,
}

/// `extent` scaled by `ratio`, rounded half up.
pub open spec fn scaled(extent: u32, ratio: Ratio) -> int {
    (extent * ratio.thousandths + RATIO_UNIT / 2) / (RATIO_UNIT as int)
}

pub proof fn lemma_scaled_bounds(extent: u32, ratio: Ratio)
    requires
        ratio.is_valid(),
    ensures
        0 <= scaled(extent, ratio) <= extent,
{
    let e: int = extent as int;
    let t: int = ratio.thousandths as int;
    assert(0 <= (e * t + 500) / 1000 <= e) by (nonlinear_arith)
        requires
            0 <= e,
            0 <= t <= 1000,
    ;
}

/// The pair produced by a width-percentage split: the left part gets the
/// scaled share of the width, the right part the rest; heights and the
/// vertical position are unchanged.
pub open spec fn spec_split_width(r: Rect, ratio: Ratio) -> (Rect, Rect) {
    let lw: int = scaled(r.w, ratio);
    (
        Rect { x: r.x, y: r.y, w: lw as u32, h: r.h },
        Rect { x: (r.x + lw) as i32, y: r.y, w: (r.w - lw) as u32, h: r.h },
    )
}

/// The pair produced by a height-percentage split: the top part gets the
/// scaled share of the height.
pub open spec fn spec_split_height(r: Rect, ratio: Ratio) -> (Rect, Rect) {
    let th: int = scaled(r.h, ratio);
    (
        Rect { x: r.x, y: r.y, w: r.w, h: th as u32 },
        Rect { x: r.x, y: (r.y + th) as i32, w: r.w, h: (r.h - th) as u32 },
    )
}

/// Field-level consequences of a width split: the parts tile the original
/// rectangle side by side and both still fit.
pub proof fn lemma_split_width_parts(r: Rect, ratio: Ratio)
    requires
        r.fits(),
        ratio.is_valid(),
    ensures
        ({
            let (a, b) = spec_split_width(r, ratio);
            &&& a.x == r.x && a.y == r.y && a.h == r.h
            &&& b.y == r.y && b.h == r.h
            &&& a.w == scaled(r.w, ratio) && a.w <= r.w
            &&& b.x == r.x + a.w && a.w + b.w == r.w
            &&& a.fits() && b.fits()
        }),
{
    lemma_scaled_bounds(r.w, ratio);
}

/// Field-level consequences of a height split: the parts tile the original
/// rectangle one above the other and both still fit.
pub proof fn lemma_split_height_parts(r: Rect, ratio: Ratio)
    requires
        r.fits(),
        ratio.is_valid(),
    ensures
        ({
            let (a, b) = spec_split_height(r, ratio);
            &&& a.x == r.x && a.y == r.y && a.w == r.w
            &&& b.x == r.x && b.w == r.w
            &&& a.h == scaled(r.h, ratio) && a.h <= r.h
            &&& b.y == r.y + a.h && a.h + b.h == r.h
            &&& a.fits() && b.fits()
        }),
{
    lemma_scaled_bounds(r.h, ratio);
}

/// Split `r` at `ratio` of its width; the left part receives the rounded
/// share. Fails with `InvalidRatio` exactly when the fraction lies outside
/// `[0, 1]`.
pub fn split_width_pct(r: Rect, ratio: Ratio) -> (res: Result<(Rect, Rect), LayoutError>)
    requires
        r.fits(),
    ensures
        ratio.is_valid() ==> res == Ok::<_, LayoutError>(spec_split_width(r, ratio)),
        !ratio.is_valid() ==> res == Err::<(Rect, Rect), _>(LayoutError::InvalidRatio),
{
    if ratio.thousandths > RATIO_UNIT {
        return Err(LayoutError::InvalidRatio);
    }
    proof {
        lemma_scaled_bounds(r.w, ratio);
    }
    let lw: u32 = (((r.w as u64) * (ratio.thousandths as u64) + 500) / 1000) as u32;
    let rx: i32 = ((r.x as i64) + (lw as i64)) as i32;
    let left = Rect { x: r.x, y: r.y, w: lw, h: r.h };
    let right = Rect { x: rx, y: r.y, w: r.w - lw, h: r.h };
    Ok((left, right))
}

/// Split `r` at `ratio` of its height; the top part receives the rounded
/// share. Fails with `InvalidRatio` exactly when the fraction lies outside
/// `[0, 1]`.
pub fn split_height_pct(r: Rect, ratio: Ratio) -> (res: Result<(Rect, Rect), LayoutError>)
    requires
        r.fits(),
    ensures
        ratio.is_valid() ==> res == Ok::<_, LayoutError>(spec_split_height(r, ratio)),
        !ratio.is_valid() ==> res == Err::<(Rect, Rect), _>(LayoutError::InvalidRatio),
{
    if ratio.thousandths > RATIO_UNIT {
        return Err(LayoutError::InvalidRatio);
    }
    proof {
        lemma_scaled_bounds(r.h, ratio);
    }
    let th: u32 = (((r.h as u64) * (ratio.thousandths as u64) + 500) / 1000) as u32;
    let by: i32 = ((r.y as i64) + (th as i64)) as i32;
    let top = Rect { x: r.x, y: r.y, w: r.w, h: th };
    let bottom = Rect { x: r.x, y: by, w: r.w, h: r.h - th };
    Ok((top, bottom))
}

/// The pair produced by halving the width; with an odd width the left part
/// keeps the extra pixel.
pub open spec fn spec_split_mid_width(r: Rect) -> (Rect, Rect) {
    let rw: int = (r.w / 2) as int;
    (
        Rect { x: r.x, y: r.y, w: (r.w - rw) as u32, h: r.h },
        Rect { x: (r.x + (r.w - rw)) as i32, y: r.y, w: rw as u32, h: r.h },
    )
}

/// The pair produced by halving the height; with an odd height the top part
/// keeps the extra pixel.
pub open spec fn spec_split_mid_height(r: Rect) -> (Rect, Rect) {
    let bh: int = (r.h / 2) as int;
    (
        Rect { x: r.x, y: r.y, w: r.w, h: (r.h - bh) as u32 },
        Rect { x: r.x, y: (r.y + (r.h - bh)) as i32, w: r.w, h: bh as u32 },
    )
}

/// Halve the width of `r`; with an odd width the left part gets the extra
/// pixel, and position and height are unchanged.
pub fn split_mid_width(r: Rect) -> (res: (Rect, Rect))
    requires
        r.fits(),
    ensures
        res == spec_split_mid_width(r),
{
    let rw: u32 = r.w / 2;
    let lw: u32 = r.w - rw;
    let rx: i32 = ((r.x as i64) + (lw as i64)) as i32;
    (
        Rect { x: r.x, y: r.y, w: lw, h: r.h },
        Rect { x: rx, y: r.y, w: rw, h: r.h },
    )
}

/// Halve the height of `r`; with an odd height the top part gets the extra
/// pixel, and position and width are unchanged.
pub fn split_mid_height(r: Rect) -> (res: (Rect, Rect))
    requires
        r.fits(),
    ensures
        res == spec_split_mid_height(r),
{
    let bh: u32 = r.h / 2;
    let th: u32 = r.h - bh;
    let by: i32 = ((r.y as i64) + (th as i64)) as i32;
    (
        Rect { x: r.x, y: r.y, w: r.w, h: th },
        Rect { x: r.x, y: by, w: r.w, h: bh },
    )
}

} // verus!
