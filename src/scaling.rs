use vstd::prelude::*;

use crate::error::ImageError;

verus! {

/// Resampling quality handed to the rendering engine when an image is scaled.
#[derive(Debug, Clone, Copy, PartialEq, Eq, Structural)]
pub enum Filter {
    Fast,
    Good,
    Best,
    Nearest,
    Bilinear,
    Gaussian,
}

/// How a source image is fitted into a target rectangle.
#[derive(Debug, Clone, Copy, PartialEq, Eq, Structural)]
pub enum Scaling {
    /// Scale to cover the whole target, cropping the overflowing axis.
    Fill,
    /// Scale to lie wholly inside the target, padding the short axis.
    Fit,
    /// Do not scale: center the source, padding or clipping as needed.
    Unscaled,
}

/// Width and height in whole pixels.
#[derive(Debug, Clone, Copy, PartialEq, Eq, Structural)]
pub struct Size {
    pub width: u32,
    pub height: u32,
}

/// The exact rational number `num / den`.
#[derive(Debug, Clone, Copy, PartialEq, Eq, Structural)]
pub struct Fraction {
    pub num: i128,
    pub den: u64,
}

/// How to composite a source onto a target surface.
///
/// The context is scaled uniformly by `scale`, and the source is then drawn at
/// `(x, y)` in the scaled (pre-scale) coordinate space. `filter` is the
/// resampling hint, absent when no resampling takes place.
#[derive(Debug, Clone, Copy, PartialEq, Eq, Structural)]
pub struct Layout {
    pub target: Size,
    pub scale: Fraction,
    pub x: Fraction,
    pub y: Fraction,
    pub filter: Option<Filter>,
}

/// Both dimensions are positive.
pub open spec fn valid_size(s: Size) -> bool {
    s.width > 0 && s.height > 0
}

/// `a.0 / a.1 <= b.0 / b.1`, for positive denominators.
pub open spec fn ratio_le(a: (int, int), b: (int, int)) -> bool {
    a.0 * b.1 <= b.0 * a.1
}

/// The ratio `target.height / source.height`, as numerator and denominator.
pub open spec fn height_ratio(source: Size, target: Size) -> (int, int) {
    (target.height as int, source.height as int)
}

/// The ratio `target.width / source.width`, as numerator and denominator.
pub open spec fn width_ratio(source: Size, target: Size) -> (int, int) {
    (target.width as int, source.width as int)
}

/// The smaller of the two axis ratios (the height ratio on a tie).
pub open spec fn fit_scale(source: Size, target: Size) -> (int, int) {
    let h = height_ratio(source, target);
    let w = width_ratio(source, target);
    if ratio_le(h, w) { h } else { w }
}

/// The larger of the two axis ratios (the height ratio on a tie).
pub open spec fn fill_scale(source: Size, target: Size) -> (int, int) {
    let h = height_ratio(source, target);
    let w = width_ratio(source, target);
    if ratio_le(w, h) { h } else { w }
}

/// Half of `x`, rounded toward zero.
pub open spec fn half_toward_zero(x: int) -> int {
    if x >= 0 { x / 2 } else { -((-x) / 2) }
}

/// The crop offset along one axis of source length `s` and target length `t`
/// under the scale `scale.0 / scale.1`, as a numerator over `scale.0`.
///
/// The scaled extent is `floor(s * scale)`; half of its excess over `t`
/// (rounded toward zero), divided by the scale, is the offset, clamped to
/// `[-t, t]`.
pub open spec fn crop_num(s: int, t: int, scale: (int, int)) -> int {
    let excess = (s * scale.0) / scale.1 - t;
    let raw = half_toward_zero(excess) * scale.1;
    let bound = t * scale.0;
    if raw < -bound { -bound } else if raw > bound { bound } else { raw }
}

/// `f` holds the rational `v.0 / v.1` with exactly that numerator and denominator.
pub open spec fn fraction_is(f: Fraction, v: (int, int)) -> bool {
    f.num as int == v.0 && f.den as int == v.1
}

/// The layout that scales by `scale`, crops symmetrically on each axis and
/// applies `filter`.
pub open spec fn scaled_layout(
    source: Size,
    target: Size,
    scale: (int, int),
    filter: Filter,
    l: Layout,
) -> bool {
    &&& l.target == target
    &&& fraction_is(l.scale, scale)
    &&& fraction_is(l.x, (-crop_num(source.width as int, target.width as int, scale), scale.0))
    &&& fraction_is(l.y, (-crop_num(source.height as int, target.height as int, scale), scale.0))
    &&& l.filter == Some(filter)
}

/// The layout that draws the source unscaled, centered in the target.
pub open spec fn centered_layout(source: Size, target: Size, l: Layout) -> bool {
    &&& l.target == target
    &&& fraction_is(l.scale, (1, 1))
    &&& fraction_is(l.x, (target.width - source.width, 2))
    &&& fraction_is(l.y, (target.height - source.height, 2))
    &&& l.filter == Option::<Filter>::None
}

/// The layout that `policy` gives for `source` inside `target`.
pub open spec fn layout_of(
    policy: Scaling,
    source: Size,
    target: Size,
    filter: Filter,
    l: Layout,
) -> bool {
    match policy {
        Scaling::Fill => scaled_layout(source, target, fill_scale(source, target), filter, l),
        Scaling::Fit => scaled_layout(source, target, fit_scale(source, target), filter, l),
        Scaling::Unscaled => centered_layout(source, target, l),
    }
}

/// When source and target have exactly the same aspect ratio, `Fit` and `Fill`
/// choose the same scale, and that scale crops nothing on either axis: the
/// layouts the two policies give are identical, with zero offsets.
pub proof fn lemma_same_aspect_same_scale(
    source: Size,
    target: Size,
    filter: Filter,
    fit: Layout,
    fill: Layout,
)
    requires
        valid_size(source),
        valid_size(target),
        source.width as int * target.height as int == target.width as int * source.height as int,
    ensures
        fit_scale(source, target) == fill_scale(source, target),
        crop_num(source.width as int, target.width as int, fit_scale(source, target)) == 0,
        crop_num(source.height as int, target.height as int, fit_scale(source, target)) == 0,
        layout_of(Scaling::Fit, source, target, filter, fit) && layout_of(
            Scaling::Fill,
            source,
            target,
            filter,
            fill,
        ) ==> fit == fill && fit.x.num == 0 && fit.y.num == 0,
{
    let sw = source.width as int;
    let sh = source.height as int;
    let tw = target.width as int;
    let th = target.height as int;
    assert(th * sw == sw * th) by (nonlinear_arith);
    assert(fit_scale(source, target) == (th, sh));
    assert(fill_scale(source, target) == (th, sh));
    vstd::arithmetic::div_mod::lemma_div_by_multiple(tw, sh);
    vstd::arithmetic::div_mod::lemma_div_by_multiple(th, sh);
    assert(sw * th == tw * sh);
    assert(sh * th == th * sh) by (nonlinear_arith);
    assert((sw * th) / sh == tw);
    assert((sh * th) / sh == th);
    assert(half_toward_zero(0) == 0);
    assert(0 <= tw * th && 0 <= th * th) by (nonlinear_arith)
        requires
            0 < tw,
            0 < th,
    ;
    assert((sw * th) / sh - tw == 0);
    assert(half_toward_zero((sw * th) / sh - tw) * sh == 0);
    assert(crop_num(sw, tw, (th, sh)) == 0);
    assert(half_toward_zero((sh * th) / sh - th) * sh == 0);
    assert(crop_num(sh, th, (th, sh)) == 0);
}

/// Products of two `u32` values fit in a `u64`.
proof fn lemma_u32_product(a: u32, b: u32)
    ensures
        0 <= a as int * b as int <= 0xffff_fffe_0000_0001,
{
    assert(0 <= a as int * b as int <= 0xffff_fffe_0000_0001) by (nonlinear_arith)
        requires
            0 <= a <= 0xffff_ffff,
            0 <= b <= 0xffff_ffff,
    ;
}

/// The crop offset along one axis, as a numerator over `n`, for the scale `n / d`.
fn crop_offset(s: u32, t: u32, n: u32, d: u32) -> (r: i128)
    requires
        n > 0,
        d > 0,
    ensures
        r as int == crop_num(s as int, t as int, (n as int, d as int)),
        -0x1_0000_0000_0000_0000 <= r <= 0x1_0000_0000_0000_0000,
{
    proof {
        lemma_u32_product(s, n);
        lemma_u32_product(t, n);
    }
    let product: u64 = (s as u64) * (n as u64);
    let scaled: u64 = product / (d as u64);
    let excess: i128 = scaled as i128 - t as i128;
    let half: i128 = if excess >= 0 {
        ((excess as u128) / 2) as i128
    } else {
        -((((-excess) as u128) / 2) as i128)
    };
    assert(-0x1_0000_0000_0000_0000 <= half <= 0x1_0000_0000_0000_0000);
    assert(-0x1_0000_0000_0000_0000_0000_0000 <= half * d <= 0x1_0000_0000_0000_0000_0000_0000)
        by (nonlinear_arith)
        requires
            -0x1_0000_0000_0000_0000 <= half <= 0x1_0000_0000_0000_0000,
            0 < d <= 0xffff_ffff,
    ;
    let raw: i128 = half * (d as i128);
    let bound: i128 = (t as i128) * (n as i128);
    if raw < -bound {
        -bound
    } else if raw > bound {
        bound
    } else {
        raw
    }
}

impl Scaling {
    /// The layout of `source` inside `target` under this policy.
    ///
    /// Fails with `InvalidDimensions` exactly when a dimension of either size is zero.
    pub fn scale(&self, source: Size, target: Size, filter: Filter) -> (r: Result<Layout, ImageError>)
        ensures
            (valid_size(source) && valid_size(target)) <==> r is Ok,
            r is Err ==> r == Err::<Layout, ImageError>(ImageError::InvalidDimensions),
            r matches Ok(l) ==> layout_of(*self, source, target, filter, l),
    {
        if source.width == 0 || source.height == 0 || target.width == 0 || target.height == 0 {
            return Err(ImageError::InvalidDimensions);
        }
        match self {
            Scaling::Fill => Ok(Scaling::fill(source, target, filter)),
            Scaling::Fit => Ok(Scaling::fit(source, target, filter)),
            Scaling::Unscaled => Ok(Scaling::none(source, target)),
        }
    }

    /// Draws the source unscaled, centered: the padding on each axis is half
    /// of the target length minus the source length (negative when the source
    /// is larger and gets clipped).
    fn none(source: Size, target: Size) -> (r: Layout)
        ensures
            centered_layout(source, target, r),
    {
        Layout {
            target,
            scale: Fraction { num: 1, den: 1 },
            x: Fraction { num: target.width as i128 - source.width as i128, den: 2 },
            y: Fraction { num: target.height as i128 - source.height as i128, den: 2 },
            filter: Option::None,
        }
    }

    fn fit(source: Size, target: Size, filter: Filter) -> (r: Layout)
        requires
            valid_size(source),
            valid_size(target),
        ensures
            scaled_layout(source, target, fit_scale(source, target), filter, r),
    {
        Scaling::fill_or_fit(source, target, filter, false)
    }

    fn fill(source: Size, target: Size, filter: Filter) -> (r: Layout)
        requires
            valid_size(source),
            valid_size(target),
        ensures
            scaled_layout(source, target, fill_scale(source, target), filter, r),
    {
        Scaling::fill_or_fit(source, target, filter, true)
    }

    /// Scales by the larger axis ratio when `larger` holds, else by the
    /// smaller, and crops the excess evenly from both ends of each axis.
    fn fill_or_fit(source: Size, target: Size, filter: Filter, larger: bool) -> (r: Layout)
        requires
            valid_size(source),
            valid_size(target),
        ensures
            scaled_layout(
                source,
                target,
                if larger { fill_scale(source, target) } else { fit_scale(source, target) },
                filter,
                r,
            ),
    {
        proof {
            lemma_u32_product(target.height, source.width);
            lemma_u32_product(target.width, source.height);
        }
        let height_by_width: u64 = (target.height as u64) * (source.width as u64);
        let width_by_height: u64 = (target.width as u64) * (source.height as u64);
        let take_height: bool = if larger {
            width_by_height <= height_by_width
        } else {
            height_by_width <= width_by_height
        };
        let (n, d): (u32, u32) = if take_height {
            (target.height, source.height)
        } else {
            (target.width, source.width)
        };
        let crop_width: i128 = crop_offset(source.width, target.width, n, d);
        let crop_height: i128 = crop_offset(source.height, target.height, n, d);
        Layout {
            target,
            scale: Fraction { num: n as i128, den: d as u64 },
            x: Fraction { num: -crop_width, den: n as u64 },
            y: Fraction { num: -crop_height, den: n as u64 },
            filter: Some(filter),
        }
    }
}

} // verus!
