use image_loader::{Filter, Fraction, ImageError, Layout, Scaling, Size};

fn value(f: Fraction) -> f64 {
    f.num as f64 / f.den as f64
}

fn size(width: u32, height: u32) -> Size {
    Size { width, height }
}

fn layout(policy: Scaling, source: Size, target: Size, filter: Filter) -> Layout {
    policy.scale(source, target, filter).expect("valid sizes")
}

#[test]
fn none_policy_centers_source() {
    let l = layout(Scaling::Unscaled, size(200, 100), size(300, 100), Filter::Good);
    assert_eq!(value(l.x), 50.0);
    assert_eq!(value(l.y), 0.0);
    assert_eq!(l.target, size(300, 100));
    assert_eq!(value(l.scale), 1.0);
    assert_eq!(l.filter, None);
}

#[test]
fn none_policy_negative_padding_clips() {
    let l = layout(Scaling::Unscaled, size(301, 50), size(100, 100), Filter::Best);
    assert_eq!(l.x, Fraction { num: -201, den: 2 });
    assert_eq!(value(l.x), -100.5);
    assert_eq!(value(l.y), 25.0);
}

#[test]
fn fit_scales_by_smaller_ratio_and_letterboxes() {
    let l = layout(Scaling::Fit, size(400, 200), size(100, 100), Filter::Bilinear);
    assert_eq!(value(l.scale), 0.25);
    assert_eq!(value(l.x), 0.0);
    // The 50 pixel high image sits 25 pixels down: 100 in pre-scale units.
    assert_eq!(value(l.y), 100.0);
    assert_eq!(value(l.y) * value(l.scale), 25.0);
    assert_eq!(l.filter, Some(Filter::Bilinear));
    assert_eq!(l.target, size(100, 100));
}

#[test]
fn fill_scales_by_larger_ratio_and_crops_width() {
    let l = layout(Scaling::Fill, size(400, 200), size(100, 100), Filter::Nearest);
    assert_eq!(value(l.scale), 0.5);
    assert_eq!(value(l.x), -100.0);
    assert_eq!(value(l.y), 0.0);
    assert_eq!(l.filter, Some(Filter::Nearest));
}

#[test]
fn fill_crop_inside_bounds() {
    // Scale 10/1: the scaled width 100 exceeds 10 by 90, half of it is 45,
    // which is 4.5 source pixels, inside [-10, 10].
    let l = layout(Scaling::Fill, size(10, 1), size(10, 10), Filter::Fast);
    assert_eq!(value(l.scale), 10.0);
    assert_eq!(value(l.x), -4.5);
    assert_eq!(value(l.y), 0.0);
}

#[test]
fn fit_offset_clamped_to_target_length() {
    // Scale 1/10: the scaled width 0 falls 10 short, half of it is 5, which
    // is 50 source pixels, clamped to the target width 10.
    let l = layout(Scaling::Fit, size(1, 100), size(10, 10), Filter::Fast);
    assert_eq!(value(l.scale), 0.1);
    assert_eq!(value(l.x), 10.0);
    assert_eq!(value(l.y), 0.0);
}

#[test]
fn matching_aspect_gives_same_scale_and_no_crop() {
    let fit = layout(Scaling::Fit, size(400, 200), size(200, 100), Filter::Gaussian);
    let fill = layout(Scaling::Fill, size(400, 200), size(200, 100), Filter::Gaussian);
    assert_eq!(fit, fill);
    assert_eq!(value(fit.scale), 0.5);
    assert_eq!(value(fit.x), 0.0);
    assert_eq!(value(fit.y), 0.0);
}

#[test]
fn zero_dimensions_are_rejected() {
    for policy in [Scaling::Fill, Scaling::Fit, Scaling::Unscaled] {
        assert_eq!(
            policy.scale(size(0, 10), size(10, 10), Filter::Good),
            Err(ImageError::InvalidDimensions)
        );
        assert_eq!(
            policy.scale(size(10, 10), size(10, 0), Filter::Good),
            Err(ImageError::InvalidDimensions)
        );
    }
}

#[test]
fn largest_sizes_do_not_overflow() {
    let big = size(u32::MAX, u32::MAX);
    let l = layout(Scaling::Fill, size(1, 2), big, Filter::Good);
    assert_eq!(l.scale, Fraction { num: u32::MAX as i128, den: 1 });
    let l = layout(Scaling::Fit, big, size(1, 1), Filter::Good);
    assert_eq!(l.scale, Fraction { num: 1, den: u32::MAX as u64 });
    assert_eq!(value(l.x), 0.0);
}
