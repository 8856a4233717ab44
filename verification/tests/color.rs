use vibe_lights::color::Color;
use vibe_lights::timeline::BlendMode;

#[test]
fn additive_saturates_at_255() {
    let a = Color::rgb(200, 200, 200);
    let b = Color::rgb(200, 200, 200);
    let result = a + b;
    assert_eq!(result, Color::rgb(255, 255, 255));
}

#[test]
fn override_replaces_completely() {
    let bg = Color::rgb(100, 50, 200);
    let fg = Color::rgb(10, 20, 30);
    assert_eq!(bg.blend(fg, BlendMode::Override), Some(fg));
}

#[test]
fn multiply_with_white_is_identity() {
    let c = Color::rgb(123, 200, 50);
    let result = c.multiply(Color::white());
    assert_eq!(result, Color::rgb(123, 200, 50));
}

#[test]
fn multiply_with_black_is_black() {
    let c = Color::rgb(123, 200, 50);
    let result = c.multiply(Color::black());
    assert_eq!(result, Color::rgb(0, 0, 0));
}

#[test]
fn subtract_saturates_at_zero() {
    let a = Color::rgb(100, 50, 200);
    let b = Color::rgb(150, 30, 255);
    let result = a.subtract(b);
    assert_eq!(result.r, 0);
    assert_eq!(result.g, 20);
    assert_eq!(result.b, 0);
}

#[test]
fn min_per_channel() {
    let a = Color::rgb(100, 200, 50);
    let b = Color::rgb(150, 100, 75);
    let result = a.min(b);
    assert_eq!(result.r, 100);
    assert_eq!(result.g, 100);
    assert_eq!(result.b, 50);
}

#[test]
fn average_of_black_and_white() {
    let result = Color::black().average(Color::white());
    assert_eq!(result.r, 127);
    assert_eq!(result.g, 127);
    assert_eq!(result.b, 127);
}

#[test]
fn screen_with_black_is_identity() {
    let c = Color::rgb(123, 200, 50);
    let result = c.screen(Color::black());
    assert_eq!(result, Color::rgb(123, 200, 50));
}

#[test]
fn screen_with_white_is_white() {
    let c = Color::rgb(123, 200, 50);
    let result = c.screen(Color::white());
    assert_eq!(result, Color::white());
}

#[test]
fn mask_non_black_fg_produces_black() {
    let bg = Color::rgb(100, 200, 50);
    let fg = Color::rgb(1, 0, 0);
    assert_eq!(bg.blend(fg, BlendMode::Mask), Some(Color::black()));
}

#[test]
fn mask_black_fg_preserves_bg() {
    let bg = Color::rgb(100, 200, 50);
    let fg = Color::black();
    assert_eq!(bg.blend(fg, BlendMode::Mask), Some(bg));
}

#[test]
fn default_color_is_black() {
    assert_eq!(Color::default(), Color::black());
}

#[test]
fn add_keeps_small_sums_and_is_opaque() {
    let a = Color::rgba(10, 20, 30, 7);
    let b = Color::rgba(1, 2, 250, 9);
    assert_eq!(a + b, Color::rgb(11, 22, 255));
    assert_eq!(a.blend(b, BlendMode::Add), Some(Color::rgb(11, 22, 255)));
}

#[test]
fn multiply_exact_value() {
    // 128 * 128 / 255 = 64.25 -> 64
    let c = Color::rgb(128, 255, 0).multiply(Color::rgb(128, 128, 200));
    assert_eq!(c, Color::rgb(64, 128, 0));
}

#[test]
fn screen_exact_value() {
    // 255 - (127 * 127) / 255 = 255 - 63 = 192
    let c = Color::rgb(128, 0, 0).screen(Color::rgb(128, 0, 0));
    assert_eq!(c, Color::rgb(192, 0, 0));
}

#[test]
fn max_and_min_keep_alpha_extremes() {
    let a = Color::rgba(10, 200, 30, 40);
    let b = Color::rgba(20, 100, 30, 200);
    assert_eq!(a.max(b), Color::rgba(20, 200, 30, 200));
    assert_eq!(a.min(b), Color::rgba(10, 100, 30, 40));
}

#[test]
fn remaining_blend_modes_dispatch() {
    let bg = Color::rgb(100, 50, 200);
    let fg = Color::rgb(50, 100, 20);
    assert_eq!(bg.blend(fg, BlendMode::Multiply), Some(bg.multiply(fg)));
    assert_eq!(bg.blend(fg, BlendMode::Max), Some(bg.max(fg)));
    assert_eq!(bg.blend(fg, BlendMode::Subtract), Some(Color::rgb(50, 0, 180)));
    assert_eq!(bg.blend(fg, BlendMode::Min), Some(bg.min(fg)));
    assert_eq!(bg.blend(fg, BlendMode::Average), Some(Color::rgb(75, 75, 110)));
    assert_eq!(bg.blend(fg, BlendMode::Screen), Some(bg.screen(fg)));
}

#[test]
fn fractional_modes_are_left_to_the_caller() {
    let bg = Color::rgb(100, 50, 200);
    let fg = Color::rgba(50, 100, 20, 128);
    assert_eq!(bg.blend(fg, BlendMode::Alpha), None);
    assert_eq!(bg.blend(fg, BlendMode::IntensityOverlay), None);
}
