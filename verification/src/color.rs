//! RGBA colours with 8-bit channels and the per-channel blend operations
//! used when effect layers are composed.

use vstd::prelude::*;

use crate::timeline::BlendMode;

verus! {

/// RGBA color with 8-bit channels. Alpha is used for blending during composition.
#[derive(Debug, Clone, Copy, PartialEq, Eq, Structural)]
pub struct Color {
    pub r: u8,
    pub g: u8,
    pub b: u8,
    pub a: u8,
}

// ── Channel arithmetic (mathematical statements) ───────────────────

/// `x * y / 255`, the multiplicative blend of two channels.
pub open spec fn mul_channel(x: u8, y: u8) -> u8 {
    ((x as int * y as int) / 255) as u8
}

/// `255 - (255 - x)(255 - y) / 255`, the screen blend of two channels.
pub open spec fn screen_channel(x: u8, y: u8) -> u8 {
    (255 - ((255 - x) * (255 - y)) / 255) as u8
}

/// Channel sum clamped at 255.
pub open spec fn sat_add_channel(x: u8, y: u8) -> u8 {
    if x + y > 255 { 255u8 } else { (x + y) as u8 }
}

/// Channel difference clamped at 0.
pub open spec fn sat_sub_channel(x: u8, y: u8) -> u8 {
    if x < y { 0u8 } else { (x - y) as u8 }
}

/// The midpoint of two channels, rounded down.
pub open spec fn avg_channel(x: u8, y: u8) -> u8 {
    ((x + y) / 2) as u8
}

/// The larger of two channel values.
pub open spec fn max_channel(x: u8, y: u8) -> u8 {
    if x < y { y } else { x }
}

/// The smaller of two channel values.
pub open spec fn min_channel(x: u8, y: u8) -> u8 {
    if x < y { x } else { y }
}

// ── Whole-colour operations ────────────────────────────────────────

/// An opaque colour.
pub open spec fn spec_rgb(r: u8, g: u8, b: u8) -> Color {
    Color { r, g, b, a: 255 }
}

/// Opaque black.
pub open spec fn spec_black() -> Color {
    Color { r: 0, g: 0, b: 0, a: 255 }
}

/// Opaque white.
pub open spec fn spec_white() -> Color {
    Color { r: 255, g: 255, b: 255, a: 255 }
}

/// Fully transparent black.
pub open spec fn spec_transparent() -> Color {
    Color { r: 0, g: 0, b: 0, a: 0 }
}

/// Additive blend: per-channel saturating sum, opaque.
pub open spec fn spec_add(x: Color, y: Color) -> Color {
    spec_rgb(sat_add_channel(x.r, y.r), sat_add_channel(x.g, y.g), sat_add_channel(x.b, y.b))
}

/// Multiplicative blend: per-channel product scaled to 0-255, opaque.
pub open spec fn spec_multiply(x: Color, y: Color) -> Color {
    spec_rgb(mul_channel(x.r, y.r), mul_channel(x.g, y.g), mul_channel(x.b, y.b))
}

/// Per-channel maximum, alpha included.
pub open spec fn spec_max(x: Color, y: Color) -> Color {
    Color {
        r: max_channel(x.r, y.r),
        g: max_channel(x.g, y.g),
        b: max_channel(x.b, y.b),
        a: max_channel(x.a, y.a),
    }
}

/// Per-channel minimum, alpha included.
pub open spec fn spec_min(x: Color, y: Color) -> Color {
    Color {
        r: min_channel(x.r, y.r),
        g: min_channel(x.g, y.g),
        b: min_channel(x.b, y.b),
        a: min_channel(x.a, y.a),
    }
}

/// Per-channel saturating difference, opaque.
pub open spec fn spec_subtract(x: Color, y: Color) -> Color {
    spec_rgb(sat_sub_channel(x.r, y.r), sat_sub_channel(x.g, y.g), sat_sub_channel(x.b, y.b))
}

/// Per-channel average rounded down, opaque.
pub open spec fn spec_average(x: Color, y: Color) -> Color {
    spec_rgb(avg_channel(x.r, y.r), avg_channel(x.g, y.g), avg_channel(x.b, y.b))
}

/// Screen blend: the complement of multiplying the complements, opaque.
pub open spec fn spec_screen(x: Color, y: Color) -> Color {
    spec_rgb(screen_channel(x.r, y.r), screen_channel(x.g, y.g), screen_channel(x.b, y.b))
}

/// Whether `mode` weighs the layers by a fractional amount (alpha
/// compositing, or scaling by luma) and so is computed in floating point
/// by the caller rather than here.
pub open spec fn is_fractional_mode(mode: BlendMode) -> bool {
    mode == BlendMode::Alpha || mode == BlendMode::IntensityOverlay
}

/// `fg` blended onto the background `bg` under `mode`, for every mode that
/// works on whole channel values; `None` for the fractional modes.
pub open spec fn spec_blend(bg: Color, fg: Color, mode: BlendMode) -> Option<Color> {
    match mode {
        BlendMode::Override => Some(fg),
        BlendMode::Add => Some(spec_add(bg, fg)),
        BlendMode::Multiply => Some(spec_multiply(bg, fg)),
        BlendMode::Max => Some(spec_max(bg, fg)),
        BlendMode::Subtract => Some(spec_subtract(bg, fg)),
        BlendMode::Min => Some(spec_min(bg, fg)),
        BlendMode::Average => Some(spec_average(bg, fg)),
        BlendMode::Screen => Some(spec_screen(bg, fg)),
        BlendMode::Mask => Some(
            if fg.r > 0 || fg.g > 0 || fg.b > 0 {
                spec_black()
            } else {
                bg
            },
        ),
        BlendMode::Alpha | BlendMode::IntensityOverlay => None,
    }
}

// ── Laws ───────────────────────────────────────────────────────────

/// Additive blending is commutative, and adding black leaves the colour
/// channels unchanged (alpha becomes opaque).
pub proof fn lemma_add_commutes_black_identity(x: Color, y: Color)
    ensures
        spec_add(x, y) == spec_add(y, x),
        spec_add(x, spec_black()) == spec_rgb(x.r, x.g, x.b),
{
}

/// Multiplying by white leaves the colour channels unchanged; multiplying
/// by black gives black.
pub proof fn lemma_multiply_white_black(c: Color)
    ensures
        spec_multiply(c, spec_white()) == spec_rgb(c.r, c.g, c.b),
        spec_multiply(c, spec_black()) == spec_rgb(0, 0, 0),
{
    assert(mul_channel(c.r, 255) == c.r);
    assert(mul_channel(c.g, 255) == c.g);
    assert(mul_channel(c.b, 255) == c.b);
}

/// Multiplication and screen blends are commutative.
pub proof fn lemma_multiply_screen_commute(x: Color, y: Color)
    ensures
        spec_multiply(x, y) == spec_multiply(y, x),
        spec_screen(x, y) == spec_screen(y, x),
{
    assert(x.r as int * y.r as int == y.r as int * x.r as int) by (nonlinear_arith);
    assert(x.g as int * y.g as int == y.g as int * x.g as int) by (nonlinear_arith);
    assert(x.b as int * y.b as int == y.b as int * x.b as int) by (nonlinear_arith);
    assert((255 - x.r) * (255 - y.r) == (255 - y.r) * (255 - x.r)) by (nonlinear_arith);
    assert((255 - x.g) * (255 - y.g) == (255 - y.g) * (255 - x.g)) by (nonlinear_arith);
    assert((255 - x.b) * (255 - y.b) == (255 - y.b) * (255 - x.b)) by (nonlinear_arith);
}

/// Screening with black leaves the colour channels unchanged; screening
/// with white gives white.
pub proof fn lemma_screen_black_white(c: Color)
    ensures
        spec_screen(c, spec_black()) == spec_rgb(c.r, c.g, c.b),
        spec_screen(c, spec_white()) == spec_white(),
{
    assert(((255 - c.r) * 255) / 255 == 255 - c.r) by (nonlinear_arith)
        requires
            c.r <= 255,
    ;
    assert(((255 - c.g) * 255) / 255 == 255 - c.g) by (nonlinear_arith)
        requires
            c.g <= 255,
    ;
    assert(((255 - c.b) * 255) / 255 == 255 - c.b) by (nonlinear_arith)
        requires
            c.b <= 255,
    ;
}

/// Per-channel minimum, maximum and average are commutative, and each
/// lies between the two inputs.
pub proof fn lemma_min_max_average(x: Color, y: Color)
    ensures
        spec_min(x, y) == spec_min(y, x),
        spec_max(x, y) == spec_max(y, x),
        spec_average(x, y) == spec_average(y, x),
        spec_min(x, y).r <= spec_average(x, y).r <= spec_max(x, y).r,
        spec_min(x, y).g <= spec_average(x, y).g <= spec_max(x, y).g,
        spec_min(x, y).b <= spec_average(x, y).b <= spec_max(x, y).b,
{
}

/// Saturating subtraction never goes below zero and never exceeds the
/// minuend; subtracting a colour from itself gives black.
pub proof fn lemma_subtract_saturates(x: Color, y: Color)
    ensures
        spec_subtract(x, y).r <= x.r,
        spec_subtract(x, y).g <= x.g,
        spec_subtract(x, y).b <= x.b,
        y.r >= x.r ==> spec_subtract(x, y).r == 0,
        y.g >= x.g ==> spec_subtract(x, y).g == 0,
        y.b >= x.b ==> spec_subtract(x, y).b == 0,
        spec_subtract(x, x) == spec_rgb(0, 0, 0),
{
}

/// Override returns the foreground; a mask with any lit foreground channel
/// gives black, and a mask whose foreground is black keeps the background.
pub proof fn lemma_override_and_mask(bg: Color, fg: Color)
    ensures
        spec_blend(bg, fg, BlendMode::Override) == Some(fg),
        (fg.r > 0 || fg.g > 0 || fg.b > 0) ==> spec_blend(bg, fg, BlendMode::Mask)
            == Some(spec_black()),
        (fg.r == 0 && fg.g == 0 && fg.b == 0) ==> spec_blend(bg, fg, BlendMode::Mask) == Some(bg),
{
}

/// Every blend mode that discards the layers' alpha yields an opaque colour.
pub proof fn lemma_blend_opaque_modes(bg: Color, fg: Color, mode: BlendMode)
    requires
        mode == BlendMode::Add || mode == BlendMode::Multiply || mode == BlendMode::Subtract
            || mode == BlendMode::Average || mode == BlendMode::Screen,
    ensures
        spec_blend(bg, fg, mode) is Some,
        (spec_blend(bg, fg, mode)->0).a == 255,
{
}

/// Blending gives a colour for every mode but the two fractional ones.
pub proof fn lemma_blend_defined(bg: Color, fg: Color, mode: BlendMode)
    ensures
        (spec_blend(bg, fg, mode) is None) == is_fractional_mode(mode),
{
}

// ── Channel helpers ────────────────────────────────────────────────

fn mul_u8(x: u8, y: u8) -> (r: u8)
    ensures
        r == mul_channel(x, y),
{
    assert(x as int * y as int <= 255 * 255) by (nonlinear_arith)
        requires
            x <= 255,
            y <= 255,
    ;
    assert((x as int * y as int) / 255 <= 255) by (nonlinear_arith)
        requires
            x as int * y as int <= 255 * 255,
    ;
    ((x as u16 * y as u16) / 255) as u8
}

fn screen_u8(x: u8, y: u8) -> (r: u8)
    ensures
        r == screen_channel(x, y),
{
    let p: u8 = mul_u8(255 - x, 255 - y);
    assert(((255 - x) * (255 - y)) / 255 <= 255) by (nonlinear_arith)
        requires
            x <= 255,
            y <= 255,
    ;
    255 - p
}

fn avg_u8(x: u8, y: u8) -> (r: u8)
    ensures
        r == avg_channel(x, y),
{
    ((x as u16 + y as u16) / 2) as u8
}

fn max_u8(x: u8, y: u8) -> (r: u8)
    ensures
        r == max_channel(x, y),
{
    if x < y { y } else { x }
}

fn min_u8(x: u8, y: u8) -> (r: u8)
    ensures
        r == min_channel(x, y),
{
    if x < y { x } else { y }
}

impl Color {
    /// Opaque black.
    pub fn black() -> (c: Self)
        ensures
            c == spec_black(),
    {
        Color { r: 0, g: 0, b: 0, a: 255 }
    }

    /// Opaque white.
    pub fn white() -> (c: Self)
        ensures
            c == spec_white(),
    {
        Color { r: 255, g: 255, b: 255, a: 255 }
    }

    /// Fully transparent black.
    pub fn transparent() -> (c: Self)
        ensures
            c == spec_transparent(),
    {
        Color { r: 0, g: 0, b: 0, a: 0 }
    }

    /// An opaque colour.
    pub fn rgb(r: u8, g: u8, b: u8) -> (c: Self)
        ensures
            c == spec_rgb(r, g, b),
    {
        Self { r, g, b, a: 255 }
    }

    /// A colour with an explicit alpha.
    pub fn rgba(r: u8, g: u8, b: u8, a: u8) -> (c: Self)
        ensures
            c == (Color { r, g, b, a }),
    {
        Self { r, g, b, a }
    }

    /// Multiplicative blend (0-255 scale).
    pub fn multiply(self, other: Self) -> (c: Self)
        ensures
            c == spec_multiply(self, other),
    {
        Self {
            r: mul_u8(self.r, other.r),
            g: mul_u8(self.g, other.g),
            b: mul_u8(self.b, other.b),
            a: 255,
        }
    }

    /// Per-channel maximum.
    pub fn max(self, other: Self) -> (c: Self)
        ensures
            c == spec_max(self, other),
    {
        Self {
            r: max_u8(self.r, other.r),
            g: max_u8(self.g, other.g),
            b: max_u8(self.b, other.b),
            a: max_u8(self.a, other.a),
        }
    }

    /// Saturating subtraction per channel.
    pub fn subtract(self, other: Self) -> (c: Self)
        ensures
            c == spec_subtract(self, other),
    {
        Self {
            r: self.r.saturating_sub(other.r),
            g: self.g.saturating_sub(other.g),
            b: self.b.saturating_sub(other.b),
            a: 255,
        }
    }

    /// Per-channel minimum.
    pub fn min(self, other: Self) -> (c: Self)
        ensures
            c == spec_min(self, other),
    {
        Self {
            r: min_u8(self.r, other.r),
            g: min_u8(self.g, other.g),
            b: min_u8(self.b, other.b),
            a: min_u8(self.a, other.a),
        }
    }

    /// Per-channel average.
    pub fn average(self, other: Self) -> (c: Self)
        ensures
            c == spec_average(self, other),
    {
        Self {
            r: avg_u8(self.r, other.r),
            g: avg_u8(self.g, other.g),
            b: avg_u8(self.b, other.b),
            a: 255,
        }
    }

    /// Screen blend: complement of multiply.
    pub fn screen(self, other: Self) -> (c: Self)
        ensures
            c == spec_screen(self, other),
    {
        Self {
            r: screen_u8(self.r, other.r),
            g: screen_u8(self.g, other.g),
            b: screen_u8(self.b, other.b),
            a: 255,
        }
    }

    /// Blend `fg` onto `self` (background) using the given blend mode.
    ///
    /// `None` for the fractional modes, alpha compositing and intensity
    /// overlay, which weigh channels by alpha or luma fractions and are
    /// computed in floating point by the caller.
    pub fn blend(self, fg: Self, mode: BlendMode) -> (c: Option<Self>)
        ensures
            c == spec_blend(self, fg, mode),
    {
        match mode {
            BlendMode::Override => Some(fg),
            BlendMode::Add => Some(self + fg),
            BlendMode::Multiply => Some(self.multiply(fg)),
            BlendMode::Max => Some(self.max(fg)),
            BlendMode::Subtract => Some(self.subtract(fg)),
            BlendMode::Min => Some(self.min(fg)),
            BlendMode::Average => Some(self.average(fg)),
            BlendMode::Screen => Some(self.screen(fg)),
            BlendMode::Mask => {
                if fg.r > 0 || fg.g > 0 || fg.b > 0 {
                    Some(Color::black())
                } else {
                    Some(self)
                }
            },
            BlendMode::Alpha | BlendMode::IntensityOverlay => None,
        }
    }
}

impl Default for Color {
    fn default() -> (c: Self)
        ensures
            c == spec_black(),
    {
        Self::black()
    }
}

/// Additive blend, clamped at 255 per channel.
impl core::ops::Add for Color {
    type Output = Self;

    fn add(self, other: Self) -> (c: Self)
        ensures
            c == spec_add(self, other),
    {
        Self {
            r: self.r.saturating_add(other.r),
            g: self.g.saturating_add(other.g),
            b: self.b.saturating_add(other.b),
            a: 255,
        }
    }
}

impl vstd::std_specs::ops::AddSpecImpl for Color {
    open spec fn obeys_add_spec() -> bool {
        true
    }

    open spec fn add_req(self, rhs: Color) -> bool {
        true
    }

    open spec fn add_spec(self, rhs: Color) -> Color {
        spec_add(self, rhs)
    }
}

} // verus!
