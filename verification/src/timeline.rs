//! Effect vocabulary of the timeline: blend modes, wipe directions, colour
//! modes, effect kinds and parameter keys.

use vstd::prelude::*;

use vstd::string::*;

use crate::text::str_eq;

verus! {

/// How multiple effect layers combine their output.
#[derive(Debug, Clone, Copy, PartialEq, Eq, Structural)]
pub enum BlendMode {
    /// Top layer fully replaces the layer below.
    Override,
    /// Additive blend (clamped at 255 per channel).
    Add,
    /// Multiplicative blend.
    Multiply,
    /// Per-channel maximum.
    Max,
    /// Alpha composite (foreground over background).
    Alpha,
    /// Saturating subtraction per channel.
    Subtract,
    /// Per-channel minimum.
    Min,
    /// Per-channel average.
    Average,
    /// Screen blend (complement of multiply).
    Screen,
    /// Where foreground is non-black, output black; else preserve background.
    Mask,
    /// Scale background brightness by foreground luminance.
    IntensityOverlay,
}

/// Every blend mode, in declaration order.
pub open spec fn all_blend_modes() -> Seq<BlendMode> {
    seq![
        BlendMode::Override,
        BlendMode::Add,
        BlendMode::Multiply,
        BlendMode::Max,
        BlendMode::Alpha,
        BlendMode::Subtract,
        BlendMode::Min,
        BlendMode::Average,
        BlendMode::Screen,
        BlendMode::Mask,
        BlendMode::IntensityOverlay,
    ]
}

impl BlendMode {
    /// All blend modes, in declaration order.
    pub fn all() -> (r: &'static [BlendMode])
        ensures
            r@ == all_blend_modes(),
    {
        &[
            BlendMode::Override,
            BlendMode::Add,
            BlendMode::Multiply,
            BlendMode::Max,
            BlendMode::Alpha,
            BlendMode::Subtract,
            BlendMode::Min,
            BlendMode::Average,
            BlendMode::Screen,
            BlendMode::Mask,
            BlendMode::IntensityOverlay,
        ]
    }
}

/// Which direction a wipe effect sweeps across fixtures.
#[derive(Debug, Clone, Copy, PartialEq, Eq, Structural)]
pub enum WipeDirection {
    Horizontal,
    Vertical,
    DiagonalUp,
    DiagonalDown,
    Burst,
    Circle,
    Diamond,
}

impl Default for WipeDirection {
    fn default() -> (d: Self)
        ensures
            d == WipeDirection::Horizontal,
    {
        WipeDirection::Horizontal
    }
}

/// Every wipe direction, in declaration order.
pub open spec fn all_wipe_directions() -> Seq<WipeDirection> {
    seq![
        WipeDirection::Horizontal,
        WipeDirection::Vertical,
        WipeDirection::DiagonalUp,
        WipeDirection::DiagonalDown,
        WipeDirection::Burst,
        WipeDirection::Circle,
        WipeDirection::Diamond,
    ]
}

impl WipeDirection {
    /// All wipe directions, in declaration order.
    pub fn all() -> (r: &'static [WipeDirection])
        ensures
            r@ == all_wipe_directions(),
    {
        &[
            WipeDirection::Horizontal,
            WipeDirection::Vertical,
            WipeDirection::DiagonalUp,
            WipeDirection::DiagonalDown,
            WipeDirection::Burst,
            WipeDirection::Circle,
            WipeDirection::Diamond,
        ]
    }
}

/// How gradient colors are applied across time/space.
#[derive(Debug, Clone, Copy, PartialEq, Eq, Structural)]
pub enum ColorMode {
    Static,
    GradientPerPulse,
    GradientThroughEffect,
    GradientAcrossItems,
}

/// Every colour mode, in declaration order.
pub open spec fn all_color_modes() -> Seq<ColorMode> {
    seq![
        ColorMode::Static,
        ColorMode::GradientPerPulse,
        ColorMode::GradientThroughEffect,
        ColorMode::GradientAcrossItems,
    ]
}

impl ColorMode {
    /// All colour modes, in declaration order.
    pub fn all() -> (r: &'static [ColorMode])
        ensures
            r@ == all_color_modes(),
    {
        &[
            ColorMode::Static,
            ColorMode::GradientPerPulse,
            ColorMode::GradientThroughEffect,
            ColorMode::GradientAcrossItems,
        ]
    }
}

/// Which effect type an instance uses.
/// Built-in effects are enum variants; DSL scripts use `Script(name)`.
#[derive(Debug, Clone)]
pub enum EffectKind {
    Solid,
    Chase,
    Rainbow,
    Strobe,
    Gradient,
    Twinkle,
    Fade,
    Wipe,
    /// A DSL-scripted effect. The string is the script name (key into Show::scripts).
    Script(String),
}

/// Equality of effect kinds: the same built-in variant, or scripts of the same name.
pub open spec fn effect_kind_eq(x: EffectKind, y: EffectKind) -> bool {
    match (x, y) {
        (EffectKind::Solid, EffectKind::Solid) => true,
        (EffectKind::Chase, EffectKind::Chase) => true,
        (EffectKind::Rainbow, EffectKind::Rainbow) => true,
        (EffectKind::Strobe, EffectKind::Strobe) => true,
        (EffectKind::Gradient, EffectKind::Gradient) => true,
        (EffectKind::Twinkle, EffectKind::Twinkle) => true,
        (EffectKind::Fade, EffectKind::Fade) => true,
        (EffectKind::Wipe, EffectKind::Wipe) => true,
        (EffectKind::Script(a), EffectKind::Script(b)) => a@ == b@,
        _ => false,
    }
}

impl PartialEq for EffectKind {
    fn eq(&self, other: &Self) -> (r: bool) {
        match (self, other) {
            (EffectKind::Solid, EffectKind::Solid) => true,
            (EffectKind::Chase, EffectKind::Chase) => true,
            (EffectKind::Rainbow, EffectKind::Rainbow) => true,
            (EffectKind::Strobe, EffectKind::Strobe) => true,
            (EffectKind::Gradient, EffectKind::Gradient) => true,
            (EffectKind::Twinkle, EffectKind::Twinkle) => true,
            (EffectKind::Fade, EffectKind::Fade) => true,
            (EffectKind::Wipe, EffectKind::Wipe) => true,
            (EffectKind::Script(a), EffectKind::Script(b)) => str_eq(a.as_str(), b.as_str()),
            _ => false,
        }
    }
}

impl vstd::std_specs::cmp::PartialEqSpecImpl for EffectKind {
    open spec fn obeys_eq_spec() -> bool {
        true
    }

    open spec fn eq_spec(&self, other: &Self) -> bool {
        effect_kind_eq(*self, *other)
    }
}

impl Eq for EffectKind {}

/// Every built-in effect kind (excludes scripts), in declaration order.
pub open spec fn all_builtin_effect_kinds() -> Seq<EffectKind> {
    seq![
        EffectKind::Solid,
        EffectKind::Chase,
        EffectKind::Rainbow,
        EffectKind::Strobe,
        EffectKind::Gradient,
        EffectKind::Twinkle,
        EffectKind::Fade,
        EffectKind::Wipe,
    ]
}

impl EffectKind {
    /// All built-in effect kinds (excludes Script).
    pub fn all_builtin() -> (r: &'static [EffectKind])
        ensures
            r@ == all_builtin_effect_kinds(),
    {
        &[
            EffectKind::Solid,
            EffectKind::Chase,
            EffectKind::Rainbow,
            EffectKind::Strobe,
            EffectKind::Gradient,
            EffectKind::Twinkle,
            EffectKind::Fade,
            EffectKind::Wipe,
        ]
    }
}

/// The name of an effect kind: the variant name of a built-in kind, and
/// `Script(<name>)` for a script.
pub open spec fn effect_kind_name(k: EffectKind) -> Seq<char> {
    match k {
        EffectKind::Solid => "Solid"@,
        EffectKind::Chase => "Chase"@,
        EffectKind::Rainbow => "Rainbow"@,
        EffectKind::Strobe => "Strobe"@,
        EffectKind::Gradient => "Gradient"@,
        EffectKind::Twinkle => "Twinkle"@,
        EffectKind::Fade => "Fade"@,
        EffectKind::Wipe => "Wipe"@,
        EffectKind::Script(n) => "Script("@ + n@ + ")"@,
    }
}

impl EffectKind {
    /// The kind's stable, human-readable name (see `effect_kind_name`).
    pub fn name(&self) -> (r: String)
        ensures
            r@ == effect_kind_name(*self),
    {
        match self {
            EffectKind::Solid => String::from_str("Solid"),
            EffectKind::Chase => String::from_str("Chase"),
            EffectKind::Rainbow => String::from_str("Rainbow"),
            EffectKind::Strobe => String::from_str("Strobe"),
            EffectKind::Gradient => String::from_str("Gradient"),
            EffectKind::Twinkle => String::from_str("Twinkle"),
            EffectKind::Fade => String::from_str("Fade"),
            EffectKind::Wipe => String::from_str("Wipe"),
            EffectKind::Script(n) => {
                let mut r = String::from_str("Script(");
                r.append(n.as_str());
                r.append(")");
                r
            },
        }
    }
}

/// All known effect parameter keys.
/// Built-in keys are named by their variant name; `Custom` keys by their raw string.
/// Unknown strings read back as `Custom(s)` so script params round-trip.
#[derive(Debug, Clone, Hash)]
pub enum ParamKey {
    Color,
    Colors,
    Gradient,
    MovementCurve,
    PulseCurve,
    IntensityCurve,
    ColorMode,
    Speed,
    PulseWidth,
    BackgroundLevel,
    Reverse,
    Spread,
    Saturation,
    Brightness,
    Rate,
    DutyCycle,
    Density,
    Offset,
    Direction,
    CenterX,
    CenterY,
    PassCount,
    WipeOn,
    /// Custom parameter key for DSL-defined effects.
    Custom(String),
}

/// The built-in key whose name is `s`, if any.
pub open spec fn builtin_param_key(s: Seq<char>) -> Option<ParamKey> {
    if s == "Color"@ {
        Some(ParamKey::Color)
    } else if s == "Colors"@ {
        Some(ParamKey::Colors)
    } else if s == "Gradient"@ {
        Some(ParamKey::Gradient)
    } else if s == "MovementCurve"@ {
        Some(ParamKey::MovementCurve)
    } else if s == "PulseCurve"@ {
        Some(ParamKey::PulseCurve)
    } else if s == "IntensityCurve"@ {
        Some(ParamKey::IntensityCurve)
    } else if s == "ColorMode"@ {
        Some(ParamKey::ColorMode)
    } else if s == "Speed"@ {
        Some(ParamKey::Speed)
    } else if s == "PulseWidth"@ {
        Some(ParamKey::PulseWidth)
    } else if s == "BackgroundLevel"@ {
        Some(ParamKey::BackgroundLevel)
    } else if s == "Reverse"@ {
        Some(ParamKey::Reverse)
    } else if s == "Spread"@ {
        Some(ParamKey::Spread)
    } else if s == "Saturation"@ {
        Some(ParamKey::Saturation)
    } else if s == "Brightness"@ {
        Some(ParamKey::Brightness)
    } else if s == "Rate"@ {
        Some(ParamKey::Rate)
    } else if s == "DutyCycle"@ {
        Some(ParamKey::DutyCycle)
    } else if s == "Density"@ {
        Some(ParamKey::Density)
    } else if s == "Offset"@ {
        Some(ParamKey::Offset)
    } else if s == "Direction"@ {
        Some(ParamKey::Direction)
    } else if s == "CenterX"@ {
        Some(ParamKey::CenterX)
    } else if s == "CenterY"@ {
        Some(ParamKey::CenterY)
    } else if s == "PassCount"@ {
        Some(ParamKey::PassCount)
    } else if s == "WipeOn"@ {
        Some(ParamKey::WipeOn)
    } else {
        None
    }
}

/// The name of a key: the variant name of a built-in key, the raw string of
/// a custom one.
pub open spec fn param_key_name(k: ParamKey) -> Seq<char> {
    match k {
        ParamKey::Color => "Color"@,
        ParamKey::Colors => "Colors"@,
        ParamKey::Gradient => "Gradient"@,
        ParamKey::MovementCurve => "MovementCurve"@,
        ParamKey::PulseCurve => "PulseCurve"@,
        ParamKey::IntensityCurve => "IntensityCurve"@,
        ParamKey::ColorMode => "ColorMode"@,
        ParamKey::Speed => "Speed"@,
        ParamKey::PulseWidth => "PulseWidth"@,
        ParamKey::BackgroundLevel => "BackgroundLevel"@,
        ParamKey::Reverse => "Reverse"@,
        ParamKey::Spread => "Spread"@,
        ParamKey::Saturation => "Saturation"@,
        ParamKey::Brightness => "Brightness"@,
        ParamKey::Rate => "Rate"@,
        ParamKey::DutyCycle => "DutyCycle"@,
        ParamKey::Density => "Density"@,
        ParamKey::Offset => "Offset"@,
        ParamKey::Direction => "Direction"@,
        ParamKey::CenterX => "CenterX"@,
        ParamKey::CenterY => "CenterY"@,
        ParamKey::PassCount => "PassCount"@,
        ParamKey::WipeOn => "WipeOn"@,
        ParamKey::Custom(c) => c@,
    }
}

/// Equality of parameter keys: the same built-in key, or custom keys of the same name.
pub open spec fn param_key_eq(x: ParamKey, y: ParamKey) -> bool {
    match (x, y) {
        (ParamKey::Custom(a), ParamKey::Custom(b)) => a@ == b@,
        (ParamKey::Custom(_), _) => false,
        (_, ParamKey::Custom(_)) => false,
        _ => x == y,
    }
}

impl PartialEq for ParamKey {
    fn eq(&self, other: &Self) -> (r: bool) {
        match (self, other) {
            (ParamKey::Custom(a), ParamKey::Custom(b)) => str_eq(a.as_str(), b.as_str()),
            (ParamKey::Color, ParamKey::Color) => true,
            (ParamKey::Colors, ParamKey::Colors) => true,
            (ParamKey::Gradient, ParamKey::Gradient) => true,
            (ParamKey::MovementCurve, ParamKey::MovementCurve) => true,
            (ParamKey::PulseCurve, ParamKey::PulseCurve) => true,
            (ParamKey::IntensityCurve, ParamKey::IntensityCurve) => true,
            (ParamKey::ColorMode, ParamKey::ColorMode) => true,
            (ParamKey::Speed, ParamKey::Speed) => true,
            (ParamKey::PulseWidth, ParamKey::PulseWidth) => true,
            (ParamKey::BackgroundLevel, ParamKey::BackgroundLevel) => true,
            (ParamKey::Reverse, ParamKey::Reverse) => true,
            (ParamKey::Spread, ParamKey::Spread) => true,
            (ParamKey::Saturation, ParamKey::Saturation) => true,
            (ParamKey::Brightness, ParamKey::Brightness) => true,
            (ParamKey::Rate, ParamKey::Rate) => true,
            (ParamKey::DutyCycle, ParamKey::DutyCycle) => true,
            (ParamKey::Density, ParamKey::Density) => true,
            (ParamKey::Offset, ParamKey::Offset) => true,
            (ParamKey::Direction, ParamKey::Direction) => true,
            (ParamKey::CenterX, ParamKey::CenterX) => true,
            (ParamKey::CenterY, ParamKey::CenterY) => true,
            (ParamKey::PassCount, ParamKey::PassCount) => true,
            (ParamKey::WipeOn, ParamKey::WipeOn) => true,
            _ => false,
        }
    }
}

impl vstd::std_specs::cmp::PartialEqSpecImpl for ParamKey {
    open spec fn obeys_eq_spec() -> bool {
        true
    }

    open spec fn eq_spec(&self, other: &Self) -> bool {
        param_key_eq(*self, *other)
    }
}

impl Eq for ParamKey {}

impl ParamKey {
    /// Parse a string into a `ParamKey`, falling back to `Custom` for unknown keys.
    pub fn from_string(s: &str) -> (k: Self)
        ensures
            match builtin_param_key(s@) {
                Some(b) => k == b,
                None => k is Custom && param_key_name(k) == s@,
            },
    {
        if str_eq(s, "Color") {
            return ParamKey::Color;
        }
        if str_eq(s, "Colors") {
            return ParamKey::Colors;
        }
        if str_eq(s, "Gradient") {
            return ParamKey::Gradient;
        }
        if str_eq(s, "MovementCurve") {
            return ParamKey::MovementCurve;
        }
        if str_eq(s, "PulseCurve") {
            return ParamKey::PulseCurve;
        }
        if str_eq(s, "IntensityCurve") {
            return ParamKey::IntensityCurve;
        }
        if str_eq(s, "ColorMode") {
            return ParamKey::ColorMode;
        }
        if str_eq(s, "Speed") {
            return ParamKey::Speed;
        }
        if str_eq(s, "PulseWidth") {
            return ParamKey::PulseWidth;
        }
        if str_eq(s, "BackgroundLevel") {
            return ParamKey::BackgroundLevel;
        }
        if str_eq(s, "Reverse") {
            return ParamKey::Reverse;
        }
        if str_eq(s, "Spread") {
            return ParamKey::Spread;
        }
        if str_eq(s, "Saturation") {
            return ParamKey::Saturation;
        }
        if str_eq(s, "Brightness") {
            return ParamKey::Brightness;
        }
        if str_eq(s, "Rate") {
            return ParamKey::Rate;
        }
        if str_eq(s, "DutyCycle") {
            return ParamKey::DutyCycle;
        }
        if str_eq(s, "Density") {
            return ParamKey::Density;
        }
        if str_eq(s, "Offset") {
            return ParamKey::Offset;
        }
        if str_eq(s, "Direction") {
            return ParamKey::Direction;
        }
        if str_eq(s, "CenterX") {
            return ParamKey::CenterX;
        }
        if str_eq(s, "CenterY") {
            return ParamKey::CenterY;
        }
        if str_eq(s, "PassCount") {
            return ParamKey::PassCount;
        }
        if str_eq(s, "WipeOn") {
            return ParamKey::WipeOn;
        }
        ParamKey::Custom(String::from_str(s))
    }

    /// The key's name: the variant name of a built-in key, the raw string of a
    /// custom one.
    pub fn name(&self) -> (r: String)
        ensures
            r@ == param_key_name(*self),
    {
        match self {
            ParamKey::Color => String::from_str("Color"),
            ParamKey::Colors => String::from_str("Colors"),
            ParamKey::Gradient => String::from_str("Gradient"),
            ParamKey::MovementCurve => String::from_str("MovementCurve"),
            ParamKey::PulseCurve => String::from_str("PulseCurve"),
            ParamKey::IntensityCurve => String::from_str("IntensityCurve"),
            ParamKey::ColorMode => String::from_str("ColorMode"),
            ParamKey::Speed => String::from_str("Speed"),
            ParamKey::PulseWidth => String::from_str("PulseWidth"),
            ParamKey::BackgroundLevel => String::from_str("BackgroundLevel"),
            ParamKey::Reverse => String::from_str("Reverse"),
            ParamKey::Spread => String::from_str("Spread"),
            ParamKey::Saturation => String::from_str("Saturation"),
            ParamKey::Brightness => String::from_str("Brightness"),
            ParamKey::Rate => String::from_str("Rate"),
            ParamKey::DutyCycle => String::from_str("DutyCycle"),
            ParamKey::Density => String::from_str("Density"),
            ParamKey::Offset => String::from_str("Offset"),
            ParamKey::Direction => String::from_str("Direction"),
            ParamKey::CenterX => String::from_str("CenterX"),
            ParamKey::CenterY => String::from_str("CenterY"),
            ParamKey::PassCount => String::from_str("PassCount"),
            ParamKey::WipeOn => String::from_str("WipeOn"),
            ParamKey::Custom(c) => c.clone(),
        }
    }
}

/// Naming a key and reading the name back gives the same key, for every
/// built-in key and for every custom key whose name is not a built-in name.
pub proof fn lemma_param_key_round_trip(k: ParamKey)
    requires
        !(k is Custom && builtin_param_key(param_key_name(k)) is Some),
    ensures
        match builtin_param_key(param_key_name(k)) {
            Some(b) => b == k,
            None => k is Custom,
        },
{
    reveal_strlit("Color");
    reveal_strlit("Colors");
    reveal_strlit("Gradient");
    reveal_strlit("MovementCurve");
    reveal_strlit("PulseCurve");
    reveal_strlit("IntensityCurve");
    reveal_strlit("ColorMode");
    reveal_strlit("Speed");
    reveal_strlit("PulseWidth");
    reveal_strlit("BackgroundLevel");
    reveal_strlit("Reverse");
    reveal_strlit("Spread");
    reveal_strlit("Saturation");
    reveal_strlit("Brightness");
    reveal_strlit("Rate");
    reveal_strlit("DutyCycle");
    reveal_strlit("Density");
    reveal_strlit("Offset");
    reveal_strlit("Direction");
    reveal_strlit("CenterX");
    reveal_strlit("CenterY");
    reveal_strlit("PassCount");
    reveal_strlit("WipeOn");
    match k {
        ParamKey::Custom(_) => {
            assert(builtin_param_key(param_key_name(k)) is None);
        },
        ParamKey::Color => {
            assert(builtin_param_key("Color"@) == Some(ParamKey::Color));
        },
        ParamKey::Colors => {
            assert("Colors"@.len() != "Color"@.len());
            assert(builtin_param_key("Colors"@) == Some(ParamKey::Colors));
        },
        ParamKey::Gradient => {
            assert("Gradient"@.len() != "Color"@.len());
            assert("Gradient"@.len() != "Colors"@.len());
            assert(builtin_param_key("Gradient"@) == Some(ParamKey::Gradient));
        },
        ParamKey::MovementCurve => {
            assert("MovementCurve"@.len() != "Color"@.len());
            assert("MovementCurve"@.len() != "Colors"@.len());
            assert("MovementCurve"@.len() != "Gradient"@.len());
            assert(builtin_param_key("MovementCurve"@) == Some(ParamKey::MovementCurve));
        },
        ParamKey::PulseCurve => {
            assert("PulseCurve"@.len() != "Color"@.len());
            assert("PulseCurve"@.len() != "Colors"@.len());
            assert("PulseCurve"@.len() != "Gradient"@.len());
            assert("PulseCurve"@.len() != "MovementCurve"@.len());
            assert(builtin_param_key("PulseCurve"@) == Some(ParamKey::PulseCurve));
        },
        ParamKey::IntensityCurve => {
            assert("IntensityCurve"@.len() != "Color"@.len());
            assert("IntensityCurve"@.len() != "Colors"@.len());
            assert("IntensityCurve"@.len() != "Gradient"@.len());
            assert("IntensityCurve"@.len() != "MovementCurve"@.len());
            assert("IntensityCurve"@.len() != "PulseCurve"@.len());
            assert(builtin_param_key("IntensityCurve"@) == Some(ParamKey::IntensityCurve));
        },
        ParamKey::ColorMode => {
            assert("ColorMode"@.len() != "Color"@.len());
            assert("ColorMode"@.len() != "Colors"@.len());
            assert("ColorMode"@.len() != "Gradient"@.len());
            assert("ColorMode"@.len() != "MovementCurve"@.len());
            assert("ColorMode"@.len() != "PulseCurve"@.len());
            assert("ColorMode"@.len() != "IntensityCurve"@.len());
            assert(builtin_param_key("ColorMode"@) == Some(ParamKey::ColorMode));
        },
        ParamKey::Speed => {
            assert("Speed"@[0] != "Color"@[0]);
            assert("Speed"@.len() != "Colors"@.len());
            assert("Speed"@.len() != "Gradient"@.len());
            assert("Speed"@.len() != "MovementCurve"@.len());
            assert("Speed"@.len() != "PulseCurve"@.len());
            assert("Speed"@.len() != "IntensityCurve"@.len());
            assert("Speed"@.len() != "ColorMode"@.len());
            assert(builtin_param_key("Speed"@) == Some(ParamKey::Speed));
        },
        ParamKey::PulseWidth => {
            assert("PulseWidth"@.len() != "Color"@.len());
            assert("PulseWidth"@.len() != "Colors"@.len());
            assert("PulseWidth"@.len() != "Gradient"@.len());
            assert("PulseWidth"@.len() != "MovementCurve"@.len());
            assert("PulseWidth"@[5] != "PulseCurve"@[5]);
            assert("PulseWidth"@.len() != "IntensityCurve"@.len());
            assert("PulseWidth"@.len() != "ColorMode"@.len());
            assert("PulseWidth"@.len() != "Speed"@.len());
            assert(builtin_param_key("PulseWidth"@) == Some(ParamKey::PulseWidth));
        },
        ParamKey::BackgroundLevel => {
            assert("BackgroundLevel"@.len() != "Color"@.len());
            assert("BackgroundLevel"@.len() != "Colors"@.len());
            assert("BackgroundLevel"@.len() != "Gradient"@.len());
            assert("BackgroundLevel"@.len() != "MovementCurve"@.len());
            assert("BackgroundLevel"@.len() != "PulseCurve"@.len());
            assert("BackgroundLevel"@.len() != "IntensityCurve"@.len());
            assert("BackgroundLevel"@.len() != "ColorMode"@.len());
            assert("BackgroundLevel"@.len() != "Speed"@.len());
            assert("BackgroundLevel"@.len() != "PulseWidth"@.len());
            assert(builtin_param_key("BackgroundLevel"@) == Some(ParamKey::BackgroundLevel));
        },
        ParamKey::Reverse => {
            assert("Reverse"@.len() != "Color"@.len());
            assert("Reverse"@.len() != "Colors"@.len());
            assert("Reverse"@.len() != "Gradient"@.len());
            assert("Reverse"@.len() != "MovementCurve"@.len());
            assert("Reverse"@.len() != "PulseCurve"@.len());
            assert("Reverse"@.len() != "IntensityCurve"@.len());
            assert("Reverse"@.len() != "ColorMode"@.len());
            assert("Reverse"@.len() != "Speed"@.len());
            assert("Reverse"@.len() != "PulseWidth"@.len());
            assert("Reverse"@.len() != "BackgroundLevel"@.len());
            assert(builtin_param_key("Reverse"@) == Some(ParamKey::Reverse));
        },
        ParamKey::Spread => {
            assert("Spread"@.len() != "Color"@.len());
            assert("Spread"@[0] != "Colors"@[0]);
            assert("Spread"@.len() != "Gradient"@.len());
            assert("Spread"@.len() != "MovementCurve"@.len());
            assert("Spread"@.len() != "PulseCurve"@.len());
            assert("Spread"@.len() != "IntensityCurve"@.len());
            assert("Spread"@.len() != "ColorMode"@.len());
            assert("Spread"@.len() != "Speed"@.len());
            assert("Spread"@.len() != "PulseWidth"@.len());
            assert("Spread"@.len() != "BackgroundLevel"@.len());
            assert("Spread"@.len() != "Reverse"@.len());
            assert(builtin_param_key("Spread"@) == Some(ParamKey::Spread));
        },
        ParamKey::Saturation => {
            assert("Saturation"@.len() != "Color"@.len());
            assert("Saturation"@.len() != "Colors"@.len());
            assert("Saturation"@.len() != "Gradient"@.len());
            assert("Saturation"@.len() != "MovementCurve"@.len());
            assert("Saturation"@[0] != "PulseCurve"@[0]);
            assert("Saturation"@.len() != "IntensityCurve"@.len());
            assert("Saturation"@.len() != "ColorMode"@.len());
            assert("Saturation"@.len() != "Speed"@.len());
            assert("Saturation"@[0] != "PulseWidth"@[0]);
            assert("Saturation"@.len() != "BackgroundLevel"@.len());
            assert("Saturation"@.len() != "Reverse"@.len());
            assert("Saturation"@.len() != "Spread"@.len());
            assert(builtin_param_key("Saturation"@) == Some(ParamKey::Saturation));
        },
        ParamKey::Brightness => {
            assert("Brightness"@.len() != "Color"@.len());
            assert("Brightness"@.len() != "Colors"@.len());
            assert("Brightness"@.len() != "Gradient"@.len());
            assert("Brightness"@.len() != "MovementCurve"@.len());
            assert("Brightness"@[0] != "PulseCurve"@[0]);
            assert("Brightness"@.len() != "IntensityCurve"@.len());
            assert("Brightness"@.len() != "ColorMode"@.len());
            assert("Brightness"@.len() != "Speed"@.len());
            assert("Brightness"@[0] != "PulseWidth"@[0]);
            assert("Brightness"@.len() != "BackgroundLevel"@.len());
            assert("Brightness"@.len() != "Reverse"@.len());
            assert("Brightness"@.len() != "Spread"@.len());
            assert("Brightness"@[0] != "Saturation"@[0]);
            assert(builtin_param_key("Brightness"@) == Some(ParamKey::Brightness));
        },
        ParamKey::Rate => {
            assert("Rate"@.len() != "Color"@.len());
            assert("Rate"@.len() != "Colors"@.len());
            assert("Rate"@.len() != "Gradient"@.len());
            assert("Rate"@.len() != "MovementCurve"@.len());
            assert("Rate"@.len() != "PulseCurve"@.len());
            assert("Rate"@.len() != "IntensityCurve"@.len());
            assert("Rate"@.len() != "ColorMode"@.len());
            assert("Rate"@.len() != "Speed"@.len());
            assert("Rate"@.len() != "PulseWidth"@.len());
            assert("Rate"@.len() != "BackgroundLevel"@.len());
            assert("Rate"@.len() != "Reverse"@.len());
            assert("Rate"@.len() != "Spread"@.len());
            assert("Rate"@.len() != "Saturation"@.len());
            assert("Rate"@.len() != "Brightness"@.len());
            assert(builtin_param_key("Rate"@) == Some(ParamKey::Rate));
        },
        ParamKey::DutyCycle => {
            assert("DutyCycle"@.len() != "Color"@.len());
            assert("DutyCycle"@.len() != "Colors"@.len());
            assert("DutyCycle"@.len() != "Gradient"@.len());
            assert("DutyCycle"@.len() != "MovementCurve"@.len());
            assert("DutyCycle"@.len() != "PulseCurve"@.len());
            assert("DutyCycle"@.len() != "IntensityCurve"@.len());
            assert("DutyCycle"@[0] != "ColorMode"@[0]);
            assert("DutyCycle"@.len() != "Speed"@.len());
            assert("DutyCycle"@.len() != "PulseWidth"@.len());
            assert("DutyCycle"@.len() != "BackgroundLevel"@.len());
            assert("DutyCycle"@.len() != "Reverse"@.len());
            assert("DutyCycle"@.len() != "Spread"@.len());
            assert("DutyCycle"@.len() != "Saturation"@.len());
            assert("DutyCycle"@.len() != "Brightness"@.len());
            assert("DutyCycle"@.len() != "Rate"@.len());
            assert(builtin_param_key("DutyCycle"@) == Some(ParamKey::DutyCycle));
        },
        ParamKey::Density => {
            assert("Density"@.len() != "Color"@.len());
            assert("Density"@.len() != "Colors"@.len());
            assert("Density"@.len() != "Gradient"@.len());
            assert("Density"@.len() != "MovementCurve"@.len());
            assert("Density"@.len() != "PulseCurve"@.len());
            assert("Density"@.len() != "IntensityCurve"@.len());
            assert("Density"@.len() != "ColorMode"@.len());
            assert("Density"@.len() != "Speed"@.len());
            assert("Density"@.len() != "PulseWidth"@.len());
            assert("Density"@.len() != "BackgroundLevel"@.len());
            assert("Density"@[0] != "Reverse"@[0]);
            assert("Density"@.len() != "Spread"@.len());
            assert("Density"@.len() != "Saturation"@.len());
            assert("Density"@.len() != "Brightness"@.len());
            assert("Density"@.len() != "Rate"@.len());
            assert("Density"@.len() != "DutyCycle"@.len());
            assert(builtin_param_key("Density"@) == Some(ParamKey::Density));
        },
        ParamKey::Offset => {
            assert("Offset"@.len() != "Color"@.len());
            assert("Offset"@[0] != "Colors"@[0]);
            assert("Offset"@.len() != "Gradient"@.len());
            assert("Offset"@.len() != "MovementCurve"@.len());
            assert("Offset"@.len() != "PulseCurve"@.len());
            assert("Offset"@.len() != "IntensityCurve"@.len());
            assert("Offset"@.len() != "ColorMode"@.len());
            assert("Offset"@.len() != "Speed"@.len());
            assert("Offset"@.len() != "PulseWidth"@.len());
            assert("Offset"@.len() != "BackgroundLevel"@.len());
            assert("Offset"@.len() != "Reverse"@.len());
            assert("Offset"@[0] != "Spread"@[0]);
            assert("Offset"@.len() != "Saturation"@.len());
            assert("Offset"@.len() != "Brightness"@.len());
            assert("Offset"@.len() != "Rate"@.len());
            assert("Offset"@.len() != "DutyCycle"@.len());
            assert("Offset"@.len() != "Density"@.len());
            assert(builtin_param_key("Offset"@) == Some(ParamKey::Offset));
        },
        ParamKey::Direction => {
            assert("Direction"@.len() != "Color"@.len());
            assert("Direction"@.len() != "Colors"@.len());
            assert("Direction"@.len() != "Gradient"@.len());
            assert("Direction"@.len() != "MovementCurve"@.len());
            assert("Direction"@.len() != "PulseCurve"@.len());
            assert("Direction"@.len() != "IntensityCurve"@.len());
            assert("Direction"@[0] != "ColorMode"@[0]);
            assert("Direction"@.len() != "Speed"@.len());
            assert("Direction"@.len() != "PulseWidth"@.len());
            assert("Direction"@.len() != "BackgroundLevel"@.len());
            assert("Direction"@.len() != "Reverse"@.len());
            assert("Direction"@.len() != "Spread"@.len());
            assert("Direction"@.len() != "Saturation"@.len());
            assert("Direction"@.len() != "Brightness"@.len());
            assert("Direction"@.len() != "Rate"@.len());
            assert("Direction"@[1] != "DutyCycle"@[1]);
            assert("Direction"@.len() != "Density"@.len());
            assert("Direction"@.len() != "Offset"@.len());
            assert(builtin_param_key("Direction"@) == Some(ParamKey::Direction));
        },
        ParamKey::CenterX => {
            assert("CenterX"@.len() != "Color"@.len());
            assert("CenterX"@.len() != "Colors"@.len());
            assert("CenterX"@.len() != "Gradient"@.len());
            assert("CenterX"@.len() != "MovementCurve"@.len());
            assert("CenterX"@.len() != "PulseCurve"@.len());
            assert("CenterX"@.len() != "IntensityCurve"@.len());
            assert("CenterX"@.len() != "ColorMode"@.len());
            assert("CenterX"@.len() != "Speed"@.len());
            assert("CenterX"@.len() != "PulseWidth"@.len());
            assert("CenterX"@.len() != "BackgroundLevel"@.len());
            assert("CenterX"@[0] != "Reverse"@[0]);
            assert("CenterX"@.len() != "Spread"@.len());
            assert("CenterX"@.len() != "Saturation"@.len());
            assert("CenterX"@.len() != "Brightness"@.len());
            assert("CenterX"@.len() != "Rate"@.len());
            assert("CenterX"@.len() != "DutyCycle"@.len());
            assert("CenterX"@[0] != "Density"@[0]);
            assert("CenterX"@.len() != "Offset"@.len());
            assert("CenterX"@.len() != "Direction"@.len());
            assert(builtin_param_key("CenterX"@) == Some(ParamKey::CenterX));
        },
        ParamKey::CenterY => {
            assert("CenterY"@.len() != "Color"@.len());
            assert("CenterY"@.len() != "Colors"@.len());
            assert("CenterY"@.len() != "Gradient"@.len());
            assert("CenterY"@.len() != "MovementCurve"@.len());
            assert("CenterY"@.len() != "PulseCurve"@.len());
            assert("CenterY"@.len() != "IntensityCurve"@.len());
            assert("CenterY"@.len() != "ColorMode"@.len());
            assert("CenterY"@.len() != "Speed"@.len());
            assert("CenterY"@.len() != "PulseWidth"@.len());
            assert("CenterY"@.len() != "BackgroundLevel"@.len());
            assert("CenterY"@[0] != "Reverse"@[0]);
            assert("CenterY"@.len() != "Spread"@.len());
            assert("CenterY"@.len() != "Saturation"@.len());
            assert("CenterY"@.len() != "Brightness"@.len());
            assert("CenterY"@.len() != "Rate"@.len());
            assert("CenterY"@.len() != "DutyCycle"@.len());
            assert("CenterY"@[0] != "Density"@[0]);
            assert("CenterY"@.len() != "Offset"@.len());
            assert("CenterY"@.len() != "Direction"@.len());
            assert("CenterY"@[6] != "CenterX"@[6]);
            assert(builtin_param_key("CenterY"@) == Some(ParamKey::CenterY));
        },
        ParamKey::PassCount => {
            assert("PassCount"@.len() != "Color"@.len());
            assert("PassCount"@.len() != "Colors"@.len());
            assert("PassCount"@.len() != "Gradient"@.len());
            assert("PassCount"@.len() != "MovementCurve"@.len());
            assert("PassCount"@.len() != "PulseCurve"@.len());
            assert("PassCount"@.len() != "IntensityCurve"@.len());
            assert("PassCount"@[0] != "ColorMode"@[0]);
            assert("PassCount"@.len() != "Speed"@.len());
            assert("PassCount"@.len() != "PulseWidth"@.len());
            assert("PassCount"@.len() != "BackgroundLevel"@.len());
            assert("PassCount"@.len() != "Reverse"@.len());
            assert("PassCount"@.len() != "Spread"@.len());
            assert("PassCount"@.len() != "Saturation"@.len());
            assert("PassCount"@.len() != "Brightness"@.len());
            assert("PassCount"@.len() != "Rate"@.len());
            assert("PassCount"@[0] != "DutyCycle"@[0]);
            assert("PassCount"@.len() != "Density"@.len());
            assert("PassCount"@.len() != "Offset"@.len());
            assert("PassCount"@[0] != "Direction"@[0]);
            assert("PassCount"@.len() != "CenterX"@.len());
            assert("PassCount"@.len() != "CenterY"@.len());
            assert(builtin_param_key("PassCount"@) == Some(ParamKey::PassCount));
        },
        ParamKey::WipeOn => {
            assert("WipeOn"@.len() != "Color"@.len());
            assert("WipeOn"@[0] != "Colors"@[0]);
            assert("WipeOn"@.len() != "Gradient"@.len());
            assert("WipeOn"@.len() != "MovementCurve"@.len());
            assert("WipeOn"@.len() != "PulseCurve"@.len());
            assert("WipeOn"@.len() != "IntensityCurve"@.len());
            assert("WipeOn"@.len() != "ColorMode"@.len());
            assert("WipeOn"@.len() != "Speed"@.len());
            assert("WipeOn"@.len() != "PulseWidth"@.len());
            assert("WipeOn"@.len() != "BackgroundLevel"@.len());
            assert("WipeOn"@.len() != "Reverse"@.len());
            assert("WipeOn"@[0] != "Spread"@[0]);
            assert("WipeOn"@.len() != "Saturation"@.len());
            assert("WipeOn"@.len() != "Brightness"@.len());
            assert("WipeOn"@.len() != "Rate"@.len());
            assert("WipeOn"@.len() != "DutyCycle"@.len());
            assert("WipeOn"@.len() != "Density"@.len());
            assert("WipeOn"@[0] != "Offset"@[0]);
            assert("WipeOn"@.len() != "Direction"@.len());
            assert("WipeOn"@.len() != "CenterX"@.len());
            assert("WipeOn"@.len() != "CenterY"@.len());
            assert("WipeOn"@.len() != "PassCount"@.len());
            assert(builtin_param_key("WipeOn"@) == Some(ParamKey::WipeOn));
        },
    }
}

} // verus!
