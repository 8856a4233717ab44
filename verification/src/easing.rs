//! Easing curves for keyframe interpolation, and how motion paths loop.

use vstd::prelude::*;

verus! {

/// Easing function for interpolation between keyframes.
///
/// Standard easing curves following CSS/web animation conventions.
#[derive(Debug, Clone, Copy, PartialEq, Eq, Structural)]
pub enum EasingFunction {
    /// Snap to destination (no interpolation).
    Hold,
    /// Constant-speed interpolation.
    Linear,
    EaseIn,
    EaseOut,
    EaseInOut,
    EaseInCubic,
    EaseOutCubic,
    EaseInOutCubic,
    EaseInQuart,
    EaseOutQuart,
    EaseInOutQuart,
    EaseInSine,
    EaseOutSine,
    EaseInOutSine,
    EaseInExpo,
    EaseOutExpo,
    EaseInOutExpo,
    EaseInBack,
    EaseOutBack,
    EaseInOutBack,
    EaseInElastic,
    EaseOutElastic,
    EaseInOutElastic,
    EaseInCirc,
    EaseOutCirc,
    EaseInOutCirc,
    EaseInBounce,
    EaseOutBounce,
    EaseInOutBounce,
}

impl Default for EasingFunction {
    fn default() -> (e: Self)
        ensures
            e == EasingFunction::Linear,
    {
        EasingFunction::Linear
    }
}

/// How a motion path behaves outside its keyframed time range.
#[derive(Debug, Clone, Copy, PartialEq, Eq, Structural)]
pub enum LoopMode {
    /// Hold first/last position outside the time range.
    Clamp,
    /// Restart from the first waypoint after the last.
    Loop,
    /// Reverse direction at endpoints.
    PingPong,
}

impl Default for LoopMode {
    fn default() -> (m: Self)
        ensures
            m == LoopMode::Clamp,
    {
        LoopMode::Clamp
    }
}

} // verus!
