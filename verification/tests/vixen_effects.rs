use vibe_lights::timeline::EffectKind;
use vibe_lights::vixen::{vixen_effect_kind, vixen_effect_rule, VixenEffectRule, VixenKind};

fn kind(name: &str) -> EffectKind {
    match vixen_effect_kind(name) {
        VixenKind::Mapped(k) => k,
        VixenKind::SolidGray | VixenKind::SolidBlack | VixenKind::SolidColor => EffectKind::Solid,
    }
}

fn check_effect_mapping() {
    // Core effects
    assert!(matches!(kind("Pulse"), EffectKind::Fade));
    assert!(matches!(kind("SetLevel"), EffectKind::Fade));
    assert!(matches!(kind("Chase"), EffectKind::Chase));
    assert!(matches!(kind("ColorWash"), EffectKind::Fade));
    assert!(matches!(kind("Twinkle"), EffectKind::Twinkle));
    assert!(matches!(kind("Strobe"), EffectKind::Strobe));
    assert!(matches!(kind("Rainbow"), EffectKind::Rainbow));
    // Movement-based effects → Chase
    assert!(matches!(kind("Spin"), EffectKind::Chase));
    assert!(matches!(kind("Wipe"), EffectKind::Wipe));
    assert!(matches!(kind("Alternating"), EffectKind::Chase));
    assert!(matches!(kind("PinWheel"), EffectKind::Chase));
    assert!(matches!(kind("Shockwave"), EffectKind::Chase));
    assert!(matches!(kind("Garlands"), EffectKind::Chase));
    assert!(matches!(kind("Butterfly"), EffectKind::Chase));
    // Random/particle effects → Twinkle
    assert!(matches!(kind("Dissolve"), EffectKind::Twinkle));
    assert!(matches!(kind("Fireworks"), EffectKind::Twinkle));
    assert!(matches!(kind("Snowflakes"), EffectKind::Twinkle));
    assert!(matches!(kind("Meteor"), EffectKind::Twinkle));
    // Flame/warm effects → Fade
    assert!(matches!(kind("Fire"), EffectKind::Fade));
    assert!(matches!(kind("Candle"), EffectKind::Fade));
    // Skip effects → Solid
    assert!(matches!(kind("Audio"), EffectKind::Solid));
    assert!(matches!(kind("MaskAndFill"), EffectKind::Solid));
    // Unknown effect falls back to Solid
    assert!(matches!(kind("SomeUnknownEffect"), EffectKind::Solid));
}

#[test]
fn effects_test_effect_mapping() {
    check_effect_mapping();
}

#[test]
fn vixen_test_effect_mapping() {
    check_effect_mapping();
}

#[test]
fn effect_fallback_colours() {
    assert!(matches!(vixen_effect_kind("Audio"), VixenKind::SolidBlack));
    assert!(matches!(vixen_effect_kind("Video"), VixenKind::SolidBlack));
    assert!(matches!(vixen_effect_kind("Mask"), VixenKind::SolidColor));
    assert!(matches!(vixen_effect_kind("SomeUnknownEffect"), VixenKind::SolidGray));
    assert!(matches!(vixen_effect_kind("pulse"), VixenKind::SolidGray));
    assert_eq!(vixen_effect_rule("Meteors"), VixenEffectRule::Particles);
    assert_eq!(vixen_effect_rule("SetLevel"), VixenEffectRule::PulseLevel);
}
