use vibe_lights::easing::{EasingFunction, LoopMode};
use vibe_lights::timeline::{BlendMode, ColorMode, EffectKind, ParamKey, WipeDirection};

#[test]
fn default_is_linear() {
    assert_eq!(EasingFunction::default(), EasingFunction::Linear);
}

#[test]
fn loop_mode_default_is_clamp() {
    assert_eq!(LoopMode::default(), LoopMode::Clamp);
}

#[test]
fn enumerations_list_every_variant() {
    assert_eq!(BlendMode::all().len(), 11);
    assert_eq!(BlendMode::all()[0], BlendMode::Override);
    assert_eq!(BlendMode::all()[10], BlendMode::IntensityOverlay);
    assert_eq!(WipeDirection::all().len(), 7);
    assert_eq!(WipeDirection::all()[6], WipeDirection::Diamond);
    assert_eq!(ColorMode::all().len(), 4);
    assert_eq!(ColorMode::all()[3], ColorMode::GradientAcrossItems);
    assert_eq!(EffectKind::all_builtin().len(), 8);
    assert_eq!(EffectKind::all_builtin()[7], EffectKind::Wipe);
    assert_eq!(WipeDirection::default(), WipeDirection::Horizontal);
}

#[test]
fn param_key_builtin_names_round_trip() {
    let key = ParamKey::Speed;
    assert_eq!(key.name(), "Speed");
    assert_eq!(ParamKey::from_string(&key.name()), ParamKey::Speed);
    assert_eq!(ParamKey::from_string("WipeOn"), ParamKey::WipeOn);
    assert_eq!(ParamKey::from_string("Color"), ParamKey::Color);
    assert_eq!(ParamKey::from_string("Colors"), ParamKey::Colors);
}

#[test]
fn param_key_custom_round_trip() {
    let key = ParamKey::Custom("myParam".to_string());
    assert_eq!(key.name(), "myParam");
    assert_eq!(ParamKey::from_string(&key.name()), ParamKey::Custom("myParam".to_string()));
}

#[test]
fn param_key_unknown_reads_as_custom() {
    assert_eq!(ParamKey::from_string("UnknownKey"), ParamKey::Custom("UnknownKey".to_string()));
    assert_eq!(ParamKey::from_string("speed"), ParamKey::Custom("speed".to_string()));
    assert_ne!(ParamKey::Custom("Speed".to_string()), ParamKey::Speed);
}

#[test]
fn effect_kind_equality() {
    assert_eq!(EffectKind::Script("a".to_string()), EffectKind::Script("a".to_string()));
    assert_ne!(EffectKind::Script("a".to_string()), EffectKind::Script("b".to_string()));
    assert_ne!(EffectKind::Solid, EffectKind::Chase);
}

#[test]
fn effect_kind_names() {
    assert_eq!(EffectKind::Solid.name(), "Solid");
    assert_eq!(EffectKind::Wipe.name(), "Wipe");
    assert_eq!(EffectKind::Script("sparkle".to_string()).name(), "Script(sparkle)");
    let names: Vec<String> = EffectKind::all_builtin().iter().map(EffectKind::name).collect();
    assert_eq!(names, ["Solid", "Chase", "Rainbow", "Strobe", "Gradient", "Twinkle", "Fade", "Wipe"]);
}

// Keys are stored in JSON as their names; serde_json does the quoting.

#[test]
fn param_key_builtin_roundtrip() {
    let key = ParamKey::Speed;
    let json = serde_json::to_string(&key.name()).expect("serialize");
    assert_eq!(json, "\"Speed\"");
    let back = ParamKey::from_string(&serde_json::from_str::<String>(&json).expect("deserialize"));
    assert_eq!(back, ParamKey::Speed);
}

#[test]
fn param_key_custom_roundtrip() {
    let key = ParamKey::Custom("myParam".to_string());
    let json = serde_json::to_string(&key.name()).expect("serialize");
    assert_eq!(json, "\"myParam\"");
    let back = ParamKey::from_string(&serde_json::from_str::<String>(&json).expect("deserialize"));
    assert_eq!(back, ParamKey::Custom("myParam".to_string()));
}

#[test]
fn param_key_unknown_deserializes_as_custom() {
    let back = ParamKey::from_string(&serde_json::from_str::<String>("\"UnknownKey\"").expect("deserialize"));
    assert_eq!(back, ParamKey::Custom("UnknownKey".to_string()));
}
