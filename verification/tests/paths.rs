use vibe_lights::paths::{
    analysis_path, media_dir, profile_dir, python_exe, sequence_file, settings_path, stems_dir,
    uv_binary_path,
};
use vibe_lights::profile::chrono_now;
use vibe_lights::llm::{LlmProvider, LlmProviderConfig, ResolvedProvider};
use vibe_lights::vixen::{is_reverse_direction, map_color_handling, map_wipe_direction, strip_ns};
use vibe_lights::timeline::{ColorMode, WipeDirection};

fn sep() -> char {
    std::path::MAIN_SEPARATOR
}

#[test]
fn config_paths() {
    assert_eq!(settings_path("/cfg"), format!("/cfg{}settings.json", sep()));
    assert_eq!(settings_path("/cfg/"), "/cfg/settings.json");
    assert_eq!(settings_path(""), "settings.json");
}

#[test]
fn nested_data_paths() {
    let s = sep();
    assert_eq!(profile_dir("/d", "house"), format!("/d{s}profiles{s}house"));
    assert_eq!(media_dir("/d", "house"), format!("/d{s}profiles{s}house{s}media"));
    assert_eq!(
        sequence_file("/d", "house", "intro"),
        format!("/d{s}profiles{s}house{s}sequences{s}intro.json")
    );
    assert_eq!(analysis_path("/m", "song.mp3"), format!("/m{s}song.mp3.analysis.json"));
    assert_eq!(stems_dir("/m", "song.v2.mp3"), format!("/m{s}stems{s}song-v2-mp3"));
}

#[test]
fn platform_dependent_paths() {
    let s = sep();
    if s == '\\' {
        assert_eq!(python_exe("C:\\c"), "C:\\c\\python_env\\Scripts\\python.exe");
        assert_eq!(uv_binary_path("C:\\r"), "C:\\r\\resources\\uv.exe");
    } else {
        assert_eq!(python_exe("/c"), "/c/python_env/bin/python");
        assert_eq!(uv_binary_path("/r"), "/r/resources/uv");
    }
}

#[test]
fn chrono_now_has_timestamp_shape() {
    let now = chrono_now();
    let b = now.as_bytes();
    assert_eq!(b[4], b'-');
    assert_eq!(b[10], b'T');
    assert!(now.as_str() >= "2024-01-01T00:00:00Z");
}

fn config(provider: LlmProvider, key: Option<&str>, model: Option<&str>, base: Option<&str>) -> LlmProviderConfig {
    LlmProviderConfig {
        provider,
        api_key: key.map(str::to_string),
        model: model.map(str::to_string),
        base_url: base.map(str::to_string),
    }
}

#[test]
fn provider_requires_key() {
    let msg = "No API key configured. Set it in Settings.";
    let none = ResolvedProvider::from_config(&config(LlmProvider::Anthropic, None, None, None), "m");
    assert_eq!(none.err(), Some(msg.to_string()));
    let empty =
        ResolvedProvider::from_config(&config(LlmProvider::OpenAiCompatible, Some(""), None, None), "m");
    assert_eq!(empty.err(), Some(msg.to_string()));
}

#[test]
fn provider_anthropic_defaults() {
    let p = ResolvedProvider::from_config(&config(LlmProvider::Anthropic, Some("k"), None, None), "default-model")
        .unwrap();
    assert_eq!(p.url, "https://api.anthropic.com/v1/messages");
    assert_eq!(p.api_key, "k");
    assert_eq!(p.model, "default-model");
    assert_eq!(p.provider, LlmProvider::Anthropic);
}

#[test]
fn provider_openai_base_url() {
    let p = ResolvedProvider::from_config(
        &config(LlmProvider::OpenAiCompatible, Some("k"), Some("local"), Some("http://host:1234/v1///")),
        "x",
    )
    .unwrap();
    assert_eq!(p.url, "http://host:1234/v1/chat/completions");
    assert_eq!(p.model, "local");
    let d = ResolvedProvider::from_config(&config(LlmProvider::OpenAiCompatible, Some("k"), None, None), "x")
        .unwrap();
    assert_eq!(d.url, "https://api.openai.com/v1/chat/completions");
    assert_eq!(d.model, "gpt-4o");
}

#[test]
fn vixen_color_handling() {
    assert_eq!(
        map_color_handling(Some("GradientThroughWholeEffect"), ColorMode::Static),
        ColorMode::GradientThroughEffect
    );
    assert_eq!(map_color_handling(Some("ColorAcrossItems"), ColorMode::Static), ColorMode::GradientAcrossItems);
    assert_eq!(map_color_handling(Some("GradientOverEachPulse"), ColorMode::Static), ColorMode::GradientPerPulse);
    assert_eq!(map_color_handling(Some("StaticColor"), ColorMode::GradientPerPulse), ColorMode::GradientPerPulse);
    assert_eq!(map_color_handling(None, ColorMode::GradientAcrossItems), ColorMode::GradientAcrossItems);
}

#[test]
fn vixen_directions() {
    assert!(is_reverse_direction(Some("Reverse")));
    assert!(is_reverse_direction(Some("1")));
    assert!(!is_reverse_direction(Some("Left")));
    assert!(!is_reverse_direction(None));
    assert_eq!(map_wipe_direction(Some("Reverse")), (WipeDirection::Horizontal, true));
    assert_eq!(map_wipe_direction(Some("Down")), (WipeDirection::Vertical, true));
    assert_eq!(map_wipe_direction(Some("BurstOut")), (WipeDirection::Burst, true));
    assert_eq!(map_wipe_direction(Some("DiamondIn")), (WipeDirection::Diamond, false));
    assert_eq!(map_wipe_direction(Some("Left")), (WipeDirection::Horizontal, false));
    assert_eq!(map_wipe_direction(None), (WipeDirection::Horizontal, false));
}

#[test]
fn xml_namespace_stripping() {
    assert_eq!(strip_ns("a:DisplayItem"), "DisplayItem");
    assert_eq!(strip_ns("Foo"), "Foo");
    assert_eq!(strip_ns("a:b:c"), "c");
    assert_eq!(strip_ns("trailing:"), "");
}
