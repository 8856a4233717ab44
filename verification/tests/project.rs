use vibe_lights::profile::{
    chrono_now, days_to_ymd, is_leap, is_media_extension, timestamp_from_unix_secs, validate_filename,
};
use vibe_lights::project::{slugify, ProjectError};

#[test]
fn test_slugify() {
    assert_eq!(slugify("Demo Sequence"), "demo-sequence");
    assert_eq!(slugify("Jing Jing Jing!"), "jing-jing-jing");
    assert_eq!(slugify("   "), "untitled");
    assert_eq!(slugify("hello---world"), "hello-world");
    assert_eq!(slugify("Test_Name-123"), "test_name-123");
}

#[test]
fn slugify_shapes() {
    assert_eq!(slugify("My House"), "my-house");
    assert_eq!(slugify("Intro Scene"), "intro-scene");
    assert_eq!(slugify("--Leading and trailing--"), "leading-and-trailing");
    assert_eq!(slugify(""), "untitled");
    assert_eq!(slugify("Ünïcode Straße"), "Ünïcode-straße");
    let once = slugify("  A  b!!C__d ");
    assert_eq!(once, "a-b-c__d");
    assert_eq!(slugify(&once), once);
}

#[test]
fn validate_filename_accepts_plain_names() {
    assert!(validate_filename("song.mp3").is_ok());
    assert!(validate_filename("a.b.c").is_ok());
}

#[test]
fn validate_filename_rejects_unsafe_names() {
    for bad in ["", "a/b", "a\\b", "..", "x..y", "nul\0"] {
        let err = validate_filename(bad).unwrap_err();
        match err {
            ProjectError::InvalidProject(m) => assert_eq!(m, format!("Invalid filename: {bad}")),
            other => panic!("unexpected error {other:?}"),
        }
    }
}

#[test]
fn invalid_project_message() {
    let e = ProjectError::InvalidProject("Profile 'x' not found".to_string());
    assert_eq!(e.message(), "Invalid project: Profile 'x' not found");
}

#[test]
fn leap_years() {
    assert!(is_leap(2000));
    assert!(is_leap(2024));
    assert!(!is_leap(1900));
    assert!(!is_leap(2023));
}

#[test]
fn days_to_ymd_known_dates() {
    assert_eq!(days_to_ymd(0), (1970, 1, 1));
    assert_eq!(days_to_ymd(31), (1970, 2, 1));
    assert_eq!(days_to_ymd(59), (1970, 3, 1));
    assert_eq!(days_to_ymd(365), (1971, 1, 1));
    // 2000-02-29 is day 11016
    assert_eq!(days_to_ymd(11016), (2000, 2, 29));
    assert_eq!(days_to_ymd(11017), (2000, 3, 1));
    // 2024-12-31 is day 20088
    assert_eq!(days_to_ymd(20088), (2024, 12, 31));
}

#[test]
fn timestamps() {
    assert_eq!(timestamp_from_unix_secs(0), "1970-01-01T00:00:00Z");
    assert_eq!(timestamp_from_unix_secs(951782400 + 3661), "2000-02-29T01:01:01Z");
    assert_eq!(timestamp_from_unix_secs(1725029869), "2024-08-30T14:57:49Z");
    let now = chrono_now();
    assert_eq!(now.len(), 20);
    assert!(now.ends_with('Z'));
}

#[test]
fn media_extensions_ignore_case() {
    for ext in ["mp3", "wav", "ogg", "flac", "m4a", "aac", "wma", "MP3", "Flac"] {
        assert!(is_media_extension(ext), "{ext}");
    }
    for ext in ["", "mp4", "txt", "mp3 ", "json"] {
        assert!(!is_media_extension(ext), "{ext}");
    }
}

#[test]
fn io_and_json_error_messages() {
    let io = ProjectError::from(std::io::Error::new(std::io::ErrorKind::NotFound, "gone"));
    assert!(matches!(io, ProjectError::Io(_)));
    assert_eq!(io.message(), "I/O error: gone");
    let json_err = serde_json::from_str::<u32>("x").unwrap_err();
    let text = json_err.to_string();
    let e = ProjectError::from(json_err);
    assert!(matches!(e, ProjectError::Json(_)));
    assert_eq!(e.message(), format!("JSON error: {text}"));
}
