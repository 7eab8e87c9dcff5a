use sortie_organizer::numfmt::u64_to_string;
use sortie_organizer::pathops::file_name_of;
use sortie_organizer::pathops::is_absolute_path;
use sortie_organizer::pathops::join_path;
use sortie_organizer::pathops::parent_of;
use sortie_organizer::types::AppPreferences;
use sortie_organizer::types::RecoveryError;
use sortie_organizer::validate::validate_filename;
use sortie_organizer::validate::validate_string_input;
use sortie_organizer::validate::validate_theme;

#[test]
fn empty_filename_is_refused() {
    assert_eq!(validate_filename(""), Err("Filename cannot be empty".to_string()));
}

#[test]
fn overlong_filename_is_refused() {
    let long: String = std::iter::repeat('a').take(101).collect();
    assert_eq!(
        validate_filename(&long),
        Err("Filename too long (max 100 characters)".to_string())
    );
    let just_fits: String = std::iter::repeat('a').take(100).collect();
    assert_eq!(validate_filename(&just_fits), Ok(()));
}

#[test]
fn well_formed_filenames_pass() {
    assert_eq!(validate_filename("clip"), Ok(()));
    assert_eq!(validate_filename("clip-01_final.mp4"), Ok(()));
    assert_eq!(validate_filename("A1"), Ok(()));
    assert_eq!(validate_filename("a.b"), Ok(()));
}

#[test]
fn malformed_filenames_are_refused() {
    let msg = "Invalid filename: only alphanumeric characters, dashes, underscores, and dots allowed";
    assert_eq!(validate_filename("has space.mp4"), Err(msg.to_string()));
    assert_eq!(validate_filename(".hidden"), Err(msg.to_string()));
    assert_eq!(validate_filename("trailing."), Err(msg.to_string()));
    assert_eq!(validate_filename("two.dots.mp4"), Err(msg.to_string()));
    assert_eq!(validate_filename("under_score.in-ext_no"), Err(msg.to_string()));
    assert_eq!(validate_filename("path/clip.mp4"), Err(msg.to_string()));
}

#[test]
fn string_input_is_capped_by_characters() {
    assert_eq!(validate_string_input("abc", 5, "Name"), Ok(()));
    assert_eq!(validate_string_input("abcde", 5, "Name"), Ok(()));
    assert_eq!(
        validate_string_input("abcdef", 5, "Name"),
        Err("Name too long (max 5 characters)".to_string())
    );
}

#[test]
fn themes_are_a_closed_set() {
    assert_eq!(validate_theme("light"), Ok(()));
    assert_eq!(validate_theme("dark"), Ok(()));
    assert_eq!(validate_theme("system"), Ok(()));
    assert_eq!(
        validate_theme("solarized"),
        Err("Invalid theme: must be 'light', 'dark', or 'system'".to_string())
    );
}

#[test]
fn preferences_default_to_the_system_theme() {
    let p = AppPreferences::default();
    assert_eq!(p.theme, "system");
    assert_eq!(p.quick_pane_shortcut, None);
    assert_eq!(p.language, None);
    assert_eq!(
        sortie_organizer::types::DEFAULT_QUICK_PANE_SHORTCUT,
        "CommandOrControl+Shift+."
    );
}

#[test]
fn recovery_errors_describe_themselves() {
    assert_eq!(RecoveryError::FileNotFound.describe(), "File not found");
    assert_eq!(
        RecoveryError::ValidationError { message: "bad name".to_string() }.describe(),
        "Validation error: bad name"
    );
    assert_eq!(
        RecoveryError::DataTooLarge { max_bytes: 10485760 }.describe(),
        "Data too large (max 10485760 bytes)"
    );
    assert_eq!(
        RecoveryError::IoError { message: "disk full".to_string() }.describe(),
        "IO error: disk full"
    );
    assert_eq!(
        RecoveryError::ParseError { message: "eof".to_string() }.describe(),
        "Parse error: eof"
    );
}

#[test]
fn decimal_rendering_is_exact() {
    assert_eq!(u64_to_string(0), "0");
    assert_eq!(u64_to_string(7), "7");
    assert_eq!(u64_to_string(10), "10");
    assert_eq!(u64_to_string(10485760), "10485760");
    assert_eq!(u64_to_string(u64::MAX), "18446744073709551615");
}

#[test]
fn path_components_follow_the_textual_convention() {
    assert_eq!(parent_of("/videos/clip.mp4"), "/videos");
    assert_eq!(parent_of("/clip.mp4"), "/");
    assert_eq!(parent_of("clip.mp4"), "");
    assert_eq!(file_name_of("/videos/clip.mp4"), Some("clip.mp4".to_string()));
    assert_eq!(file_name_of("/videos/"), None);
    assert_eq!(file_name_of("/videos/."), None);
    assert_eq!(join_path("/videos", "x.mp4"), "/videos/x.mp4");
    assert_eq!(join_path("/videos/", "x.mp4"), "/videos/x.mp4");
    assert_eq!(join_path("", "x.mp4"), "x.mp4");
    assert!(is_absolute_path("/videos"));
    assert!(is_absolute_path("C:\\videos"));
    assert!(is_absolute_path("c:/videos"));
    assert!(!is_absolute_path("videos/x"));
    assert!(!is_absolute_path(""));
}
