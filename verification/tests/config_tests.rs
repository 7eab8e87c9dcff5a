use sortie_organizer::config_codec::config_from_json;
use sortie_organizer::config_codec::config_of_loaded;
use sortie_organizer::config_codec::config_to_json;
use sortie_organizer::config_codec::organizer_config_path;
use sortie_organizer::config_codec::temp_sibling_path;
use sortie_organizer::types::OrganizerConfig;
use sortie_organizer::types::OrganizerError;
use sortie_organizer::types::SwipeAction;
use sortie_organizer::types::SwipeConfig;

fn custom(path: &str) -> SwipeAction {
    SwipeAction::CustomFolder { path: path.to_string() }
}

#[test]
fn default_config_is_fully_bound() {
    let c = OrganizerConfig::default();
    assert_eq!(c.swipe.up, SwipeAction::Skip);
    assert_eq!(c.swipe.down, SwipeAction::Delete);
    assert_eq!(c.swipe.left, SwipeAction::BRoll);
    assert_eq!(c.swipe.right, SwipeAction::ARoll);
}

#[test]
fn default_config_json_is_canonical() {
    let c = OrganizerConfig::default();
    assert_eq!(
        config_to_json(&c),
        "{\"swipe\":{\"up\":{\"type\":\"Skip\"},\"down\":{\"type\":\"Delete\"},\"left\":{\"type\":\"BRoll\"},\"right\":{\"type\":\"ARoll\"}}}"
    );
}

#[test]
fn custom_folder_json_escapes_quotes_and_backslashes() {
    let c = OrganizerConfig {
        swipe: SwipeConfig {
            up: custom("C:\\clips\\\"best\""),
            down: SwipeAction::Delete,
            left: SwipeAction::BRoll,
            right: SwipeAction::ARoll,
        },
    };
    let json = config_to_json(&c);
    assert!(json.starts_with(
        "{\"swipe\":{\"up\":{\"type\":\"custom_folder\",\"path\":\"C:\\\\clips\\\\\\\"best\\\"\"}"
    ));
}

#[test]
fn round_trip_default() {
    let c = OrganizerConfig::default();
    assert_eq!(config_from_json(&config_to_json(&c)), Ok(c));
}

#[test]
fn round_trip_custom_folders() {
    let c = OrganizerConfig {
        swipe: SwipeConfig {
            up: custom("keepers"),
            down: custom("/abs/trash dir"),
            left: custom("with\"quote"),
            right: custom("back\\slash and \\\" both"),
        },
    };
    assert_eq!(config_from_json(&config_to_json(&c)), Ok(c));
}

#[test]
fn round_trip_empty_custom_path() {
    let c = OrganizerConfig {
        swipe: SwipeConfig {
            up: SwipeAction::ARoll,
            down: SwipeAction::Skip,
            left: custom(""),
            right: SwipeAction::Delete,
        },
    };
    assert_eq!(config_from_json(&config_to_json(&c)), Ok(c));
}

#[test]
fn malformed_json_is_a_parse_error() {
    assert_eq!(config_from_json(""), Err(OrganizerError::ParseError));
    assert_eq!(config_from_json("{}"), Err(OrganizerError::ParseError));
    assert_eq!(config_from_json("not json at all"), Err(OrganizerError::ParseError));
    let truncated = "{\"swipe\":{\"up\":{\"type\":\"Skip\"}";
    assert_eq!(config_from_json(truncated), Err(OrganizerError::ParseError));
    let trailing_garbage =
        "{\"swipe\":{\"up\":{\"type\":\"Skip\"},\"down\":{\"type\":\"Delete\"},\"left\":{\"type\":\"BRoll\"},\"right\":{\"type\":\"ARoll\"}}}x";
    assert_eq!(config_from_json(trailing_garbage), Err(OrganizerError::ParseError));
}

#[test]
fn whitespace_between_tokens_is_tolerated() {
    let pretty = "{\n  \"swipe\" : {\n    \"up\" : { \"type\" : \"Skip\" },\n    \"down\" : { \"type\" : \"Delete\" },\n    \"left\" : { \"type\" : \"BRoll\" },\n    \"right\" : { \"type\" : \"ARoll\" }\n  }\n}\n";
    assert_eq!(config_from_json(pretty), Ok(OrganizerConfig::default()));
}

#[test]
fn standard_string_escapes_are_decoded() {
    let doc = "{\"swipe\":{\"up\":{\"type\":\"custom_folder\",\"path\":\"a\\/b\\n\\t\\u0041\"},\"down\":{\"type\":\"Delete\"},\"left\":{\"type\":\"BRoll\"},\"right\":{\"type\":\"ARoll\"}}}";
    let c = config_from_json(doc).unwrap();
    assert_eq!(c.swipe.up, custom("a/b\n\tA"));
}

#[test]
fn unicode_escape_decodes_beyond_ascii() {
    let doc = "{\"swipe\":{\"up\":{\"type\":\"custom_folder\",\"path\":\"\\u0142\\ufffd\"},\"down\":{\"type\":\"Delete\"},\"left\":{\"type\":\"BRoll\"},\"right\":{\"type\":\"ARoll\"}}}";
    let c = config_from_json(doc).unwrap();
    assert_eq!(c.swipe.up, custom("\u{142}\u{fffd}"));
}

#[test]
fn surrogate_escape_is_a_parse_error() {
    let doc = "{\"swipe\":{\"up\":{\"type\":\"custom_folder\",\"path\":\"\\ud800\"},\"down\":{\"type\":\"Delete\"},\"left\":{\"type\":\"BRoll\"},\"right\":{\"type\":\"ARoll\"}}}";
    assert_eq!(config_from_json(doc), Err(OrganizerError::ParseError));
}

#[test]
fn control_characters_are_escaped_on_encode() {
    let c = OrganizerConfig {
        swipe: SwipeConfig {
            up: custom("a\nb\tc\u{1}d\u{1f}"),
            down: SwipeAction::Delete,
            left: SwipeAction::BRoll,
            right: SwipeAction::ARoll,
        },
    };
    let json = config_to_json(&c);
    assert!(json.contains("a\\nb\\tc\\u0001d\\u001f"));
    assert!(!json.contains('\n'));
    assert_eq!(config_from_json(&json), Ok(c));
}

#[test]
fn unknown_action_tag_is_a_parse_error() {
    let bad =
        "{\"swipe\":{\"up\":{\"type\":\"Shred\"},\"down\":{\"type\":\"Delete\"},\"left\":{\"type\":\"BRoll\"},\"right\":{\"type\":\"ARoll\"}}}";
    assert_eq!(config_from_json(bad), Err(OrganizerError::ParseError));
}

#[test]
fn absent_file_loads_the_structural_default() {
    let loaded = config_of_loaded(None).unwrap();
    assert_eq!(loaded, OrganizerConfig::default());
}

#[test]
fn present_file_loads_its_value_not_the_default() {
    let c = OrganizerConfig {
        swipe: SwipeConfig {
            up: SwipeAction::Delete,
            down: SwipeAction::Skip,
            left: SwipeAction::ARoll,
            right: SwipeAction::BRoll,
        },
    };
    let json = config_to_json(&c);
    assert_eq!(config_of_loaded(Some(&json)), Ok(c));
}

#[test]
fn malformed_file_is_not_replaced_by_defaults() {
    assert_eq!(config_of_loaded(Some("{broken")), Err(OrganizerError::ParseError));
}

#[test]
fn config_path_is_under_the_app_data_root() {
    assert_eq!(organizer_config_path("/data/app"), "/data/app/organizer_config.json");
    assert_eq!(organizer_config_path("/data/app/"), "/data/app/organizer_config.json");
}

#[test]
fn temp_sibling_differs_from_the_final_path() {
    let p = "/data/app/organizer_config.json";
    let t = temp_sibling_path(p);
    assert_eq!(t, "/data/app/organizer_config.json.tmp");
    assert_ne!(t, p);
}

#[test]
fn interrupted_save_leaves_the_original_readable() {
    // A save writes the whole new document to the temporary sibling first;
    // until the rename, the final path still holds the old document intact.
    let old = OrganizerConfig::default();
    let old_on_disk = config_to_json(&old);
    let new = OrganizerConfig {
        swipe: SwipeConfig {
            up: custom("picks"),
            down: SwipeAction::Delete,
            left: SwipeAction::BRoll,
            right: SwipeAction::ARoll,
        },
    };
    let _pending_temp_content = config_to_json(&new);
    assert_eq!(config_of_loaded(Some(&old_on_disk)), Ok(old));
}
