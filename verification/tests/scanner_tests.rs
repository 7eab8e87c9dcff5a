use sortie_organizer::guard::is_blocked_directory;
use sortie_organizer::scanner::build_catalog;
use sortie_organizer::scanner::check_scan_source;
use sortie_organizer::scanner::has_video_extension;
use sortie_organizer::scanner::DirEntry;
use sortie_organizer::types::OrganizerError;

fn entry(name: &str, is_file: bool, size: Option<u64>) -> DirEntry {
    DirEntry { name: name.to_string(), is_file, size }
}

#[test]
fn blocked_prefixes_are_refused() {
    assert!(is_blocked_directory("/usr"));
    assert!(is_blocked_directory("/usr/share/fonts"));
    assert!(is_blocked_directory("/etc"));
    assert!(is_blocked_directory("/bin/deep"));
    assert!(is_blocked_directory("/sbin"));
    assert!(is_blocked_directory("/lib/x86"));
    assert!(is_blocked_directory("/System/Library"));
    assert!(is_blocked_directory("C:\\Windows\\System32"));
    assert!(is_blocked_directory("C:\\Program Files\\App"));
    assert!(is_blocked_directory("C:\\Program Files (x86)\\App"));
}

#[test]
fn ordinary_directories_are_allowed() {
    assert!(!is_blocked_directory("/home/user/videos"));
    assert!(!is_blocked_directory("/tmp/clips"));
    assert!(!is_blocked_directory("D:\\Footage"));
    assert!(!is_blocked_directory(""));
}

#[test]
fn prefix_match_is_textual() {
    // The guard matches on text, so a sibling name sharing the prefix is
    // also refused; that mirrors the plain prefix policy.
    assert!(is_blocked_directory("/etcetera"));
}

#[test]
fn scan_gate_orders_its_checks() {
    assert_eq!(check_scan_source("/home/user/videos", true), Ok(()));
    assert_eq!(
        check_scan_source("/home/user/missing", false),
        Err(OrganizerError::NotADirectory)
    );
    assert_eq!(check_scan_source("/usr/share", true), Err(OrganizerError::AccessDenied));
    // A non-directory is reported as such even under a blocked prefix.
    assert_eq!(check_scan_source("/usr/share", false), Err(OrganizerError::NotADirectory));
}

#[test]
fn video_extensions_match_case_insensitively() {
    assert!(has_video_extension("clip.mp4"));
    assert!(has_video_extension("clip.MP4"));
    assert!(has_video_extension("clip.Mp4"));
    assert!(has_video_extension("clip.mov"));
    assert!(has_video_extension("clip.MOV"));
    assert!(has_video_extension("/a/b/clip.mov"));
    assert!(!has_video_extension("clip.avi"));
    assert!(!has_video_extension("clip.mp3"));
    assert!(!has_video_extension("clip"));
    assert!(!has_video_extension(".mp4"));
    assert!(!has_video_extension("clip."));
    assert!(!has_video_extension("archive.mp4.bak"));
    // The extension test alone does not filter hidden names; the scanner's
    // eligibility rule does.
    assert!(has_video_extension(".x.mp4"));
}

#[test]
fn hidden_files_are_skipped() {
    let entries = vec![
        entry(".x.mp4", true, Some(9)),
        entry("..mp4", true, Some(9)),
        entry(".hidden.mov", true, Some(9)),
        entry("visible.mp4", true, Some(9)),
    ];
    let clips = build_catalog("/v", &entries);
    assert_eq!(clips.len(), 1);
    assert_eq!(clips[0].filename, "visible.mp4");
}

#[test]
fn catalog_filters_sorts_and_fills_fields() {
    let entries = vec![
        entry("b_second.mp4", true, Some(42)),
        entry("notes.txt", true, Some(10)),
        entry("a_first.MOV", true, Some(7)),
        entry("folder.mp4", false, None),
        entry(".mp4", true, Some(1)),
        entry(".dotted.mp4", true, Some(1)),
        entry("c_third.mov", true, None),
    ];
    let clips = build_catalog("/videos", &entries);
    assert_eq!(clips.len(), 3);
    assert_eq!(clips[0].filename, "a_first.MOV");
    assert_eq!(clips[1].filename, "b_second.mp4");
    assert_eq!(clips[2].filename, "c_third.mov");
    assert_eq!(clips[0].path, "/videos/a_first.MOV");
    assert_eq!(clips[0].id, "/videos/a_first.MOV");
    assert_eq!(clips[0].format, "mov");
    assert_eq!(clips[0].size, 7);
    assert_eq!(clips[1].format, "mp4");
    assert_eq!(clips[1].size, 42);
    // A failed metadata fetch degrades that entry to size zero.
    assert_eq!(clips[2].size, 0);
}

#[test]
fn catalog_of_empty_listing_is_empty() {
    let clips = build_catalog("/videos", &Vec::new());
    assert!(clips.is_empty());
}

#[test]
fn catalog_clamps_oversized_files() {
    let entries = vec![entry("huge.mp4", true, Some(u64::MAX)), entry(
        "exact.mp4",
        true,
        Some(u32::MAX as u64),
    )];
    let clips = build_catalog("/v", &entries);
    assert_eq!(clips[1].filename, "huge.mp4");
    assert_eq!(clips[1].size, u32::MAX);
    assert_eq!(clips[0].filename, "exact.mp4");
    assert_eq!(clips[0].size, u32::MAX);
}

#[test]
fn catalog_join_respects_trailing_separator() {
    let entries = vec![entry("x.mp4", true, Some(1))];
    let clips = build_catalog("/videos/", &entries);
    assert_eq!(clips[0].path, "/videos/x.mp4");
}

#[test]
fn catalog_order_is_byte_order() {
    let entries = vec![
        entry("B.mp4", true, Some(1)),
        entry("a.mp4", true, Some(1)),
        entry("A.mp4", true, Some(1)),
    ];
    let clips = build_catalog("/v", &entries);
    // Upper-case letters order before lower-case ones in byte order.
    assert_eq!(clips[0].filename, "A.mp4");
    assert_eq!(clips[1].filename, "B.mp4");
    assert_eq!(clips[2].filename, "a.mp4");
}
