//! Core data types of the triage subsystem: clips, swipe actions, the
//! persisted configuration, errors, and their mathematical views.

use vstd::prelude::*;

verus! {

/// Mathematical view of a [`SwipeAction`]: the payload of a custom folder is
/// a sequence of characters.
pub enum ActionView {
    ARoll,
    BRoll,
    Delete,
    Skip,
    CustomFolder { path: Seq<char> },
}

/// Action to perform when the user swipes in a direction.
#[derive(Debug, Clone, PartialEq)]
pub enum SwipeAction {
    ARoll,
    BRoll,
    Delete,
    Skip,
    CustomFolder { path: String },
}

impl View for SwipeAction {
    type V = ActionView;

    open spec fn view(&self) -> ActionView {
        match self {
            SwipeAction::ARoll => ActionView::ARoll,
            SwipeAction::BRoll => ActionView::BRoll,
            SwipeAction::Delete => ActionView::Delete,
            SwipeAction::Skip => ActionView::Skip,
            SwipeAction::CustomFolder { path } => ActionView::CustomFolder { path: path@ },
        }
    }
}

/// Mathematical view of a [`SwipeConfig`].
pub struct SwipeConfigView {
    pub up: ActionView,
    pub down: ActionView,
    pub left: ActionView,
    pub right: ActionView,
}

/// Mapping of each swipe direction to an action. Invariant by construction:
/// all four directions are always bound.
#[derive(Debug, Clone, PartialEq)]
pub struct SwipeConfig {
    pub up: SwipeAction,
    pub down: SwipeAction,
    pub left: SwipeAction,
    pub right: SwipeAction,
}

impl View for SwipeConfig {
    type V = SwipeConfigView;

    open spec fn view(&self) -> SwipeConfigView {
        SwipeConfigView { up: self.up@, down: self.down@, left: self.left@, right: self.right@ }
    }
}

/// The default binding: up is Skip, down is Delete, left is BRoll, right is
/// ARoll.
pub open spec fn default_swipe_config_view() -> SwipeConfigView {
    SwipeConfigView {
        up: ActionView::Skip,
        down: ActionView::Delete,
        left: ActionView::BRoll,
        right: ActionView::ARoll,
    }
}

impl Default for SwipeConfig {
    fn default() -> (r: Self)
        ensures
            r@ == default_swipe_config_view(),
    {
        SwipeConfig {
            up: SwipeAction::Skip,
            down: SwipeAction::Delete,
            left: SwipeAction::BRoll,
            right: SwipeAction::ARoll,
        }
    }
}

/// Persistent organizer settings: the swipe bindings.
#[derive(Debug, Clone, PartialEq)]
pub struct OrganizerConfig {
    pub swipe: SwipeConfig,
}

impl View for OrganizerConfig {
    type V = SwipeConfigView;

    open spec fn view(&self) -> SwipeConfigView {
        self.swipe@
    }
}

impl Default for OrganizerConfig {
    fn default() -> (r: Self)
        ensures
            r@ == default_swipe_config_view(),
    {
        OrganizerConfig { swipe: SwipeConfig::default() }
    }
}

/// Mathematical view of a [`VideoClip`].
pub struct VideoClipView {
    pub id: Seq<char>,
    pub path: Seq<char>,
    pub filename: Seq<char>,
    pub size: u32,
    pub format: Seq<char>,
}

/// A video clip discovered in a source directory. Identity is its absolute
/// path at scan time; a moved clip gets a new identity on the next scan.
/// The size is capped to the 32-bit unsigned range, so it is not an exact
/// identity check for very large files. Duration probing is out of scope
/// here, so no duration field is carried.
#[derive(Debug, Clone, PartialEq)]
pub struct VideoClip {
    pub id: String,
    pub path: String,
    pub filename: String,
    /// File size in bytes, clamped to the `u32` range.
    pub size: u32,
    /// Extension in lower case, e.g. "mp4", "mov".
    pub format: String,
}

impl View for VideoClip {
    type V = VideoClipView;

    open spec fn view(&self) -> VideoClipView {
        VideoClipView {
            id: self.id@,
            path: self.path@,
            filename: self.filename@,
            size: self.size,
            format: self.format@,
        }
    }
}

/// Failure taxonomy of the organizer subsystem. Every operation reports its
/// failure to the immediate caller through this type; nothing is swallowed.
#[derive(Debug, Clone, PartialEq)]
pub enum OrganizerError {
    /// The scan path does not resolve to an existing directory.
    NotADirectory,
    /// The path guard refused a protected system path.
    AccessDenied,
    /// An underlying filesystem operation failed; carries the OS error text.
    IoError { message: String },
    /// The persisted configuration file is malformed.
    ParseError,
    /// The clip's current path no longer exists on disk.
    SourceNotFound,
    /// The source path has no filename component.
    InvalidSource,
    /// A file with the destination name already exists; nothing is overwritten.
    TargetExists,
}

/// Error types for recovery-data operations, kept typed so that a frontend
/// can match on them.
#[derive(Debug, Clone, PartialEq)]
pub enum RecoveryError {
    /// File does not exist (expected case, not a failure).
    FileNotFound,
    /// Filename validation failed.
    ValidationError { message: String },
    /// Data exceeds the size limit.
    DataTooLarge { max_bytes: u32 },
    /// File system read or write error.
    IoError { message: String },
    /// Serialization or deserialization error.
    ParseError { message: String },
}

impl RecoveryError {
    /// The human-readable description of this error.
    pub fn describe(&self) -> (r: String)
        ensures
            match self {
                RecoveryError::FileNotFound => r@ == "File not found"@,
                RecoveryError::ValidationError { message } => r@ == "Validation error: "@
                    + message@,
                RecoveryError::DataTooLarge { max_bytes } => r@ == "Data too large (max "@
                    + crate::numfmt::spec_digits(*max_bytes as nat) + " bytes)"@,
                RecoveryError::IoError { message } => r@ == "IO error: "@ + message@,
                RecoveryError::ParseError { message } => r@ == "Parse error: "@ + message@,
            },
    {
        match self {
            RecoveryError::FileNotFound => String::from_str("File not found"),
            RecoveryError::ValidationError { message } => {
                let mut m = String::from_str("Validation error: ");
                m.append(message.as_str());
                m
            },
            RecoveryError::DataTooLarge { max_bytes } => {
                let mut m = String::from_str("Data too large (max ");
                m.append(crate::numfmt::u64_to_string(*max_bytes as u64).as_str());
                m.append(" bytes)");
                m
            },
            RecoveryError::IoError { message } => {
                let mut m = String::from_str("IO error: ");
                m.append(message.as_str());
                m
            },
            RecoveryError::ParseError { message } => {
                let mut m = String::from_str("Parse error: ");
                m.append(message.as_str());
                m
            },
        }
    }
}

/// Maximum size for recovery data files (10 MB).
pub const MAX_RECOVERY_DATA_BYTES: u32 = 10485760;

/// Default shortcut for the quick pane.
pub const DEFAULT_QUICK_PANE_SHORTCUT: &'static str = "CommandOrControl+Shift+.";

/// Application preferences that persist to disk.
#[derive(Debug, Clone, PartialEq)]
pub struct AppPreferences {
    pub theme: String,
    /// Global shortcut for the quick pane; `None` means use the default.
    pub quick_pane_shortcut: Option<String>,
    /// Preferred language code; `None` means use system locale detection.
    pub language: Option<String>,
}

impl Default for AppPreferences {
    fn default() -> (r: Self)
        ensures
            r.theme@ == "system"@,
            r.quick_pane_shortcut is None,
            r.language is None,
    {
        AppPreferences {
            theme: String::from_str("system"),
            quick_pane_shortcut: None,
            language: None,
        }
    }
}

/// Session snapshot kept by a caller that wants to resume a triage run.
#[derive(Debug, Clone, PartialEq)]
pub struct OrganizerSession {
    pub source_dir: String,
    pub current_index: usize,
    pub processed_count: usize,
    pub start_time_secs: i64,
}

} // verus!
