//! A recursive line search over a directory tree, shown in a full-screen
//! terminal view. This crate holds the decisions: which lines become match
//! records, how records are written and read back, what each frame says, which
//! keys end the run, and when the scan stops to repaint or gives up.
pub mod display;
pub mod input;
pub mod pattern;
pub mod record;
pub mod scan;
pub mod session;

pub use display::{
    current_file_line, header_title, results_frame, scanning_frame, searching_title, FrameText,
};
pub use input::{exit_requested, is_exit_key, Key};
pub use pattern::{Matcher, PatternError};
pub use record::{decimal_string, MatchRecord};
pub use scan::{scan_lines, FileStep, Scan, ANIMATION_FRAMES};
pub use session::{TerminalSession, TerminalState};
