//! Detection of Unicode bidirectional control characters ("Trojan Source")
//! in text, with the selection and aggregation rules around it.

pub mod config;
pub mod registry;
pub mod run;
pub mod scan;
pub mod select;

pub use config::{get_default_config, Config, DisplaySettings, GeneralSettings};
pub use registry::{get_char_detail, BIDICharDetail};
pub use run::{FileAction, FileEvent, OccurrenceReport, RunSummary};
pub use scan::{check_for_bidi_chars, BIDICharOccurence, BIDICheckResult};
pub use select::{check_patterns, is_selected, matches_exclude, SelectionError};
