//! A terminal dashboard's core: the store of launchable programs, the
//! add-program wizard, the mode state machine, launch decisions and the
//! layout of each screen.

pub mod config;
pub mod dashboard;
pub mod laws;
pub mod render;
pub mod text;
pub mod wizard;

pub use config::{config_dir_from, config_file_in, Config, ProgramEntry, ProgramEntryView};
pub use dashboard::{launch_plan, Action, Dashboard, Key, LaunchPlan, Mode, Saved};
pub use render::{centered, output_lines, program_row, Color, Span};
pub use text::{clip_line, combine_output, join_text, pad_to, text_le};
pub use wizard::{AddProgramForm, WizardView};
