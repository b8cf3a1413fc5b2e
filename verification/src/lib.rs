//! Verified core of `nao`, a task runner: recipe model and parsing, task
//! selection and planning, the scheduling state machine, output framing,
//! process command construction, artifact naming and run rendering.

pub mod recipe;
pub mod text;
pub mod file_path;
pub mod scheduler;
pub mod duration;
pub mod kdl_model;
pub mod source_location;
pub mod recipe_parse;
pub mod selectors;
pub mod planning;
pub mod run_outcome;
pub mod output_framer;
pub mod process_command;
pub mod artifacts;
pub mod rendering;
pub mod cli;
pub mod cancellation;
pub mod tui;
pub mod run_recording;
pub mod run_progress;
pub mod ci_output;
pub mod observer;
pub mod navigation;
pub mod launcher;
pub mod run_history;
pub mod runner;
pub mod artifact_records;
pub mod tui_text;
pub mod refresh;
