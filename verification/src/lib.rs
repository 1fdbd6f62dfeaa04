//! Terminal user interface for coding sessions.
pub mod clipboard;
pub mod composer;
pub mod config;
pub mod copying;
pub mod diff_render;
pub mod error;
pub mod frame;
pub mod highlight;
pub mod history_cell;
pub mod keys;
pub mod markdown_events;
pub mod markdown_render;
pub mod markdown_stream;
pub mod plan_approval;
pub mod project_instructions;
pub mod protocol;
pub mod question_picker;
pub mod skill_popup;
pub mod style;
pub mod subagent_preview;
pub mod text;
pub mod text_map;
pub mod transcript;
pub mod ui;
pub mod width;
pub mod wrap;
