pub mod text;
pub mod buffer;
pub mod search;
pub mod cmd_palette;
pub mod term_panel;
pub mod ai_project;
pub mod filetree;
pub mod app;
pub mod theme;
pub mod status;
pub mod editor;
pub mod laws;
