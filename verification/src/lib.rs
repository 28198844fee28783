//! The editor-state logic of the Smaragd writing app: document navigation
//! history, bookmark stepping and line arithmetic, and the small decisions the
//! user interface makes from settings and per-frame state.

pub mod doc_path;
pub mod path_map;
pub mod document_history;
pub mod bookmarks;
pub mod settings;
pub mod labels;
pub mod activity;
pub mod menu_nav;
pub mod status_cache;
pub mod external_watch;
pub mod notifications;
pub mod search_scope;
pub mod plugin_shortcuts;
pub mod navigation;
pub mod commands;
pub mod git_flow;
pub mod collab_flow;
pub mod binder_ops;
pub mod status_bar;
