//! Application services of the mod manager: storage write gate, import task admission,
//! library queries, diagnostics, profile rules and the other decisions the desktop shell makes.
pub mod write_gate;
pub mod text;
pub mod ids;
pub mod tasks;
pub mod import_task;
pub mod library;
pub mod library_query;
pub mod diagnostics;
pub mod metadata;
pub mod shortcuts;
pub mod package_contents;
pub mod profile;
pub mod reinstall;
pub mod storage_settings;
pub mod storage_migration;
pub mod installation_state;
pub mod installation_session;
pub mod statistics;
pub mod preview;
pub mod attachments;
pub mod projection;
pub mod archive;
pub mod installation_scope;
pub mod projection_tracking;
pub mod plugin;
pub mod plugin_inventory;
pub mod additional_sources;
pub mod replacement_context;
pub mod selection_plan;
pub mod preflight;
pub mod label_order;
pub mod recovery;
