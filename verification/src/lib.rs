//! State and rules of a desktop client for coding agents.
pub mod ids;
pub mod row_laws;
pub mod screen_laws;
pub mod seqs;
pub mod text;
pub mod keyed;
pub mod model;
pub mod thought_laws;
pub mod transcript;
pub mod text_laws;
pub mod text_parts;
pub mod activities;
pub mod lines;
pub mod events;
pub mod course_laws;
pub mod desk;
pub mod shell;
pub mod live;
pub mod streaming;
pub mod turns;
pub mod driver_step;
pub mod driver_events;
pub mod stream_laws;
pub mod desk_laws;
pub mod turn_laws;
pub mod probes;
pub mod submission_laws;
pub mod submissions;
pub mod preparation_laws;
pub mod preparations;
pub mod model_laws;
pub mod name_laws;
pub mod navigation;
pub mod session_laws;
pub mod sessions;
pub mod option_laws;
pub mod options;
pub mod fork_title;
pub mod upkeep_laws;
pub mod version;
pub mod truncation;
pub mod rewind_laws;
pub mod rewinds;
pub mod form_laws;
pub mod forks;
pub mod attachment_laws;
pub mod attachments;
pub mod pump;
pub mod stopping;
pub mod ranking;
pub mod sidebar_groups;
pub mod sidebar_laws;
pub mod panels;
pub mod sidebar;
pub mod sidebar_views;
pub mod file_types;
pub mod icon_laws;
pub mod surfaces;
pub mod lexical;
pub mod diff_files;
pub mod working_tree;
pub mod right_panel;
pub mod file_editors;
pub mod output_laws;
pub mod panel_laws;
pub mod panel_views;
pub mod settings;
pub mod settings_laws;
pub mod provider_types;
pub mod providers_page;
pub mod modalities;
pub mod provider_probes;
pub mod provider_forms;
pub mod provider_edit_laws;
pub mod provider_laws;
pub mod provider_views;
pub mod hosting;
pub mod computer_use;
pub mod view_laws;
pub mod visible_state;
