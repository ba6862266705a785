//! A terminal dashboard for a repository's issues, pull requests and
//! projects: the panel stack and its focus rules, the orchestrator that
//! routes key presses and fetched data, the input scheduler's cadence, the
//! credential chain, and the configuration and repository state they use.
pub mod config;
pub mod credentials;
pub mod dashboard_panel;
pub mod issues_view;
pub mod list_view;
pub mod menu;
pub mod panel;
pub mod panel_stack;
pub mod pattern;
pub mod remote_explorer;
pub mod requests;
pub mod scheduler;
pub mod state;
pub mod text;
pub mod ui;
