//! Reconciliation, launch and termination logic for a fleet of locally
//! installed application profiles, each living in its own directory under a
//! configured root.

pub mod fleet;
pub mod health;
pub mod launch;
pub mod link;
pub mod paths;
pub mod process;
pub mod settings;
pub mod terminate;
pub mod text;

pub use fleet::{resolve_root, summarize_fleet, FleetSummary, ProfileEntry};
pub use health::is_likely_logged_out;
pub use launch::{
    launch_args, launch_order, parse_batch_size, wants_shuffle, LaunchAction, LaunchPhase,
    LaunchProgress, LaunchRun, LaunchStep, SpawnOutcome,
};
pub use link::{build_telegram_link, TelegramLink};
pub use paths::{build_account_dirs, profile_dir_path, profile_exe_path};
pub use process::{filter_target_processes, get_pids_for_account_dirs, is_target_process, ProcessRecord};
pub use settings::{merge_settings, AppSettings, SettingsUpdate};
pub use terminate::{
    authorized_pids, close_batch_dirs, configured_root, pids_for_accounts, single_account_targets,
    CloseError, CloseRetry,
};
pub use text::normalize_path_for_match;
