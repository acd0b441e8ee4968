//! The saved settings record and how an update is applied to it.
use vstd::prelude::*;

verus! {

/// The settings read from storage; every field is kept as text.
#[derive(Clone, Debug, Default)]
pub struct AppSettings {
    pub telegram_threads: String,
    pub telegram_folder_path: String,
    pub chrome_threads: String,
    pub chrome_folder_path: String,
}

/// The fields an update supplies; an absent field keeps its saved value.
#[derive(Clone, Debug, Default)]
pub struct SettingsUpdate {
    pub telegram_threads: Option<String>,
    pub telegram_folder_path: Option<String>,
    pub chrome_threads: Option<String>,
    pub chrome_folder_path: Option<String>,
}

pub open spec fn updated(field: String, update: Option<String>) -> String {
    match update {
        Some(v) => v,
        None => field,
    }
}

fn take_update(field: String, update: Option<String>) -> (r: String)
    ensures
        r == updated(field, update),
{
    match update {
        Some(v) => v,
        None => field,
    }
}

/// The saved settings with each field that the update supplies replaced.
pub fn merge_settings(current: AppSettings, update: SettingsUpdate) -> (r: AppSettings)
    ensures
        r.telegram_threads == updated(current.telegram_threads, update.telegram_threads),
        r.telegram_folder_path == updated(current.telegram_folder_path, update.telegram_folder_path),
        r.chrome_threads == updated(current.chrome_threads, update.chrome_threads),
        r.chrome_folder_path == updated(current.chrome_folder_path, update.chrome_folder_path),
{
    AppSettings {
        telegram_threads: take_update(current.telegram_threads, update.telegram_threads),
        telegram_folder_path: take_update(current.telegram_folder_path, update.telegram_folder_path),
        chrome_threads: take_update(current.chrome_threads, update.chrome_threads),
        chrome_folder_path: take_update(current.chrome_folder_path, update.chrome_folder_path),
    }
}

} // verus!
