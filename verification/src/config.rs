//! The application's persisted settings: a plain value that the
//! surrounding program loads and stores, with the default choice and
//! the save-path fallback decided here.

use vstd::prelude::*;

verus! {

use crate::types::opt_str_view;

/// The persisted settings of the application.
#[derive(Clone, Debug)]
pub struct AppConfig {
    pub default_save_path: Option<String>,
    pub language: String,
    pub prefer_hdr: bool,
    pub include_subtitles: bool,
}

impl Default for AppConfig {
    /// The settings of a fresh installation: no chosen save path,
    /// automatic language, no HDR preference, no subtitles.
    fn default() -> (r: Self)
        ensures
            r.default_save_path is None,
            r.language@ == "auto"@,
            !r.prefer_hdr,
            !r.include_subtitles,
    {
        AppConfig {
            default_save_path: None,
            language: "auto".to_owned(),
            prefer_hdr: false,
            include_subtitles: false,
        }
    }
}

impl AppConfig {
    /// The directory downloads go to: the configured path when one is
    /// set, else the system download directory handed in by the
    /// caller.
    pub fn get_default_save_path(&self, system_download_dir: Option<String>) -> (r: Option<String>)
        ensures
            opt_str_view(r) == match self.default_save_path {
                Some(p) => Some(p@),
                None => opt_str_view(system_download_dir),
            },
    {
        match &self.default_save_path {
            Some(p) => Some(p.clone()),
            None => system_download_dir,
        }
    }
}

} // verus!
