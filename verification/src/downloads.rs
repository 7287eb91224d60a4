//! Where received files go by default, from the directories that the
//! platform reports.

use vstd::prelude::*;
use vstd::string::*;
use crate::paths::{join_path, path_join};

verus! {

/// The download directory on Android, a fixed path.
pub fn android_downloads_dir() -> (dir: String)
    ensures
        dir@ == "/storage/emulated/0/Download"@,
{
    String::from_str("/storage/emulated/0/Download")
}

/// The download directory on iOS: `Documents` in the home directory, or the
/// error text where the home directory is unknown.
pub fn ios_documents_dir(home_dir: Option<String>) -> (r: Result<String, String>)
    ensures
        match home_dir {
            Some(h) => r matches Ok(d) && d@ == path_join(h@, "Documents"@),
            None => r matches Err(m) && m@ == "Could not determine home directory"@,
        },
{
    match home_dir {
        Some(h) => Ok(join_path(h.as_str(), "Documents")),
        None => Err(String::from_str("Could not determine home directory")),
    }
}

/// The download directory on a desktop: the platform's download directory,
/// else `Downloads` in the home directory, else the error text.
pub fn desktop_downloads_dir(download_dir: Option<String>, home_dir: Option<String>) -> (r: Result<String, String>)
    ensures
        match (download_dir, home_dir) {
            (Some(d), _) => r matches Ok(x) && x@ == d@,
            (None, Some(h)) => r matches Ok(x) && x@ == path_join(h@, "Downloads"@),
            (None, None) => r matches Err(m) && m@ == "Could not determine downloads directory"@,
        },
{
    match download_dir {
        Some(d) => Ok(d),
        None => match home_dir {
            Some(h) => Ok(join_path(h.as_str(), "Downloads")),
            None => Err(String::from_str("Could not determine downloads directory")),
        },
    }
}

} // verus!
