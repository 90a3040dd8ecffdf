//! The scan's admission control: at most one scan runs at a time.

use crate::models::{AppState, Progress};
use vstd::prelude::*;

verus! {

/// Why a scan was not started.
#[derive(Clone, Copy, Debug, PartialEq, Eq, Structural)]
pub enum ScanError {
    /// A scan is running; the request changed nothing.
    AlreadyScanning,
    /// No music folder has been configured, so there is nothing to rescan.
    NoFolderConfigured,
}

impl ScanError {
    /// The text that describes the error to a user.
    pub open spec fn spec_message(self) -> Seq<char> {
        match self {
            ScanError::AlreadyScanning => "Scan already in progress"@,
            ScanError::NoFolderConfigured => "No music folder path configured"@,
        }
    }

    /// The text that describes the error to a user.
    pub fn message(&self) -> (text: String)
        ensures
            text@ == self.spec_message(),
    {
        match self {
            ScanError::AlreadyScanning => String::from_str("Scan already in progress"),
            ScanError::NoFolderConfigured => String::from_str("No music folder path configured"),
        }
    }
}

/// The state in which a scan that was just admitted starts.
pub open spec fn admitted(state: AppState) -> AppState {
    AppState { is_scanning: true, scan_progress: Progress::spec_zero() }
}

/// Asks for a scan to start. While one is running the request is rejected
/// and the state stays as it is; otherwise the flag is set and the progress
/// starts again from nought.
pub fn scan_music_library(state: &mut AppState) -> (admission: Result<(), ScanError>)
    ensures
        old(state).is_scanning ==> admission == Err::<(), ScanError>(ScanError::AlreadyScanning)
            && *final(state) == *old(state),
        !old(state).is_scanning ==> admission is Ok && *final(state) == admitted(*old(state)),
{
    if state.is_scanning {
        return Err(ScanError::AlreadyScanning);
    }
    state.is_scanning = true;
    state.scan_progress = Progress::zero();
    Ok(())
}

/// The current status: whether a scan is running, and the last reading.
pub fn get_scan_status(state: &AppState) -> (status: (bool, Progress))
    ensures
        status == (state.is_scanning, state.scan_progress),
{
    (state.is_scanning, state.scan_progress)
}

/// Asks for the configured folder to be scanned again. Without a configured
/// folder nothing is asked of the scan state; with one, the request is
/// admitted as by `scan_music_library`, and the folder is handed back.
pub fn rescan_library(state: &mut AppState, configured: Option<String>) -> (target: Result<
    String,
    ScanError,
>)
    ensures
        match configured {
            None => target matches Err(e) && e == ScanError::NoFolderConfigured && *final(state)
                == *old(state),
            Some(folder) => if old(state).is_scanning {
                target matches Err(e) && e == ScanError::AlreadyScanning && *final(state) == *old(
                    state,
                )
            } else {
                target matches Ok(f) && f == folder && *final(state) == admitted(*old(state))
            },
        },
{
    match configured {
        Some(folder) => match scan_music_library(state) {
            Ok(_) => Ok(folder),
            Err(e) => Err(e),
        },
        None => Err(ScanError::NoFolderConfigured),
    }
}

} // verus!
