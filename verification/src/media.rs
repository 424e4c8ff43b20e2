//! Local files that tracks are resolved to.

use vstd::prelude::*;

use crate::callbacks::CpResponse;

verus! {

/// Seconds that resolving a track may take.
pub const CP_TIMEOUT_SECS: u64 = 30;

/// A local file.
#[derive(Debug, Clone)]
pub struct ResolvedMedia {
    pub local_path: String,
    /// Whether the file was made for this one use, and is to be deleted after
    /// it.
    pub is_temp: bool,
}

impl ResolvedMedia {
    /// The file that the station's answer names.
    pub fn from_response(resp: CpResponse) -> (media: ResolvedMedia)
        ensures
            media.local_path@ == resp.uri@,
            media.is_temp == resp.is_temp,
    {
        ResolvedMedia { local_path: resp.uri, is_temp: resp.is_temp }
    }

    /// The file to delete once it has been used: only a temporary one is.
    pub fn file_to_remove(&self) -> (path: Option<&str>)
        ensures
            match path {
                Some(p) => self.is_temp && p@ == self.local_path@,
                None => !self.is_temp,
            },
    {
        if self.is_temp {
            Some(self.local_path.as_str())
        } else {
            None
        }
    }
}

} // verus!
