//! The errors that end a sync run as a whole.
use vstd::prelude::*;

verus! {

/// What makes a whole run fail; per-channel and per-emote problems never do.
#[derive(Debug, PartialEq, Eq)]
pub enum SyncError {
    /// The channel list holds no identifier once split and trimmed.
    InvalidChannelList,
    /// The storage root could not be created or located.
    StorageRoot(String),
    /// Every emote was handled, but the mapping could not be written back.
    MappingPersist(String),
}

impl SyncError {
    /// A human-readable description of the error.
    pub fn message(&self) -> (r: String)
        ensures
            *self == SyncError::InvalidChannelList ==> r@ == "Invalid channel ID list"@,
            self matches SyncError::StorageRoot(reason) ==> r@ == "Storage root error: "@
                + reason@,
            self matches SyncError::MappingPersist(reason) ==> r@
                == "Failed to save emote mapping: "@ + reason@,
    {
        match self {
            SyncError::InvalidChannelList => String::from_str("Invalid channel ID list"),
            SyncError::StorageRoot(reason) => {
                let mut r = String::from_str("Storage root error: ");
                r.append(reason.as_str());
                r
            },
            SyncError::MappingPersist(reason) => {
                let mut r = String::from_str("Failed to save emote mapping: ");
                r.append(reason.as_str());
                r
            },
        }
    }
}

} // verus!
