//! Choices made on the command line that steer a synchronisation pass.

use vstd::prelude::*;
use crate::text::same_text;

verus! {

/// Where a synchronisation pass sends the assets that changed.
#[derive(Debug, Clone, Copy, PartialEq, Eq, Structural)]
pub enum SyncTarget {
    /// Upload to the remote hosting service.
    Roblox,
    /// Do not upload; any pending change fails the pass.
    NoUpload,
    /// Copy into a local debug directory.
    Debug,
    /// Copy into the locally installed content folder.
    Local,
}

impl SyncTarget {
    /// The target that a command-line word names: `remote`, `none`, `debug`
    /// or `local`.
    pub open spec fn spec_parse(value: Seq<char>) -> Option<SyncTarget> {
        if value == "remote"@ {
            Some(SyncTarget::Roblox)
        } else if value == "none"@ {
            Some(SyncTarget::NoUpload)
        } else if value == "debug"@ {
            Some(SyncTarget::Debug)
        } else if value == "local"@ {
            Some(SyncTarget::Local)
        } else {
            None
        }
    }

    /// The target that `value` names, or the message that says which words
    /// name one.
    pub fn parse(value: &str) -> (target: Result<SyncTarget, String>)
        ensures
            match target {
                Ok(target) => Self::spec_parse(value@) == Some(target),
                Err(message) => {
                    &&& Self::spec_parse(value@) is None
                    &&& message@
                        == "Invalid sync target. Valid options are remote, local, none, and debug."@
                },
            },
    {
        if same_text(value, "remote") {
            Ok(SyncTarget::Roblox)
        } else if same_text(value, "none") {
            Ok(SyncTarget::NoUpload)
        } else if same_text(value, "debug") {
            Ok(SyncTarget::Debug)
        } else if same_text(value, "local") {
            Ok(SyncTarget::Local)
        } else {
            Err(
                String::from_str(
                    "Invalid sync target. Valid options are remote, local, none, and debug.",
                ),
            )
        }
    }
}

impl std::str::FromStr for SyncTarget {
    type Err = String;

    /// The target that `value` names, or the message that says which words
    /// name one: what `parse` gives.
    fn from_str(value: &str) -> (target: Result<SyncTarget, String>)
        ensures
            match target {
                Ok(target) => SyncTarget::spec_parse(value@) == Some(target),
                Err(message) => {
                    &&& SyncTarget::spec_parse(value@) is None
                    &&& message@
                        == "Invalid sync target. Valid options are remote, local, none, and debug."@
                },
            },
    {
        SyncTarget::parse(value)
    }
}

/// What to upload with the `upload-image` command.
#[derive(Debug, Clone)]
pub struct UploadImageOptions {
    /// The image to upload.
    pub path: String,
    /// The name of the resulting asset.
    pub name: String,
    /// The description of the resulting asset.
    pub description: String,
    /// The group to upload to, if any.
    pub group_id: Option<u64>,
    /// The user to upload to, if any.
    pub user_id: Option<u64>,
}

/// How to run the `sync` command.
#[derive(Debug, Clone)]
pub struct SyncOptions {
    /// Where the changed assets go.
    pub target: SyncTarget,
    /// How often an upload is tried again when it is rate-limited; not at
    /// all where nothing is given.
    pub retry: Option<usize>,
    /// The seconds to wait between two attempts.
    pub retry_delay: u64,
    /// The project's configuration, or the folder that holds it.
    pub config_path: Option<String>,
}

impl SyncOptions {
    /// How often an upload is tried again: `retry`, or 0 where it is not
    /// given.
    pub fn max_retries(&self) -> (retries: usize)
        ensures
            retries == match self.retry {
                Some(retries) => retries,
                None => 0,
            },
    {
        match self.retry {
            Some(retries) => retries,
            None => 0,
        }
    }
}

/// How to run the `create-cache-map` command.
#[derive(Debug, Clone)]
pub struct CreateCacheMapOptions {
    pub project_path: Option<String>,
    /// The directory for downloaded packed images.
    pub cache_dir: String,
    /// The file for the mapping.
    pub index_file: String,
}

/// How to run the `asset-list` command.
#[derive(Debug, Clone)]
pub struct AssetListOptions {
    pub project_path: Option<String>,
    /// The file for the list.
    pub output: String,
}

/// The commands.
#[derive(Debug, Clone)]
pub enum Subcommand {
    /// Upload one image and print its identifier.
    UploadImage(UploadImageOptions),
    /// Synchronise the project.
    Sync(SyncOptions),
    /// Download the packed sheets and map asset identifiers to files.
    CreateCacheMap(CreateCacheMapOptions),
    /// List the assets that the project needs.
    AssetList(AssetListOptions),
}

} // verus!
