//! Account-service data shapes: workspaces, their modes, and the
//! parameters of account calls.

use vstd::prelude::*;

verus! {

/// How a workspace is selected.
#[derive(Clone, Copy, Debug, PartialEq, Eq, Structural)]
pub enum WorkspaceKind {
    Internal,
    External,
    ByRegion,
}

/// Where a workspace's data lives.
#[derive(Clone, Copy, Debug, PartialEq, Eq, Structural)]
pub enum Location {
    KV,
    WEUR,
    EEUR,
    WNAM,
    ENAM,
}

/// The lifecycle mode of a workspace.
#[derive(Clone, Copy, Debug, PartialEq, Eq, Structural)]
pub enum WorkspaceMode {
    ManualCreation,
    PendingCreation,
    Creating,
    Upgrading,
    PendingDeletion,
    Deleting,
    Active,
    Deleted,
    ArchingPendingBackup,
    ArchivingBackup,
    ArchivingPendingClean,
    ArchivingClean,
    Archived,
    MigrationPendingBackup,
    MigrationBackup,
    MigrationPendingClean,
    MigrationClean,
    PendingRestore,
    Restoring,
}

/// A workspace's schema version.
#[derive(Clone, Copy, Debug, PartialEq, Eq, Structural)]
pub struct WorkspaceVersion {
    pub version_major: i32,
    pub version_minor: i32,
    pub version_patch: i32,
}

/// The parameters of a workspace selection.
pub struct SelectWorkspaceParams {
    pub workspace_url: String,
    pub kind: WorkspaceKind,
    pub external_regions: Vec<String>,
}

/// One region a workspace may live in.
pub struct RegionInfo {
    pub region: String,
    pub name: String,
}

/// The parameters of an ensure-person call.
pub struct EnsurePersonParams {
    pub social_type: crate::types::SocialIdType,
    pub social_value: String,
    pub first_name: String,
    pub last_name: Option<String>,
}

/// The person an ensure-person call resolved to.
pub struct EnsurePersonResult {
    pub uuid: String,
    pub social_id: String,
}

/// The parameters of a workspace creation.
pub struct CreateWorkspaceParams {
    pub workspace_name: String,
    pub region: Option<String>,
}

/// The parameters of a sign-up.
pub struct SignUpParams {
    pub email: String,
    pub password: String,
    pub first_name: String,
    pub last_name: String,
}

/// The parameters of a login.
pub struct LoginParams {
    pub email: String,
    pub password: String,
}

/// An account's locale and time zone.
pub struct AccountInfo {
    pub locale: Option<String>,
    pub timezone: Option<String>,
}

/// The parameters of an account listing.
pub struct ListAccountsParams {
    pub search: Option<String>,
    pub skip: Option<u32>,
    pub limit: Option<u32>,
}

} // verus!
