//! The core document model: object and transaction shapes, workspace
//! events, social identities, and the traits document classes implement.

use vstd::prelude::*;

use crate::json::JsonVal;

verus! {

/// A document class: each implementing type names the class it stands for.
pub trait Class {
    fn class_name() -> &'static str;
}

/// A document with an identifier.
pub trait HasId {
    fn id(&self) -> &str;
}

/// A query over one document class.
pub trait QueryClass {
    type Params;

    fn matches(&self, params: &Self::Params) -> bool;
}

/// A provider of the bearer token a transport authenticates with.
pub trait TokenProvider {
    fn provide_token(&self) -> Option<&str>;
}

/// The class reference of a document.
pub struct Obj {
    pub class: String,
}

/// A document: its class, identifier, space, and stamps.
pub struct Doc {
    pub obj: Obj,
    pub id: String,
    pub space: String,
    pub modified_on: Option<i64>,
    pub modified_by: Option<String>,
    pub created_by: Option<String>,
    pub created_on: Option<i64>,
}

/// A transaction: a document operating on a space.
pub struct Tx {
    pub doc: Doc,
    pub object_space: String,
}

/// A create, update or delete transaction on one object.
pub struct TxCUD {
    pub tx: Tx,
    pub object_id: String,
    pub object_class: String,
    pub attached_to: Option<String>,
    pub attached_to_class: Option<String>,
    pub collection: Option<String>,
}

/// A document-creating transaction with its attributes.
pub struct TxCreateDoc {
    pub txcud: TxCUD,
    pub attributes: JsonVal,
}

/// The partial operations of an update.
pub struct DocumentUpdate {
    pub push: Option<Vec<(String, JsonVal)>>,
    pub pull: Option<Vec<(String, JsonVal)>>,
    pub update: Option<Vec<(String, JsonVal)>>,
    pub inc: Option<Vec<(String, JsonVal)>>,
    pub unset: Option<Vec<(String, JsonVal)>>,
    pub space: Option<String>,
    pub set_operations: Vec<(String, JsonVal)>,
}

/// A document-updating transaction.
pub struct TxUpdateDoc {
    pub txcud: TxCUD,
    pub operations: DocumentUpdate,
    pub retrieve: Option<bool>,
}

/// A document-removing transaction.
pub struct TxRemoveDoc {
    pub txcud: TxCUD,
}

/// A workspace-level event pushed by the server.
#[derive(Clone, Copy, Debug, PartialEq, Eq, Structural)]
pub enum WorkspaceEvent {
    UpgradeScheduled,
    IndexingUpdate,
    SecurityChange,
    MaintenanceNotification,
    BulkUpdate,
    LastTx,
}

/// The wire code of each workspace event.
pub open spec fn spec_workspace_event_code(e: WorkspaceEvent) -> u8 {
    match e {
        WorkspaceEvent::UpgradeScheduled => 0,
        WorkspaceEvent::IndexingUpdate => 1,
        WorkspaceEvent::SecurityChange => 2,
        WorkspaceEvent::MaintenanceNotification => 3,
        WorkspaceEvent::BulkUpdate => 4,
        WorkspaceEvent::LastTx => 5,
    }
}

impl WorkspaceEvent {
    /// The wire code of this event.
    pub fn code(self) -> (r: u8)
        ensures
            r == spec_workspace_event_code(self),
    {
        match self {
            WorkspaceEvent::UpgradeScheduled => 0,
            WorkspaceEvent::IndexingUpdate => 1,
            WorkspaceEvent::SecurityChange => 2,
            WorkspaceEvent::MaintenanceNotification => 3,
            WorkspaceEvent::BulkUpdate => 4,
            WorkspaceEvent::LastTx => 5,
        }
    }

    /// The event a wire code denotes: only the codes zero to five name one.
    pub fn from_code(code: u8) -> (r: Option<WorkspaceEvent>)
        ensures
            code <= 5 ==> (r matches Some(e) && spec_workspace_event_code(e) == code),
            code > 5 ==> r is None,
    {
        match code {
            0 => Some(WorkspaceEvent::UpgradeScheduled),
            1 => Some(WorkspaceEvent::IndexingUpdate),
            2 => Some(WorkspaceEvent::SecurityChange),
            3 => Some(WorkspaceEvent::MaintenanceNotification),
            4 => Some(WorkspaceEvent::BulkUpdate),
            5 => Some(WorkspaceEvent::LastTx),
            _ => None,
        }
    }
}

/// A workspace event transaction.
pub struct TxWorkspaceEvent {
    pub tx: Tx,
    pub domain: WorkspaceEvent,
    pub event: JsonVal,
}

/// A domain event transaction.
pub struct TxDomainEvent {
    pub tx: Tx,
    pub domain: String,
    pub event: JsonVal,
}

/// A space: a named collection of documents with members.
pub struct Space {
    pub doc: Doc,
    pub name: String,
    pub private: bool,
    pub members: Vec<String>,
    pub archived: bool,
    pub owners: Option<Vec<String>>,
    pub auto_join: Option<bool>,
}

impl Class for Space {
    fn class_name() -> &'static str {
        "core:class:Space"
    }
}

impl HasId for Space {
    fn id(&self) -> &str {
        self.doc.id.as_str()
    }
}

/// A person's name and optional account.
pub struct BasePerson {
    pub name: String,
    pub person_uuid: Option<String>,
}

/// Where a social identity comes from.
#[derive(Clone, Copy, Debug, PartialEq, Eq, Structural)]
pub enum SocialIdType {
    Email,
    GitHub,
    Google,
    Phone,
    OIDC,
    Huly,
    Telegram,
}

/// One social identity of a person.
pub struct SocialId {
    pub id: String,
    pub id_type: SocialIdType,
    pub value: String,
    pub key: String,
    pub display_value: Option<String>,
    pub created_on: Option<i64>,
    pub verified_on: Option<i64>,
}

/// A member's role in a workspace.
#[derive(Clone, Copy, Debug, PartialEq, Eq, Structural)]
pub enum AccountRole {
    DocGuest,
    GUEST,
    USER,
    MAINTAINER,
    OWNER,
}

/// The authenticated account summary of a HELLO response.
pub struct Account {
    pub uuid: String,
    pub role: AccountRole,
    pub primary_social_id: String,
    pub social_ids: Vec<String>,
    pub full_social_ids: Vec<SocialId>,
}

/// A request to ensure a person exists for one social identity.
pub struct EnsurePersonRequest {
    pub social_type: SocialIdType,
    pub social_value: String,
    pub first_name: String,
    pub last_name: Option<String>,
}

/// The person an ensure-person call resolved to.
pub struct EnsurePersonResponse {
    pub uuid: String,
    pub social_id: String,
}

} // verus!
