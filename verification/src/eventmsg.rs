//! Message events of the event service: the request-type registry, the
//! event shapes, and their builders.

use vstd::prelude::*;

use crate::json::JsonVal;

verus! {

/// A message-related operation of the event service.
#[derive(Clone, Copy, Debug, PartialEq, Eq, Structural)]
pub enum MessageRequestType {
    CreateMessage,
    RemoveMessages,
    CreatePatch,
    CreateReaction,
    RemoveReaction,
    CreateFile,
    RemoveFile,
    CreateThread,
    UpdateThread,
    CreateMessagesGroup,
    RemoveMessagesGroup,
    CreateLabel,
    RemoveLabel,
    AddCollaborators,
    RemoveCollaborators,
    CreateNotification,
    RemoveNotifications,
    CreateNotificationContext,
    RemoveNotificationContext,
    UpdateNotificationContext,
}

/// A provider of the partition key a sink shards this event by.
pub trait PartitionKeyProvider {
    fn partition_key(&self) -> &str;
}

/// How a created message is typed.
#[derive(Clone, Copy, Debug, PartialEq, Eq, Structural)]
pub enum MessageType {
    Message,
    Activity,
}

/// How a thread's reply count changes.
#[derive(Clone, Copy, Debug, PartialEq, Eq, Structural)]
pub enum RepliesUpdate {
    Increment,
    Decrement,
}

/// What kind of patch was applied to a message.
#[derive(Clone, Copy, Debug, PartialEq, Eq, Structural)]
pub enum PatchType {
    Update,
}

/// One patch of an archived message.
pub struct Patch {
    pub message: String,
    pub patch_type: PatchType,
    pub content: String,
    pub creator: String,
    pub created: i64,
}

/// An archived group of messages.
pub struct MessagesGroup {
    pub card: String,
    pub blob_id: String,
    pub from_sec: i64,
    pub to_sec: i64,
    pub count: u32,
    pub patches: Option<Vec<Patch>>,
}

/// Removes messages from a card.
pub struct RemoveMessagesEvent {
    pub card: String,
    pub messages: Vec<String>,
}

impl PartitionKeyProvider for RemoveMessagesEvent {
    fn partition_key(&self) -> &str {
        self.card.as_str()
    }
}

/// The data of a patch: new content, new payload, or both.
pub struct PatchData {
    pub content: Option<String>,
    pub data: Option<JsonVal>,
}

/// Patches one message.
pub struct CreatePatchEvent {
    pub patch_type: PatchType,
    pub card: String,
    pub message: String,
    pub message_created: i64,
    pub data: PatchData,
    pub creator: String,
}

impl PartitionKeyProvider for CreatePatchEvent {
    fn partition_key(&self) -> &str {
        self.card.as_str()
    }
}

/// A builder of patch events.
pub struct CreatePatchEventBuilder {
    pub patch_type: PatchType,
    pub card: Option<String>,
    pub message: Option<String>,
    pub message_created: Option<i64>,
    pub data: Option<PatchData>,
    pub creator: Option<String>,
}

impl CreatePatchEventBuilder {
    /// A builder with nothing set; the patch type defaults to an update.
    pub fn new() -> (r: CreatePatchEventBuilder)
        ensures
            r.patch_type == PatchType::Update,
            r.card is None,
            r.message is None,
            r.message_created is None,
            r.data is None,
            r.creator is None,
    {
        CreatePatchEventBuilder {
            patch_type: PatchType::Update,
            card: None,
            message: None,
            message_created: None,
            data: None,
            creator: None,
        }
    }

    /// Sets the patch's new content, keeping any payload already set.
    pub fn content(self, content: String) -> (r: Self)
        ensures
            r.data matches Some(d) && d.content matches Some(c) && c@ == content@,
            (match (r.data, self.data) {
                (Some(d), Some(d0)) => d.data == d0.data,
                (Some(d), None) => d.data is None,
                _ => false,
            }),
            r.card == self.card,
            r.message == self.message,
            r.message_created == self.message_created,
            r.creator == self.creator,
            r.patch_type == self.patch_type,
    {
        let data = match self.data {
            Some(d) => PatchData { content: Some(content), data: d.data },
            None => PatchData { content: Some(content), data: None },
        };
        CreatePatchEventBuilder { data: Some(data), ..self }
    }

    /// Sets the patch's new payload, keeping any content already set.
    pub fn data(self, data: JsonVal) -> (r: Self)
        ensures
            r.data matches Some(d) && d.data matches Some(x) && x@ == data@,
            (match (r.data, self.data) {
                (Some(d), Some(d0)) => d.content == d0.content,
                (Some(d), None) => d.content is None,
                _ => false,
            }),
            r.card == self.card,
            r.message == self.message,
            r.message_created == self.message_created,
            r.creator == self.creator,
            r.patch_type == self.patch_type,
    {
        let pd = match self.data {
            Some(d) => PatchData { content: d.content, data: Some(data) },
            None => PatchData { content: None, data: Some(data) },
        };
        CreatePatchEventBuilder { data: Some(pd), ..self }
    }
}

/// Adds a reaction to a message.
pub struct CreateReactionEvent {
    pub card: String,
    pub message: String,
    pub reaction: String,
    pub creator: String,
}

impl PartitionKeyProvider for CreateReactionEvent {
    fn partition_key(&self) -> &str {
        self.card.as_str()
    }
}

/// Removes a reaction from a message.
pub struct RemoveReactionEvent {
    pub card: String,
    pub message: String,
    pub reaction: String,
    pub creator: String,
}

impl PartitionKeyProvider for RemoveReactionEvent {
    fn partition_key(&self) -> &str {
        self.card.as_str()
    }
}

/// A file attached to a message.
pub struct FileData {
    pub blob_id: String,
    pub mime_type: String,
    pub filename: String,
    pub size: u32,
    pub meta: Option<Vec<(String, String)>>,
}

/// Attaches a file to a message.
pub struct CreateFileEvent {
    pub card: String,
    pub message: String,
    pub message_created: i64,
    pub creator: String,
    pub data: FileData,
}

impl PartitionKeyProvider for CreateFileEvent {
    fn partition_key(&self) -> &str {
        self.card.as_str()
    }
}

/// Detaches a file from a message.
pub struct RemoveFileEvent {
    pub card: String,
    pub message: String,
    pub blob_id: String,
    pub creator: String,
}

impl PartitionKeyProvider for RemoveFileEvent {
    fn partition_key(&self) -> &str {
        self.card.as_str()
    }
}

/// Opens a thread under a message.
pub struct CreateThreadEvent {
    pub card: String,
    pub message: String,
    pub thread: String,
}

impl PartitionKeyProvider for CreateThreadEvent {
    fn partition_key(&self) -> &str {
        self.card.as_str()
    }
}

/// Changes a thread's reply count.
pub struct UpdateThreadEvent {
    pub thread: String,
    pub replies: RepliesUpdate,
    pub last_reply: Option<i64>,
}

impl PartitionKeyProvider for UpdateThreadEvent {
    fn partition_key(&self) -> &str {
        self.thread.as_str()
    }
}

/// Archives a group of messages.
pub struct CreateMessagesGroupEvent {
    pub group: MessagesGroup,
}

/// Removes an archived group of messages.
pub struct RemoveMessagesGroupEvent {
    pub card: String,
    pub blob_id: String,
}

impl PartitionKeyProvider for RemoveMessagesGroupEvent {
    fn partition_key(&self) -> &str {
        self.card.as_str()
    }
}

/// Creates one message on a card.
pub struct CreateMessageEvent {
    pub id: Option<String>,
    pub message_type: MessageType,
    pub card: String,
    pub card_type: Option<String>,
    pub content: String,
    pub creator: String,
    pub data: Option<JsonVal>,
    pub external_id: Option<String>,
    pub created: Option<i64>,
}

impl PartitionKeyProvider for CreateMessageEvent {
    fn partition_key(&self) -> &str {
        self.card.as_str()
    }
}

} // verus!
