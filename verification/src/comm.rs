//! Communication events sent through the transactor as domain events: the
//! request-type registry and the domain-event envelope.

use vstd::prelude::*;

use crate::json::{JsonVal, JsonView, group_json_views, obj_views};
use crate::document::{push_doc_header, spec_doc_header};

verus! {

/// A message-related operation of the communication domain.
#[derive(Clone, Copy, Debug, PartialEq, Eq, Structural)]
pub enum MessageRequestType {
    CreateMessage,
    UpdatePatch,
    RemovePatch,
    ReactionPatch,
    BlobPatch,
    LinkPreviewPatch,
    ThreadPatch,
    CreateLabel,
    RemoveLabel,
    AddCollaborators,
    RemoveCollaborators,
    UpdateNotification,
    CreateNotification,
    RemoveNotifications,
    CreateNotificationContext,
    RemoveNotificationContext,
    UpdateNotificationContext,
}

/// The wire spelling of each request type.
pub open spec fn spec_request_type_text(t: MessageRequestType) -> Seq<char> {
    match t {
        MessageRequestType::CreateMessage => "createMessage"@,
        MessageRequestType::UpdatePatch => "updatePatch"@,
        MessageRequestType::RemovePatch => "removePatch"@,
        MessageRequestType::ReactionPatch => "reactionPatch"@,
        MessageRequestType::BlobPatch => "blobPatch"@,
        MessageRequestType::LinkPreviewPatch => "linkPreviewPatch"@,
        MessageRequestType::ThreadPatch => "threadPatch"@,
        MessageRequestType::CreateLabel => "createLabel"@,
        MessageRequestType::RemoveLabel => "removeLabel"@,
        MessageRequestType::AddCollaborators => "addCollaborators"@,
        MessageRequestType::RemoveCollaborators => "removeCollaborators"@,
        MessageRequestType::UpdateNotification => "updateNotification"@,
        MessageRequestType::CreateNotification => "createNotification"@,
        MessageRequestType::RemoveNotifications => "removeNotifications"@,
        MessageRequestType::CreateNotificationContext => "createNotificationContext"@,
        MessageRequestType::RemoveNotificationContext => "removeNotificationContext"@,
        MessageRequestType::UpdateNotificationContext => "updateNotificationContext"@,
    }
}

impl MessageRequestType {
    /// The wire spelling of this request type.
    pub fn text(self) -> (r: &'static str)
        ensures
            r@ == spec_request_type_text(self),
    {
        match self {
            MessageRequestType::CreateMessage => "createMessage",
            MessageRequestType::UpdatePatch => "updatePatch",
            MessageRequestType::RemovePatch => "removePatch",
            MessageRequestType::ReactionPatch => "reactionPatch",
            MessageRequestType::BlobPatch => "blobPatch",
            MessageRequestType::LinkPreviewPatch => "linkPreviewPatch",
            MessageRequestType::ThreadPatch => "threadPatch",
            MessageRequestType::CreateLabel => "createLabel",
            MessageRequestType::RemoveLabel => "removeLabel",
            MessageRequestType::AddCollaborators => "addCollaborators",
            MessageRequestType::RemoveCollaborators => "removeCollaborators",
            MessageRequestType::UpdateNotification => "updateNotification",
            MessageRequestType::CreateNotification => "createNotification",
            MessageRequestType::RemoveNotifications => "removeNotifications",
            MessageRequestType::CreateNotificationContext => "createNotificationContext",
            MessageRequestType::RemoveNotificationContext => "removeNotificationContext",
            MessageRequestType::UpdateNotificationContext => "updateNotificationContext",
        }
    }
}

/// Relies on `ksuid::Ksuid::generate` and `to_hex`: a fresh identifier;
/// nothing is promised of its value.
#[verifier::external_body]
pub fn generate_ksuid_hex() -> String {
    ksuid::Ksuid::generate().to_hex()
}

/// An envelope pairing one communication request with its type tag.
pub struct Envelope {
    pub request_type: MessageRequestType,
    pub request: JsonVal,
}

impl Envelope {
    /// An envelope around one request body.
    pub fn new(request_type: MessageRequestType, request: JsonVal) -> (r: Envelope)
        ensures
            r.request_type == request_type,
            r.request == request,
    {
        Envelope { request_type, request }
    }

    /// The event payload: the type tag, then the request's own fields.
    pub fn event_json(&self) -> (r: JsonVal)
        requires
            self.request@ is Obj,
        ensures
            r@ == JsonView::Obj(
                seq![("type"@, JsonView::Str(spec_request_type_text(self.request_type)))]
                    + self.request@->Obj_0,
            ),
    {
        broadcast use group_json_views;

        let mut fields: Vec<(String, JsonVal)> = Vec::new();
        fields.push(("type".to_owned(), crate::json::val_str(self.request_type.text())));
        let ghost head = obj_views(fields@);
        proof {
            assert(head =~= seq![
                ("type"@, JsonView::Str(spec_request_type_text(self.request_type))),
            ]);
        }
        let body_fields = match &self.request {
            JsonVal::Obj(f) => f,
            _ => {
                return JsonVal::Null;
            },
        };
        proof {
            assert(self.request@ is Obj);
        }
        let n = body_fields.len();
        for i in 0..n
            invariant
                n == body_fields.len(),
                fields@.len() == 1 + i,
                obj_views(fields@) == head + obj_views(body_fields@).take(i as int),
        {
            let ghost pre = fields@;
            let k = body_fields[i].0.clone();
            let v = body_fields[i].1.clone_val();
            fields.push((k, v));
            proof {
                crate::json::lemma_obj_views_len(fields@);
                crate::json::lemma_obj_views_len(pre);
                crate::json::lemma_obj_views_len(body_fields@);
                crate::json::lemma_obj_views_index(body_fields@, i as int);
                assert forall|j: int|
                    0 <= j < fields@.len() implies obj_views(fields@)[j] == (head + obj_views(
                    body_fields@,
                ).take(i + 1))[j] by {
                    crate::json::lemma_obj_views_index(fields@, j);
                    if j < pre.len() {
                        crate::json::lemma_obj_views_index(pre, j);
                    }
                }
                assert(obj_views(fields@) =~= head + obj_views(body_fields@).take(i + 1));
            }
        }
        proof {
            crate::json::lemma_obj_views_len(body_fields@);
            assert(obj_views(body_fields@).take(n as int) =~= obj_views(body_fields@));
        }
        let r = JsonVal::Obj(fields);
        proof {
            assert(r@ is Obj);
        }
        r
    }

    /// The wire form of this envelope: a domain event in the communication
    /// domain, under the envelope identifier `tx_id`.
    pub fn to_json(&self, tx_id: &str) -> (r: JsonVal)
        requires
            self.request@ is Obj,
        ensures
            r@ == JsonView::Obj(
                spec_doc_header(
                    "core:class:TxDomainEvent"@,
                    tx_id@,
                    None,
                    None,
                    None,
                    None,
                ) + seq![
                    ("objectSpace"@, JsonView::Str("core:space:Domain"@)),
                    ("domain"@, JsonView::Str("communication"@)),
                    (
                        "event"@,
                        JsonView::Obj(
                            seq![
                                (
                                    "type"@,
                                    JsonView::Str(spec_request_type_text(self.request_type)),
                                ),
                            ] + self.request@->Obj_0,
                        ),
                    ),
                ],
            ),
    {
        broadcast use group_json_views;

        let mut fields: Vec<(String, JsonVal)> = Vec::new();
        push_doc_header(
            &mut fields,
            "core:class:TxDomainEvent",
            tx_id,
            &None,
            &None,
            &None,
            &None,
        );
        let ghost head = obj_views(fields@);
        fields.push(("objectSpace".to_owned(), JsonVal::Str("core:space:Domain".to_owned())));
        proof {
            assert(obj_views(fields@) =~= head + seq![
                ("objectSpace"@, JsonView::Str("core:space:Domain"@)),
            ]);
        }
        fields.push(("domain".to_owned(), JsonVal::Str("communication".to_owned())));
        proof {
            assert(obj_views(fields@) =~= head + seq![
                ("objectSpace"@, JsonView::Str("core:space:Domain"@)),
            ] + seq![("domain"@, JsonView::Str("communication"@))]);
        }
        let ev = self.event_json();
        fields.push(("event".to_owned(), ev));
        proof {
            assert(obj_views(fields@) =~= head + seq![
                ("objectSpace"@, JsonView::Str("core:space:Domain"@)),
            ] + seq![("domain"@, JsonView::Str("communication"@))] + seq![
                (
                    "event"@,
                    JsonView::Obj(
                        seq![
                            ("type"@, JsonView::Str(spec_request_type_text(self.request_type))),
                        ] + self.request@->Obj_0,
                    ),
                ),
            ]);
        }
        let r = JsonVal::Obj(fields);
        proof {
            assert(r@ is Obj);
            assert(r@->Obj_0 =~= spec_doc_header(
                "core:class:TxDomainEvent"@,
                tx_id@,
                None,
                None,
                None,
                None,
            ) + seq![
                ("objectSpace"@, JsonView::Str("core:space:Domain"@)),
                ("domain"@, JsonView::Str("communication"@)),
                (
                    "event"@,
                    JsonView::Obj(
                        seq![
                            ("type"@, JsonView::Str(spec_request_type_text(self.request_type))),
                        ] + self.request@->Obj_0,
                    ),
                ),
            ]);
        }
        r
    }
}

/// A provider of the partition key a sink shards this event by.
pub trait PartitionKeyProvider {
    fn partition_key(&self) -> &str;
}

/// How a created message is typed.
#[derive(Clone, Copy, Debug, PartialEq, Eq, Structural)]
pub enum MessageType {
    Message,
    Activity,
}

/// Options of a message-creating event.
pub struct CreateMessageOptions {
    pub skip_link_previews: bool,
    pub no_notify: bool,
}

/// Options of a patch-updating event.
pub struct UpdatePatchOptions {
    pub skip_link_previews_update: bool,
}

/// One reaction change.
pub enum ReactionPatchOperation {
    Add { reaction: String },
    Remove { reaction: String },
}

} // verus!
