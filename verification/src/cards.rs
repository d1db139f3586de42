//! Card, collaborator and interface data shapes, and the collaborator
//! service's document-identifier encoding.

use vstd::prelude::*;
use vstd::string::StringExecFns;

use crate::types::{Doc, Obj};
use crate::json::str_eq;

verus! {

/// An icon: a color or codepoint, a list of codepoints, or a blob.
pub enum Icon {
    ColorOrCodepoint(u32),
    Codepoints(Vec<u32>),
    BlobRef(String),
}

/// The size an icon is drawn at.
#[derive(Clone, Copy, Debug, PartialEq, Eq, Structural)]
pub enum IconSize {
    Inline,
    Tiny,
    Card,
    XxSmall,
    XSmall,
    Smaller,
    Small,
    Medium,
    Large,
    XLarge,
    DoubleXLarge,
    Full,
}

/// How an icon is drawn.
pub struct IconProps {
    pub icon: Option<Icon>,
    pub size: Option<IconSize>,
    pub fill: Option<String>,
    pub filled: Option<bool>,
}

/// The presentation fields of a labelled object.
pub struct UXObject {
    pub obj: Obj,
    pub label: String,
    pub icon: Option<String>,
    pub hidden: Option<bool>,
    pub read_only: Option<bool>,
}

/// A parent card's identifier, class and title.
pub struct ParentInfo {
    pub parent_id: String,
    pub parent_class: String,
    pub title: String,
}

/// The space cards live in.
pub struct CardSpace;

/// A user preference attached to one object.
pub struct Preference {
    pub doc: Doc,
    pub attached_to: String,
}

/// A request for collaborative-document content.
pub struct GetContentRequest {
    pub source: Option<String>,
}

/// The content of a collaborative document, by attribute.
pub struct GetContentResponse {
    pub content: Vec<(String, String)>,
}

/// One collaboratively edited attribute of a document.
pub struct CollaborativeDoc {
    pub object_id: String,
    pub object_class: String,
    pub object_attr: String,
}

/// The collaborator service's identifier of one document attribute: the
/// workspace, the object's identifier and class, and the attribute, joined
/// by dots.
pub open spec fn spec_document_id(
    workspace: Seq<char>,
    doc: CollaborativeDoc,
) -> Seq<char> {
    workspace + "."@ + doc.object_id@ + "."@ + doc.object_class@ + "."@ + doc.object_attr@
}

/// Encodes the collaborator service's document identifier.
pub fn encode_document_id(workspace: &str, doc: &CollaborativeDoc) -> (r: String)
    ensures
        r@ == spec_document_id(workspace@, *doc),
{
    let mut s = workspace.to_owned();
    s.append(".");
    s.append(doc.object_id.as_str());
    s.append(".");
    s.append(doc.object_class.as_str());
    s.append(".");
    s.append(doc.object_attr.as_str());
    s
}

/// The requested attribute's content in a content response; empty when the
/// attribute is missing.
pub fn content_for_attr(response: &GetContentResponse, attr: &str) -> (r: String)
    ensures
        ({
            let pairs = crate::rpc::str_pairs_views(response.content@);
            match crate::rpc::spec_first_match(pairs, attr@) {
                Some(c) => r@ == c,
                None => r@ == Seq::<char>::empty(),
            }
        }),
{
    broadcast use crate::rpc::group_str_pairs_views;

    let ghost pairs = crate::rpc::str_pairs_views(response.content@);
    let n = response.content.len();
    for i in 0..n
        invariant
            n == response.content.len(),
            pairs == crate::rpc::str_pairs_views(response.content@),
            pairs.len() == n,
            forall|j: int|
                0 <= j < n ==> pairs[j] == (response.content@[j].0@, response.content@[j].1@),
            forall|j: int| 0 <= j < i ==> #[trigger] pairs[j].0 != attr@,
    {
        if str_eq(response.content[i].0.as_str(), attr) {
            proof {
                crate::rpc::lemma_first_match_skip(pairs, attr@, i as int);
                assert(pairs.skip(i as int)[0] == pairs[i as int]);
            }
            return response.content[i].1.clone();
        }
    }
    proof {
        crate::rpc::lemma_first_match_skip(pairs, attr@, n as int);
    }
    String::new()
}

} // verus!
