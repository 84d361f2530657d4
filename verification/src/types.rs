//! Identifiers and plain records shared by every component.

use vstd::prelude::*;

verus! {

/// Identity that the hub assigns to a content.
pub type ContentId = i32;

/// Revision number of a content on the hub.
pub type RevisionId = i32;

/// Path relative to the workspace root, with `/` between components.
pub type RelativeFilePath = String;

/// The two kinds of content.
#[derive(Clone, Copy, Debug, PartialEq, Eq, Structural)]
pub enum ContentType {
    File,
    Folder,
}

impl ContentType {
    /// Whether this is a folder.
    pub fn is_folder(&self) -> (b: bool)
        ensures
            b == (*self == ContentType::Folder),
    {
        match self {
            ContentType::Folder => true,
            ContentType::File => false,
        }
    }
}

/// A content as the hub describes it. Without a parent it sits directly
/// under the workspace root.
#[derive(Debug)]
pub struct RemoteContent {
    pub content_id: ContentId,
    pub parent_id: Option<ContentId>,
    pub filename: String,
    pub content_type: ContentType,
    pub current_revision_id: RevisionId,
}

/// Where a content is moved to on the hub.
#[derive(Clone, Copy, Debug, PartialEq, Eq, Structural)]
pub enum ParentIdParameter {
    Root,
    Under(ContentId),
}

} // verus!
