//! The reconciliation handler: what each message changes in the index and
//! which echoes it predicts. The handler owns the index and the list of
//! expected echoes; requests to the hub and work on the disk are made by
//! the caller between the steps, who hands their outcome to the next one.

use vstd::prelude::*;
use vstd::string::*;
use crate::error::client_error_text;
use crate::error::is_client_failure;
use crate::error::ClientError;
use crate::error::Error;
use crate::index::can_insert;
use crate::index::can_move;
use crate::index::id_row;
use crate::index::is_index;
use crate::index::knows_id;
use crate::index::knows_path;
use crate::index::moved;
use crate::index::path_row;
use crate::index::revised;
use crate::index::touched;
use crate::index::without;
use crate::index::Entry;
use crate::index::LocalIndex;
use crate::operation::IgnoreList;
use crate::operation::Message;
use crate::operation::OperationalMessage;
use crate::path::child_of;
use crate::path::file_name_of;
use crate::path::is_filtered_name;
use crate::path::is_name;
use crate::path::is_relative;
use crate::path::parent_of;
use crate::types::ContentId;
use crate::types::ContentType;
use crate::types::ParentIdParameter;
use crate::types::RemoteContent;
use crate::types::RevisionId;

verus! {

/// How many parents a remote content may have above it before the handler
/// gives up on a chain of parents that may never end.
pub const MAX_PARENT_DEPTH: usize = 64;

/// What the handler holds: the rows of the index and the echoes that it
/// expects, in the order of their prediction.
pub struct State {
    pub rows: Seq<Entry>,
    pub expected: Seq<Message>,
}

/// What to do with a message that has just arrived.
#[derive(Clone, Copy, Debug, PartialEq, Eq, Structural)]
pub enum Step {
    /// An expected echo, or a name that is never synchronised: drop it.
    Skip,
    /// The request to stop: end the loop.
    Stop,
    /// A change to reconcile.
    Handle,
}

/// How a new local file is to be reconciled.
#[derive(Debug)]
pub enum NewLocalPlan {
    /// The path is indexed already: treat the message as a modification.
    Modified,
    /// The directory that holds the file is not indexed: reconcile that
    /// directory as a new local file first, then plan again.
    ParentFirst(String),
    /// Create the content on the hub, below this parent, or at the root.
    Create(Option<ContentId>),
}

/// Where a renamed content has to go on the hub.
#[derive(Debug)]
pub enum Destination {
    /// It stays in its directory.
    Stay,
    /// Move it to the parent that the index has for its new directory, or
    /// to the root.
    Move(ParentIdParameter),
    /// Its new directory is not indexed: reconcile that directory as a new
    /// local file first, then move the content below it.
    CreateThenMove(String),
}

/// The requests that a local rename asks of the hub, in this order: the
/// move, then the new name.
#[derive(Debug)]
pub struct RenamePlan {
    pub content_id: ContentId,
    pub destination: Destination,
    /// The new base name, where it differs from the old one.
    pub new_name: Option<String>,
}

/// What a remote modification asks of the disk.
#[derive(Debug)]
pub enum RemoteChange {
    /// Rename the directory `from` to `to`; nothing else changed.
    RenameFolder { from: String, to: String },
    /// Rename the file `from` to `to`, then download its bytes to `to`.
    RenameFile { from: String, to: String },
    /// Download the bytes of the file to `to`.
    Overwrite { to: String },
}

/// Whether the handler drops a message for the name of its path alone.
pub open spec fn is_filtered_message(message: Message) -> bool {
    match message {
        Message::NewLocalFile(path) => is_filtered_name(file_name_of(path)),
        Message::ModifiedLocalFile(path) => is_filtered_name(file_name_of(path)),
        Message::DeletedLocalFile(path) => is_filtered_name(file_name_of(path)),
        _ => false,
    }
}

/// What to do with `message` in `state`.
pub open spec fn step_for(state: State, message: Message) -> Step {
    if state.expected.contains(message) || is_filtered_message(message) {
        Step::Skip
    } else if message is Exit {
        Step::Stop
    } else {
        Step::Handle
    }
}

/// The state after `message` arrived: one expectation of it is used up.
pub open spec fn received(state: State, message: Message) -> State {
    State { expected: state.expected.remove_value(message), ..state }
}

/// The state with one more expected echo.
pub open spec fn expecting(state: State, message: Message) -> State {
    State { expected: state.expected.push(message), ..state }
}

/// The echoes that the hub sends for a content that the handler created:
/// its creation, and for a file the modification that follows the upload.
pub open spec fn creation_echoes(content_id: ContentId, content_type: ContentType) -> Seq<Message> {
    if content_type == ContentType::File {
        seq![Message::NewRemoteFile(content_id), Message::ModifiedRemoteFile(content_id)]
    } else {
        seq![Message::NewRemoteFile(content_id)]
    }
}

/// The state after the hub created a content for a local file.
pub open spec fn created_on_hub(state: State, row: Entry, content_type: ContentType) -> State {
    State {
        rows: state.rows.push(row),
        expected: state.expected + creation_echoes(row.content_id, content_type),
    }
}

/// The state after a local modification was uploaded.
pub open spec fn uploaded(
    state: State,
    path: Seq<char>,
    last_modified_ms: u64,
    revision_id: RevisionId,
) -> State {
    State { rows: revised(touched(state.rows, path, last_modified_ms), path, revision_id), ..state }
}

/// The state after the hub trashed a content that was deleted locally.
pub open spec fn trashed(state: State, content_id: ContentId) -> State {
    State {
        rows: without(state.rows, content_id),
        expected: state.expected.push(Message::DeletedRemoteFile(content_id)),
    }
}

/// The parent that the hub gives and the index does not have.
pub open spec fn missing_parent(rows: Seq<Entry>, parent_id: Option<ContentId>) -> Option<
    ContentId,
> {
    match parent_id {
        Some(id) => if knows_id(rows, id) {
            None
        } else {
            Some(id)
        },
        None => None,
    }
}

/// How the index answers to the binding `row`: it takes the row where
/// neither its path nor its content is bound, and refuses it otherwise.
pub open spec fn bound(
    before: Seq<Entry>,
    row: Entry,
    after: Seq<Entry>,
    done: Result<(), Error>,
) -> bool {
    if can_insert(before, row.path, row.content_id) {
        done.is_ok() && after == before.push(row)
    } else {
        after == before && (match done {
            Err(Error::UnexpectedError(text)) => text@ == "path or content is indexed already"@,
            _ => false,
        })
    }
}

/// An index and a list of expected echoes.
pub struct OperationalHandler {
    index: LocalIndex,
    ignore_messages: IgnoreList,
}

impl View for OperationalHandler {
    type V = State;

    closed spec fn view(&self) -> State {
        State { rows: self.index@, expected: self.ignore_messages@ }
    }
}

impl OperationalHandler {
    /// Paths and contents are bound one to one in the handler's index.
    pub open spec fn wf(&self) -> bool {
        is_index(self@.rows)
    }

    /// A handler that starts from `index` and expects no echo.
    pub fn new(index: LocalIndex) -> (handler: OperationalHandler)
        requires
            index.wf(),
        ensures
            handler.wf(),
            handler@.rows == index@,
            handler@.expected == Seq::<Message>::empty(),
    {
        OperationalHandler { index, ignore_messages: IgnoreList::new() }
    }

    /// The index, to read.
    pub fn index(&self) -> (index: &LocalIndex)
        ensures
            index@ == self@.rows,
    {
        &self.index
    }

    /// The expected echoes, to read.
    pub fn ignore_messages(&self) -> (list: &IgnoreList)
        ensures
            list@ == self@.expected,
    {
        &self.ignore_messages
    }

    /// Whether `message` is to be dropped: as an expected echo, of which
    /// one expectation is then used up, or for the name of its path.
    pub fn ignore_message(&mut self, message: &OperationalMessage) -> (ignored: bool)
        ensures
            final(self)@ == received(old(self)@, message@),
            ignored == (step_for(old(self)@, message@) == Step::Skip),
    {
        if self.ignore_messages.consume(message) {
            return true;
        }
        match message {
            OperationalMessage::NewLocalFile(path) => crate::path::is_filtered(path.as_str()),
            OperationalMessage::ModifiedLocalFile(path) => crate::path::is_filtered(path.as_str()),
            OperationalMessage::DeletedLocalFile(path) => crate::path::is_filtered(path.as_str()),
            _ => false,
        }
    }

    /// Takes a message off the queue: says what to do with it, and uses
    /// up one expectation of it.
    pub fn receive(&mut self, message: &OperationalMessage) -> (step: Step)
        ensures
            final(self)@ == received(old(self)@, message@),
            step == step_for(old(self)@, message@),
    {
        if self.ignore_message(message) {
            Step::Skip
        } else {
            match message {
                OperationalMessage::Exit => Step::Stop,
                _ => Step::Handle,
            }
        }
    }
}

/// Whether what the hub says of a modified content keeps it in the
/// workspace: a folder is renamed where it is, so its new name must be
/// one name; a file is written at the path that the hub has for it, so
/// that path must be relative.
pub open spec fn lands_in_workspace(remote: RemoteContent, target: Seq<char>) -> bool {
    if remote.content_type == ContentType::Folder {
        is_name(remote.filename@)
    } else {
        is_relative(target)
    }
}

fn outside_workspace() -> (failure: Error)
    ensures
        match failure {
            Error::PathManipulationError(text) => text@ == "path is not below the workspace"@,
            _ => false,
        },
{
    Error::PathManipulationError("path is not below the workspace".to_owned())
}

fn same_directory(a: &Option<String>, b: &Option<String>) -> (same: bool)
    ensures
        same == (match (*a, *b) {
            (Some(x), Some(y)) => x@ == y@,
            (None, None) => true,
            _ => false,
        }),
{
    match a {
        Some(x) => match b {
            Some(y) => *x == *y,
            None => false,
        },
        None => match b {
            Some(_) => false,
            None => true,
        },
    }
}

impl OperationalHandler {
    /// What a modification of the content on the hub asks of the disk.
    /// `target` is the path that the hub has for the content now. A
    /// content that is not indexed is a failure, and so is a name or a
    /// path from the hub that would lead out of the workspace.
    pub fn plan_modified_remote_file(&self, remote: &RemoteContent, target: &String) -> (plan:
        Result<RemoteChange, Error>)
        requires
            self.wf(),
        ensures
            match plan {
                Ok(change) => {
                    let current = self@.rows[id_row(self@.rows, remote.content_id)].path;
                    &&& knows_id(self@.rows, remote.content_id)
                    &&& lands_in_workspace(*remote, target@)
                    &&& match change {
                        RemoteChange::RenameFolder { from, to } => {
                            &&& remote.content_type == ContentType::Folder
                            &&& from@ == current
                            &&& to@ == child_of(parent_of(current), remote.filename@)
                            &&& parent_of(to@) == parent_of(current)
                            &&& file_name_of(to@) == remote.filename@
                            &&& remote.filename@ == file_name_of(current) ==> to@ == current
                        },
                        RemoteChange::RenameFile { from, to } => remote.content_type
                            == ContentType::File && file_name_of(current) != remote.filename@
                            && from@ == current && to@ == target@,
                        RemoteChange::Overwrite { to } => remote.content_type == ContentType::File
                            && file_name_of(current) == remote.filename@ && to@ == target@,
                    }
                },
                Err(Error::UnexpectedError(text)) => !knows_id(self@.rows, remote.content_id)
                    && text@ == "content is not indexed"@,
                Err(Error::PathManipulationError(text)) => knows_id(
                    self@.rows,
                    remote.content_id,
                ) && !lands_in_workspace(*remote, target@) && text@
                    == "path is not below the workspace"@,
                Err(_) => false,
            },
    {
        let current: String = match self.index.get_path_from_content_id(remote.content_id) {
            Ok(path) => path,
            Err(error) => {
                return Err(error);
            },
        };
        if remote.content_type.is_folder() {
            if !crate::path::is_file_name(remote.filename.as_str()) {
                return Err(outside_workspace());
            }
            let directory: Option<String> = crate::path::parent(current.as_str());
            let to: String = crate::path::join(&directory, remote.filename.as_str());
            proof {
                crate::path::lemma_last_separator(remote.filename@);
                crate::path::lemma_join_split(parent_of(current@), remote.filename@);
                crate::path::lemma_split_join(current@);
            }
            Ok(RemoteChange::RenameFolder { from: current, to })
        } else {
            if !crate::path::is_relative_path(target.as_str()) {
                return Err(outside_workspace());
            }
            let name: String = crate::path::file_name(current.as_str());
            if name == remote.filename {
                Ok(RemoteChange::Overwrite { to: target.clone() })
            } else {
                Ok(RemoteChange::RenameFile { from: current, to: target.clone() })
            }
        }
    }

    /// Records that the disk object of the content was renamed to `to`, as
    /// the hub asked: the index follows, and the local modification that
    /// the rename will be observed as is expected. Refused, with nothing
    /// changed, where the index cannot follow.
    pub fn renamed_remote_file(&mut self, content_id: ContentId, to: String) -> (done: Result<
        (),
        Error,
    >)
        requires
            old(self).wf(),
        ensures
            final(self).wf(),
            match done {
                Ok(_) => can_move(old(self)@.rows, content_id, to@) && final(self)@ == (State {
                    rows: moved(old(self)@.rows, content_id, to@),
                    expected: old(self)@.expected.push(Message::ModifiedLocalFile(to@)),
                }),
                Err(Error::UnexpectedError(text)) => !can_move(old(self)@.rows, content_id, to@)
                    && final(self)@ == old(self)@ && text@
                    == "content is not indexed or path is taken"@,
                Err(_) => false,
            },
    {
        let echo = OperationalMessage::ModifiedLocalFile(to.clone());
        match self.index.update_relative_path(content_id, to) {
            Ok(_) => {
                self.ignore_messages.push(echo);
                Ok(())
            },
            Err(error) => Err(error),
        }
    }

    /// Expects the local modification that the download of a file to
    /// `target` will be observed as.
    pub fn expect_overwrite(&mut self, target: String)
        ensures
            final(self)@ == expecting(old(self)@, Message::ModifiedLocalFile(target@)),
    {
        self.ignore_messages.push(OperationalMessage::ModifiedLocalFile(target));
    }

    /// Records that the bytes of the content were written to `target`:
    /// the index takes the time of the file on disk and the revision of
    /// the hub. Refused, with nothing changed, where the path is not
    /// indexed.
    pub fn modified_remote_file(
        &mut self,
        target: &String,
        last_modified_ms: u64,
        revision_id: RevisionId,
    ) -> (done: Result<(), Error>)
        requires
            old(self).wf(),
        ensures
            final(self).wf(),
            match done {
                Ok(_) => knows_path(old(self)@.rows, target@) && final(self)@ == uploaded(
                    old(self)@,
                    target@,
                    last_modified_ms,
                    revision_id,
                ),
                Err(Error::UnIndexedRelativePath(path)) => !knows_path(old(self)@.rows, target@)
                    && final(self)@ == old(self)@ && path@ == target@,
                Err(_) => false,
            },
    {
        match self.index.update_last_modified_timestamp(target, last_modified_ms) {
            Ok(_) => {},
            Err(error) => {
                return Err(error);
            },
        }
        proof {
            let i = path_row(old(self)@.rows, target@);
            assert(self@.rows[i].path == target@);
        }
        self.index.update_revision_id(target, revision_id)
    }

    /// Starts the reconciliation of a local rename: finds the content,
    /// expects the modification that the hub will report for it, and says
    /// which requests the hub is owed. A path that is not indexed is
    /// reported as such, with nothing changed.
    pub fn begin_renamed_local_file(&mut self, before: &String, after: &String) -> (plan: Result<
        RenamePlan,
        Error,
    >)
        requires
            old(self).wf(),
        ensures
            final(self).wf(),
            match plan {
                Ok(plan) => {
                    let rows = old(self)@.rows;
                    &&& knows_path(rows, before@)
                    &&& plan.content_id == rows[path_row(rows, before@)].content_id
                    &&& final(self)@ == expecting(
                        old(self)@,
                        Message::ModifiedRemoteFile(plan.content_id),
                    )
                    &&& match plan.destination {
                        Destination::Stay => parent_of(before@) == parent_of(after@),
                        Destination::Move(ParentIdParameter::Root) => parent_of(before@)
                            != parent_of(after@) && parent_of(after@).is_none(),
                        Destination::Move(ParentIdParameter::Under(parent_id)) => {
                            &&& parent_of(before@) != parent_of(after@)
                            &&& parent_of(after@).is_some()
                            &&& knows_path(rows, parent_of(after@).unwrap())
                            &&& parent_id == rows[path_row(
                                rows,
                                parent_of(after@).unwrap(),
                            )].content_id
                        },
                        Destination::CreateThenMove(directory) => {
                            &&& parent_of(before@) != parent_of(after@)
                            &&& parent_of(after@) == Some(directory@)
                            &&& !knows_path(rows, directory@)
                        },
                    }
                    &&& match plan.new_name {
                        Some(name) => file_name_of(before@) != file_name_of(after@) && name@
                            == file_name_of(after@),
                        None => file_name_of(before@) == file_name_of(after@),
                    }
                },
                Err(Error::UnIndexedRelativePath(path)) => !knows_path(old(self)@.rows, before@)
                    && final(self)@ == old(self)@ && path@ == before@,
                Err(_) => false,
            },
    {
        let content_id: ContentId = match self.index.get_content_id_from_path(before) {
            Ok(content_id) => content_id,
            Err(error) => {
                return Err(error);
            },
        };
        self.ignore_messages.push(OperationalMessage::ModifiedRemoteFile(content_id));
        let before_directory: Option<String> = crate::path::parent(before.as_str());
        let after_directory: Option<String> = crate::path::parent(after.as_str());
        let destination: Destination = if same_directory(&before_directory, &after_directory) {
            Destination::Stay
        } else {
            match after_directory {
                None => Destination::Move(ParentIdParameter::Root),
                Some(directory) => match self.index.get_content_id_from_path(&directory) {
                    Ok(parent_id) => Destination::Move(ParentIdParameter::Under(parent_id)),
                    Err(_) => Destination::CreateThenMove(directory),
                },
            }
        };
        let before_name: String = crate::path::file_name(before.as_str());
        let after_name: String = crate::path::file_name(after.as_str());
        let new_name: Option<String> = if before_name == after_name {
            None
        } else {
            Some(after_name)
        };
        Ok(RenamePlan { content_id, destination, new_name })
    }

    /// Ends the reconciliation of a local rename, once the hub has moved
    /// and renamed the content: the index follows to `after`, and takes
    /// the revision that the hub then reported. Where the hub failed to
    /// report it, the index has followed all the same. Refused, with
    /// nothing changed, where the index cannot follow.
    pub fn renamed_local_file(
        &mut self,
        content_id: ContentId,
        after: String,
        refreshed: Result<RevisionId, ClientError>,
    ) -> (done: Result<(), Error>)
        requires
            old(self).wf(),
        ensures
            final(self).wf(),
            final(self)@.expected == old(self)@.expected,
            !can_move(old(self)@.rows, content_id, after@) ==> final(self)@ == old(self)@ && (
            match done {
                Err(Error::UnexpectedError(text)) => text@
                    == "content is not indexed or path is taken"@,
                _ => false,
            }),
            can_move(old(self)@.rows, content_id, after@) ==> (match refreshed {
                Ok(revision_id) => done.is_ok() && final(self)@.rows == revised(
                    moved(old(self)@.rows, content_id, after@),
                    after@,
                    revision_id,
                ),
                Err(cause) => final(self)@.rows == moved(old(self)@.rows, content_id, after@) && (
                match done {
                    Err(failure) => is_client_failure(failure, cause),
                    Ok(_) => false,
                }),
            }),
    {
        let path: String = after.clone();
        match self.index.update_relative_path(content_id, after) {
            Ok(_) => {},
            Err(error) => {
                return Err(error);
            },
        }
        proof {
            let i = id_row(old(self)@.rows, content_id);
            assert(self@.rows[i].path == path@);
        }
        match refreshed {
            Ok(revision_id) => self.index.update_revision_id(&path, revision_id),
            Err(cause) => Err(Error::from_client_error(&cause)),
        }
    }
}

impl OperationalHandler {
    /// How the new local file at `relative_path` is to be reconciled.
    pub fn plan_new_local_file(&self, relative_path: &String) -> (plan: NewLocalPlan)
        requires
            self.wf(),
        ensures
            match plan {
                NewLocalPlan::Modified => knows_path(self@.rows, relative_path@),
                NewLocalPlan::ParentFirst(directory) => {
                    &&& !knows_path(self@.rows, relative_path@)
                    &&& parent_of(relative_path@) == Some(directory@)
                    &&& !knows_path(self@.rows, directory@)
                },
                NewLocalPlan::Create(None) => !knows_path(self@.rows, relative_path@) && parent_of(
                    relative_path@,
                ).is_none(),
                NewLocalPlan::Create(Some(parent_id)) => {
                    &&& !knows_path(self@.rows, relative_path@)
                    &&& parent_of(relative_path@).is_some()
                    &&& knows_path(self@.rows, parent_of(relative_path@).unwrap())
                    &&& parent_id == self@.rows[path_row(
                        self@.rows,
                        parent_of(relative_path@).unwrap(),
                    )].content_id
                },
            },
    {
        if self.index.relative_path_is_known(relative_path) {
            return NewLocalPlan::Modified;
        }
        match crate::path::parent(relative_path.as_str()) {
            None => NewLocalPlan::Create(None),
            Some(directory) => match self.index.get_content_id_from_path(&directory) {
                Ok(parent_id) => NewLocalPlan::Create(Some(parent_id)),
                Err(_) => NewLocalPlan::ParentFirst(directory),
            },
        }
    }

    /// Ends the reconciliation of a new local file with what the hub
    /// answered to its creation. A content that the hub created is bound
    /// to the path, and its echoes are expected. A content that the hub
    /// had already is bound to the path under the identifiers that the
    /// hub gave, and no echo is expected. Any other answer is a failure
    /// with nothing changed. Where the index refuses the binding, the
    /// echoes are expected all the same.
    pub fn new_local_file(
        &mut self,
        relative_path: String,
        content_type: ContentType,
        last_modified_ms: u64,
        created: Result<(ContentId, RevisionId), ClientError>,
    ) -> (done: Result<(), Error>)
        requires
            old(self).wf(),
        ensures
            final(self).wf(),
            match created {
                Ok((content_id, revision_id)) => {
                    let row = Entry {
                        path: relative_path@,
                        content_id,
                        revision_id,
                        last_modified_ms,
                    };
                    &&& final(self)@.expected == old(self)@.expected + creation_echoes(
                        content_id,
                        content_type,
                    )
                    &&& bound(old(self)@.rows, row, final(self)@.rows, done)
                    &&& done.is_ok() ==> final(self)@ == created_on_hub(
                        old(self)@,
                        row,
                        content_type,
                    )
                },
                Err(ClientError::AlreadyExistResponse(content_id, revision_id)) => {
                    let row = Entry {
                        path: relative_path@,
                        content_id,
                        revision_id,
                        last_modified_ms,
                    };
                    &&& final(self)@.expected == old(self)@.expected
                    &&& bound(old(self)@.rows, row, final(self)@.rows, done)
                },
                Err(cause) => final(self)@ == old(self)@ && (match done {
                    Err(Error::FailToCreateContentOnRemote(text)) => text@ == client_error_text(
                        cause,
                    ),
                    _ => false,
                }),
            },
    {
        let (content_id, revision_id) = match created {
            Ok((content_id, revision_id)) => {
                self.ignore_messages.push(OperationalMessage::NewRemoteFile(content_id));
                if !content_type.is_folder() {
                    self.ignore_messages.push(OperationalMessage::ModifiedRemoteFile(content_id));
                }
                assert(self@.expected =~= old(self)@.expected + creation_echoes(
                    content_id,
                    content_type,
                ));
                (content_id, revision_id)
            },
            Err(ClientError::AlreadyExistResponse(content_id, revision_id)) => (
                content_id,
                revision_id,
            ),
            Err(cause) => {
                return Err(Error::FailToCreateContentOnRemote(cause.message()));
            },
        };
        self.index.insert_new_file(relative_path, last_modified_ms, content_id, revision_id)
    }

    /// Starts the reconciliation of a local modification: finds the
    /// content and expects the modification that the hub will report for
    /// it. A path that is not indexed is reported as such, with nothing
    /// changed.
    pub fn begin_modified_local_file(&mut self, relative_path: &String) -> (found: Result<
        ContentId,
        Error,
    >)
        requires
            old(self).wf(),
        ensures
            final(self).wf(),
            match found {
                Ok(content_id) => {
                    &&& knows_path(old(self)@.rows, relative_path@)
                    &&& content_id == old(self)@.rows[path_row(
                        old(self)@.rows,
                        relative_path@,
                    )].content_id
                    &&& final(self)@ == expecting(
                        old(self)@,
                        Message::ModifiedRemoteFile(content_id),
                    )
                },
                Err(Error::UnIndexedRelativePath(path)) => !knows_path(
                    old(self)@.rows,
                    relative_path@,
                ) && final(self)@ == old(self)@ && path@ == relative_path@,
                Err(_) => false,
            },
    {
        match self.index.get_content_id_from_path(relative_path) {
            Ok(content_id) => {
                self.ignore_messages.push(OperationalMessage::ModifiedRemoteFile(content_id));
                Ok(content_id)
            },
            Err(error) => Err(error),
        }
    }

    /// Ends the reconciliation of a local modification with what the hub
    /// answered to the upload: on success the index takes the time of the
    /// file on disk and the new revision; a failure of the hub changes
    /// nothing, and neither does a path that is not indexed.
    pub fn modified_local_file(
        &mut self,
        relative_path: &String,
        last_modified_ms: u64,
        updated: Result<RevisionId, ClientError>,
    ) -> (done: Result<(), Error>)
        requires
            old(self).wf(),
        ensures
            final(self).wf(),
            match updated {
                Ok(revision_id) => match done {
                    Ok(_) => knows_path(old(self)@.rows, relative_path@) && final(self)@
                        == uploaded(old(self)@, relative_path@, last_modified_ms, revision_id),
                    Err(Error::UnIndexedRelativePath(path)) => !knows_path(
                        old(self)@.rows,
                        relative_path@,
                    ) && final(self)@ == old(self)@ && path@ == relative_path@,
                    Err(_) => false,
                },
                Err(cause) => final(self)@ == old(self)@ && (match done {
                    Err(failure) => is_client_failure(failure, cause),
                    Ok(_) => false,
                }),
            },
    {
        match updated {
            Ok(revision_id) => self.modified_remote_file(
                relative_path,
                last_modified_ms,
                revision_id,
            ),
            Err(cause) => Err(Error::from_client_error(&cause)),
        }
    }

    /// Starts the reconciliation of a local deletion: finds the content
    /// that the hub has to trash.
    pub fn plan_deleted_local_file(&self, relative_path: &String) -> (found: Result<
        ContentId,
        Error,
    >)
        requires
            self.wf(),
        ensures
            match found {
                Ok(content_id) => knows_path(self@.rows, relative_path@) && content_id
                    == self@.rows[path_row(self@.rows, relative_path@)].content_id,
                Err(Error::UnIndexedRelativePath(path)) => !knows_path(self@.rows, relative_path@)
                    && path@ == relative_path@,
                Err(_) => false,
            },
    {
        self.index.get_content_id_from_path(relative_path)
    }

    /// Ends the reconciliation of a local deletion with what the hub
    /// answered: once the content is trashed its deletion is expected as
    /// an echo and its row leaves the index; a failure changes nothing,
    /// so that the deletion is found again at the next start.
    pub fn deleted_local_file(&mut self, content_id: ContentId, trashed: Result<(), ClientError>) -> (
        done: Result<(), Error>)
        requires
            old(self).wf(),
        ensures
            final(self).wf(),
            match trashed {
                Ok(_) => done.is_ok() && final(self)@ == self::trashed(old(self)@, content_id),
                Err(cause) => final(self)@ == old(self)@ && (match done {
                    Err(failure) => is_client_failure(failure, cause),
                    Ok(_) => false,
                }),
            },
    {
        match trashed {
            Ok(_) => {
                self.ignore_messages.push(OperationalMessage::DeletedRemoteFile(content_id));
                self.index.delete_file(content_id);
                Ok(())
            },
            Err(cause) => Err(Error::from_client_error(&cause)),
        }
    }

    /// Starts the reconciliation of a new remote content, found at
    /// `relative_path` on the hub, `depth` parents below the content that
    /// the message was about: expects the local creation that will be
    /// observed, and names the parent that has to be reconciled first, as
    /// a new remote content one level deeper, where the hub gives one
    /// that the index does not have. Refused, with nothing changed, where
    /// `depth` is over `MAX_PARENT_DEPTH`, and where the path would lead
    /// out of the workspace.
    pub fn begin_new_remote_file(
        &mut self,
        remote: &RemoteContent,
        relative_path: &String,
        depth: usize,
    ) -> (first: Result<Option<ContentId>, Error>)
        ensures
            match first {
                Ok(parent) => depth <= MAX_PARENT_DEPTH && is_relative(relative_path@)
                    && final(self)@ == expecting(
                    old(self)@,
                    Message::NewLocalFile(relative_path@),
                ) && parent == missing_parent(old(self)@.rows, remote.parent_id),
                Err(Error::UnexpectedError(text)) => depth > MAX_PARENT_DEPTH && final(self)@
                    == old(self)@ && text@ == "too many parents above the content"@,
                Err(Error::PathManipulationError(text)) => depth <= MAX_PARENT_DEPTH
                    && !is_relative(relative_path@) && final(self)@ == old(self)@ && text@
                    == "path is not below the workspace"@,
                Err(_) => false,
            },
    {
        if depth > MAX_PARENT_DEPTH {
            return Err(Error::UnexpectedError("too many parents above the content".to_owned()));
        }
        if !crate::path::is_relative_path(relative_path.as_str()) {
            return Err(outside_workspace());
        }
        self.ignore_messages.push(OperationalMessage::NewLocalFile(relative_path.clone()));
        match remote.parent_id {
            Some(parent_id) => {
                if self.index.content_id_is_known(parent_id) {
                    Ok(None)
                } else {
                    Ok(Some(parent_id))
                }
            },
            None => Ok(None),
        }
    }

    /// Ends the reconciliation of a new remote content, once it is on
    /// disk at `relative_path`, with the revision that the hub reported:
    /// the content is bound to the path. A failure of the hub changes
    /// nothing, and neither does a binding that the index refuses.
    pub fn new_remote_file(
        &mut self,
        relative_path: String,
        last_modified_ms: u64,
        content_id: ContentId,
        fetched: Result<RevisionId, ClientError>,
    ) -> (done: Result<(), Error>)
        requires
            old(self).wf(),
        ensures
            final(self).wf(),
            final(self)@.expected == old(self)@.expected,
            match fetched {
                Ok(revision_id) => bound(
                    old(self)@.rows,
                    Entry { path: relative_path@, content_id, revision_id, last_modified_ms },
                    final(self)@.rows,
                    done,
                ),
                Err(cause) => final(self)@ == old(self)@ && (match done {
                    Err(failure) => is_client_failure(failure, cause),
                    Ok(_) => false,
                }),
            },
    {
        match fetched {
            Ok(revision_id) => self.index.insert_new_file(
                relative_path,
                last_modified_ms,
                content_id,
                revision_id,
            ),
            Err(cause) => Err(Error::from_client_error(&cause)),
        }
    }

    /// Starts the reconciliation of a remote deletion: finds the path to
    /// remove from the disk and expects the local deletion that will be
    /// observed. A content that is not indexed is a failure with nothing
    /// changed.
    pub fn begin_deleted_remote_file(&mut self, content_id: ContentId) -> (found: Result<
        String,
        Error,
    >)
        requires
            old(self).wf(),
        ensures
            final(self).wf(),
            match found {
                Ok(path) => {
                    &&& knows_id(old(self)@.rows, content_id)
                    &&& path@ == old(self)@.rows[id_row(old(self)@.rows, content_id)].path
                    &&& final(self)@ == expecting(old(self)@, Message::DeletedLocalFile(path@))
                },
                Err(Error::UnexpectedError(text)) => !knows_id(old(self)@.rows, content_id)
                    && final(self)@ == old(self)@ && text@ == "content is not indexed"@,
                Err(_) => false,
            },
    {
        match self.index.get_path_from_content_id(content_id) {
            Ok(path) => {
                self.ignore_messages.push(OperationalMessage::DeletedLocalFile(path.clone()));
                Ok(path)
            },
            Err(error) => Err(error),
        }
    }

    /// Ends the reconciliation of a remote deletion, once the disk object
    /// is gone: the row of the content leaves the index.
    pub fn deleted_remote_file(&mut self, content_id: ContentId)
        requires
            old(self).wf(),
        ensures
            final(self).wf(),
            final(self)@ == (State { rows: without(old(self)@.rows, content_id), ..old(self)@ }),
    {
        self.index.delete_file(content_id);
    }
}

} // verus!
