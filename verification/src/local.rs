//! The two local observers: the watcher, which turns the events of the
//! file system into messages, and the startup reconciler, which compares
//! the disk with the index once before the watcher starts.

use vstd::prelude::*;
use vstd::string::*;
use crate::error::Error;
use crate::index::id_row;
use crate::index::is_index;
use crate::index::knows_id;
use crate::index::knows_path;
use crate::index::lemma_path_row;
use crate::index::path_row;
use crate::index::revised;
use crate::index::touched;
use crate::index::without;
use crate::index::Entry;
use crate::index::LocalIndex;
use crate::operation::messages_of;
use crate::operation::Message;
use crate::operation::OperationalMessage;
use crate::path::strip_root;
use crate::path::texts_of;
use crate::path::under_skipped;
use crate::types::ContentId;
use crate::types::RevisionId;

verus! {

/// An event of the file system, as the notifier reports it after its
/// debounce, with each path as an absolute path.
#[derive(Debug)]
pub enum LocalEvent {
    NoticeWrite(String),
    NoticeRemove(String),
    Create(String),
    Write(String),
    Chmod(String),
    Remove(String),
    /// The path before the rename, then the path after it.
    Rename(String, String),
    Rescan,
    /// A failure of the notifier, by its text, and the path that it was
    /// about, if any.
    Error(String, Option<String>),
}

/// One entry that the walk of the workspace found: its path below the
/// workspace root, empty for the root itself, and the time of its last
/// modification on disk.
#[derive(Debug)]
pub struct DiskEntry {
    pub relative_path: String,
    pub last_modified_ms: u64,
}

/// The messages that an event becomes for a workspace at `root`, or
/// `None` where a path of the event is not below `root`.
pub open spec fn digested(root: Seq<char>, event: LocalEvent) -> Option<Seq<Message>> {
    match event {
        LocalEvent::Create(path) => match strip_root(root, path@) {
            Some(relative) => Some(seq![Message::NewLocalFile(relative)]),
            None => None,
        },
        LocalEvent::Write(path) => match strip_root(root, path@) {
            Some(relative) => Some(seq![Message::ModifiedLocalFile(relative)]),
            None => None,
        },
        LocalEvent::Remove(path) => match strip_root(root, path@) {
            Some(relative) => Some(seq![Message::DeletedLocalFile(relative)]),
            None => None,
        },
        LocalEvent::Rename(source, destination) => match strip_root(root, source@) {
            Some(before) => match strip_root(root, destination@) {
                Some(after) => Some(seq![Message::RenamedLocalFile(before, after)]),
                None => None,
            },
            None => None,
        },
        _ => Some(Seq::empty()),
    }
}

/// Turns the events of the file system below one workspace into messages.
pub struct LocalWatcher {
    workspace_folder_path: String,
}

impl LocalWatcher {
    /// The absolute path of the workspace.
    pub closed spec fn root(&self) -> Seq<char> {
        self.workspace_folder_path@
    }

    /// A watcher for the workspace at this absolute, canonical path.
    pub fn new(workspace_folder_path: String) -> (watcher: LocalWatcher)
        ensures
            watcher.root() == workspace_folder_path@,
    {
        LocalWatcher { workspace_folder_path }
    }

    fn relative(&self, absolute: &String) -> (found: Result<String, Error>)
        ensures
            match found {
                Ok(relative) => strip_root(self.root(), absolute@) == Some(relative@),
                Err(Error::PathManipulationError(text)) => strip_root(
                    self.root(),
                    absolute@,
                ).is_none() && text@ == "path is not below the workspace"@,
                Err(_) => false,
            },
    {
        match crate::path::strip_prefix(self.workspace_folder_path.as_str(), absolute.as_str()) {
            Some(relative) => Ok(relative),
            None => Err(Error::PathManipulationError("path is not below the workspace".to_owned())),
        }
    }

    /// The messages that `event` stands for: one for a creation, a write,
    /// a removal or a rename, none for any other event. An event with a
    /// path that is not below the workspace is a failure.
    pub fn digest_event(&self, event: &LocalEvent) -> (messages: Result<
        Vec<OperationalMessage>,
        Error,
    >)
        ensures
            match messages {
                Ok(list) => digested(self.root(), *event) == Some(messages_of(list@)),
                Err(Error::PathManipulationError(text)) => digested(self.root(), *event).is_none()
                    && text@ == "path is not below the workspace"@,
                Err(_) => false,
            },
    {
        let mut list: Vec<OperationalMessage> = Vec::new();
        match event {
            LocalEvent::Create(path) => {
                match self.relative(path) {
                    Ok(relative) => {
                        list.push(OperationalMessage::NewLocalFile(relative));
                    },
                    Err(error) => {
                        return Err(error);
                    },
                }
            },
            LocalEvent::Write(path) => {
                match self.relative(path) {
                    Ok(relative) => {
                        list.push(OperationalMessage::ModifiedLocalFile(relative));
                    },
                    Err(error) => {
                        return Err(error);
                    },
                }
            },
            LocalEvent::Remove(path) => {
                match self.relative(path) {
                    Ok(relative) => {
                        list.push(OperationalMessage::DeletedLocalFile(relative));
                    },
                    Err(error) => {
                        return Err(error);
                    },
                }
            },
            LocalEvent::Rename(source, destination) => {
                let before: String = match self.relative(source) {
                    Ok(relative) => relative,
                    Err(error) => {
                        return Err(error);
                    },
                };
                match self.relative(destination) {
                    Ok(after) => {
                        list.push(OperationalMessage::RenamedLocalFile(before, after));
                    },
                    Err(error) => {
                        return Err(error);
                    },
                }
            },
            _ => {},
        }
        assert(digested(self.root(), *event).unwrap() =~= messages_of(list@));
        Ok(list)
    }
}

/// The message that the startup reconciler emits for one entry of the
/// walk: none for the root or for what the walk skips, a creation for a
/// path that is not indexed, a modification for an indexed path whose
/// time on disk differs from the indexed one, and none otherwise.
pub open spec fn disk_message(rows: Seq<Entry>, path: Seq<char>, last_modified_ms: u64) -> Option<
    Message,
> {
    if path.len() == 0 || under_skipped(path) {
        None
    } else if !knows_path(rows, path) {
        Some(Message::NewLocalFile(path))
    } else if rows[path_row(rows, path)].last_modified_ms != last_modified_ms {
        Some(Message::ModifiedLocalFile(path))
    } else {
        None
    }
}

/// The messages for the entries of the walk, in the order of the walk.
pub open spec fn disk_messages(rows: Seq<Entry>, walked: Seq<DiskEntry>) -> Seq<Message>
    decreases walked.len(),
{
    if walked.len() == 0 {
        Seq::empty()
    } else {
        let rest = disk_messages(rows, walked.drop_last());
        match disk_message(rows, walked.last().relative_path@, walked.last().last_modified_ms) {
            Some(message) => rest.push(message),
            None => rest,
        }
    }
}

/// A deletion for each of `paths` that is not among `existing`, in the
/// order of `paths`.
pub open spec fn db_messages(paths: Seq<Seq<char>>, existing: Seq<Seq<char>>) -> Seq<Message>
    decreases paths.len(),
{
    if paths.len() == 0 {
        Seq::empty()
    } else {
        let rest = db_messages(paths.drop_last(), existing);
        if existing.contains(paths.last()) {
            rest
        } else {
            rest.push(Message::DeletedLocalFile(paths.last()))
        }
    }
}

/// The indexed paths, in the order of the rows.
pub open spec fn paths_of(rows: Seq<Entry>) -> Seq<Seq<char>> {
    rows.map_values(|row: Entry| row.path)
}

/// Everything that the startup reconciler emits: the messages for the
/// walk, then the deletions for the indexed paths that are gone.
pub open spec fn startup_messages(
    rows: Seq<Entry>,
    walked: Seq<DiskEntry>,
    existing: Seq<Seq<char>>,
) -> Seq<Message> {
    disk_messages(rows, walked) + db_messages(paths_of(rows), existing)
}

/// The disk and the index agree: no entry of the walk asks for a message,
/// and every indexed path exists.
pub open spec fn settled(
    rows: Seq<Entry>,
    walked: Seq<DiskEntry>,
    existing: Seq<Seq<char>>,
) -> bool {
    &&& forall|i: int|
        0 <= i < walked.len() ==> disk_message(
            rows,
            (#[trigger] walked[i]).relative_path@,
            walked[i].last_modified_ms,
        ).is_none()
    &&& forall|i: int| 0 <= i < rows.len() ==> existing.contains((#[trigger] rows[i]).path)
}

/// Compares the disk with the index once, at startup.
pub struct LocalSync<'a> {
    index: &'a LocalIndex,
}

impl<'a> LocalSync<'a> {
    /// The rows of the index that the disk is compared with.
    pub closed spec fn rows(&self) -> Seq<Entry> {
        self.index@
    }

    /// A reconciler that compares the disk with `index`.
    pub fn new(index: &'a LocalIndex) -> (reconciler: LocalSync<'a>)
        ensures
            reconciler.rows() == index@,
    {
        LocalSync { index }
    }

    /// Whether the walk skips the entry at `relative_path`, and with it
    /// what lies below: its base name starts with `.`, `~` or `#`.
    pub fn ignore_entry(&self, relative_path: &str) -> (skipped: bool)
        ensures
            skipped == crate::path::is_skipped_name(crate::path::file_name_of(relative_path@)),
    {
        let name: String = crate::path::file_name(relative_path);
        crate::path::is_skipped(name.as_str())
    }

    /// The message for one entry of the walk, if it asks for one.
    pub fn sync_disk_file(&self, entry: &DiskEntry) -> (message: Option<OperationalMessage>)
        requires
            is_index(self.rows()),
        ensures
            match message {
                Some(m) => disk_message(self.rows(), entry.relative_path@, entry.last_modified_ms)
                    == Some(m@),
                None => disk_message(
                    self.rows(),
                    entry.relative_path@,
                    entry.last_modified_ms,
                ).is_none(),
            },
    {
        if entry.relative_path.as_str().unicode_len() == 0 || crate::path::is_under_skipped(
            entry.relative_path.as_str(),
        ) {
            return None;
        }
        match self.index.get_last_modified_ms(&entry.relative_path) {
            Ok(last_modified_ms) => {
                if last_modified_ms != entry.last_modified_ms {
                    Some(OperationalMessage::ModifiedLocalFile(entry.relative_path.clone()))
                } else {
                    None
                }
            },
            Err(_) => Some(OperationalMessage::NewLocalFile(entry.relative_path.clone())),
        }
    }

    /// The messages for the entries of the walk, in the order of the walk.
    pub fn sync_from_disk(&self, walked: &Vec<DiskEntry>) -> (messages: Vec<OperationalMessage>)
        requires
            is_index(self.rows()),
        ensures
            messages_of(messages@) == disk_messages(self.rows(), walked@),
    {
        let mut messages: Vec<OperationalMessage> = Vec::new();
        let mut i: usize = 0;
        assert(walked@.subrange(0, 0) =~= Seq::<DiskEntry>::empty());
        assert(messages_of(messages@) =~= Seq::<Message>::empty());
        while i < walked.len()
            invariant
                i <= walked.len(),
                is_index(self.rows()),
                messages_of(messages@) == disk_messages(self.rows(), walked@.subrange(0, i as int)),
            decreases walked.len() - i,
        {
            proof {
                assert(walked@.subrange(0, i + 1).drop_last() =~= walked@.subrange(0, i as int));
            }
            let ghost before = messages@;
            match self.sync_disk_file(&walked[i]) {
                Some(message) => {
                    messages.push(message);
                    assert(messages_of(messages@) =~= messages_of(before).push(message@));
                },
                None => {},
            }
            i += 1;
        }
        assert(walked@.subrange(0, i as int) =~= walked@);
        messages
    }

    /// A deletion for each indexed path that is not among `existing`, the
    /// indexed paths that were found on disk, in the order of the index.
    pub fn sync_from_db(&self, existing: &Vec<String>) -> (messages: Vec<OperationalMessage>)
        ensures
            messages_of(messages@) == db_messages(paths_of(self.rows()), texts_of(existing@)),
    {
        let paths: Vec<String> = self.index.get_all_relative_paths();
        let mut messages: Vec<OperationalMessage> = Vec::new();
        let mut i: usize = 0;
        assert(texts_of(paths@) =~= paths_of(self.rows()));
        assert(texts_of(paths@).subrange(0, 0) =~= Seq::<Seq<char>>::empty());
        assert(messages_of(messages@) =~= Seq::<Message>::empty());
        while i < paths.len()
            invariant
                i <= paths.len(),
                messages_of(messages@) == db_messages(
                    texts_of(paths@).subrange(0, i as int),
                    texts_of(existing@),
                ),
            decreases paths.len() - i,
        {
            proof {
                assert(texts_of(paths@).subrange(0, i + 1).drop_last() =~= texts_of(
                    paths@,
                ).subrange(0, i as int));
            }
            let ghost before = messages@;
            if !contains_text(existing, &paths[i]) {
                messages.push(OperationalMessage::DeletedLocalFile(paths[i].clone()));
                assert(messages_of(messages@) =~= messages_of(before).push(
                    Message::DeletedLocalFile(paths@[i as int]@),
                ));
            }
            i += 1;
        }
        assert(texts_of(paths@).subrange(0, i as int) =~= texts_of(paths@));
        messages
    }

    /// Everything that the startup has to report: `walked` is what the
    /// walk of the workspace found, `existing` the indexed paths that are
    /// on disk.
    pub fn sync(&self, walked: &Vec<DiskEntry>, existing: &Vec<String>) -> (messages: Vec<
        OperationalMessage,
    >)
        requires
            is_index(self.rows()),
        ensures
            messages_of(messages@) == startup_messages(
                self.rows(),
                walked@,
                texts_of(existing@),
            ),
    {
        let mut messages: Vec<OperationalMessage> = self.sync_from_disk(walked);
        let mut gone: Vec<OperationalMessage> = self.sync_from_db(existing);
        let ghost first = messages@;
        let ghost second = gone@;
        messages.append(&mut gone);
        assert(messages_of(messages@) =~= messages_of(first) + messages_of(second));
        messages
    }
}

fn contains_text(list: &Vec<String>, text: &String) -> (found: bool)
    ensures
        found == texts_of(list@).contains(text@),
{
    let mut i: usize = 0;
    while i < list.len()
        invariant
            i <= list.len(),
            forall|j: int| 0 <= j < i ==> texts_of(list@)[j] != text@,
        decreases list.len() - i,
    {
        if list[i] == *text {
            assert(texts_of(list@)[i as int] == text@);
            return true;
        }
        i += 1;
    }
    false
}

/// No deletion is emitted exactly where every one of `paths` exists.
pub proof fn lemma_db_messages_none(paths: Seq<Seq<char>>, existing: Seq<Seq<char>>)
    ensures
        db_messages(paths, existing).len() == 0 <==> (forall|i: int|
            0 <= i < paths.len() ==> existing.contains(#[trigger] paths[i])),
    decreases paths.len(),
{
    if paths.len() > 0 {
        let rest = paths.drop_last();
        lemma_db_messages_none(rest, existing);
        if db_messages(paths, existing).len() == 0 {
            assert forall|i: int| 0 <= i < paths.len() implies existing.contains(
                #[trigger] paths[i],
            ) by {
                if i < rest.len() {
                    assert(rest[i] == paths[i]);
                }
            }
        }
        if forall|i: int| 0 <= i < paths.len() ==> existing.contains(#[trigger] paths[i]) {
            assert forall|i: int| 0 <= i < rest.len() implies existing.contains(
                #[trigger] rest[i],
            ) by {
                assert(rest[i] == paths[i]);
            }
            assert(existing.contains(paths[paths.len() - 1]));
        }
    }
}

/// The walk asks for no message exactly where none of its entries does.
pub proof fn lemma_disk_messages_none(rows: Seq<Entry>, walked: Seq<DiskEntry>)
    ensures
        disk_messages(rows, walked).len() == 0 <==> (forall|i: int|
            0 <= i < walked.len() ==> disk_message(
                rows,
                (#[trigger] walked[i]).relative_path@,
                walked[i].last_modified_ms,
            ).is_none()),
    decreases walked.len(),
{
    if walked.len() > 0 {
        let rest = walked.drop_last();
        lemma_disk_messages_none(rows, rest);
        if disk_messages(rows, walked).len() == 0 {
            assert forall|i: int| 0 <= i < walked.len() implies disk_message(
                rows,
                (#[trigger] walked[i]).relative_path@,
                walked[i].last_modified_ms,
            ).is_none() by {
                if i < rest.len() {
                    assert(rest[i] == walked[i]);
                }
            }
        }
        if forall|i: int|
            0 <= i < walked.len() ==> disk_message(
                rows,
                (#[trigger] walked[i]).relative_path@,
                walked[i].last_modified_ms,
            ).is_none() {
            assert forall|i: int| 0 <= i < rest.len() implies disk_message(
                rows,
                (#[trigger] rest[i]).relative_path@,
                rest[i].last_modified_ms,
            ).is_none() by {
                assert(rest[i] == walked[i]);
            }
            assert(disk_message(
                rows,
                walked[walked.len() - 1].relative_path@,
                walked[walked.len() - 1].last_modified_ms,
            ).is_none());
        }
    }
}

/// The startup reconciler is silent exactly where the disk and the index
/// agree. So a second run, after the messages of the first have been
/// reconciled and nothing else has changed, emits nothing.
pub proof fn lemma_startup_quiet(
    rows: Seq<Entry>,
    walked: Seq<DiskEntry>,
    existing: Seq<Seq<char>>,
)
    ensures
        startup_messages(rows, walked, existing).len() == 0 <==> settled(rows, walked, existing),
{
    lemma_disk_messages_none(rows, walked);
    lemma_db_messages_none(paths_of(rows), existing);
    if settled(rows, walked, existing) {
        assert forall|i: int| 0 <= i < paths_of(rows).len() implies existing.contains(
            #[trigger] paths_of(rows)[i],
        ) by {
            assert(paths_of(rows)[i] == rows[i].path);
        }
    }
    if startup_messages(rows, walked, existing).len() == 0 {
        assert forall|i: int| 0 <= i < rows.len() implies existing.contains(
            (#[trigger] rows[i]).path,
        ) by {
            assert(paths_of(rows)[i] == rows[i].path);
        }
    }
}

/// After the startup reconciler has run, every row of the index has its
/// disk object, or its deletion is among the messages that were emitted.
pub proof fn lemma_missing_rows_reported(
    rows: Seq<Entry>,
    walked: Seq<DiskEntry>,
    existing: Seq<Seq<char>>,
    i: int,
)
    requires
        0 <= i < rows.len(),
    ensures
        existing.contains(rows[i].path) || startup_messages(rows, walked, existing).contains(
            Message::DeletedLocalFile(rows[i].path),
        ),
{
    let paths = paths_of(rows);
    assert(paths[i] == rows[i].path);
    lemma_missing_paths_reported(paths, existing, i);
    if !existing.contains(rows[i].path) {
        let gone = db_messages(paths, existing);
        let first = disk_messages(rows, walked);
        let k = choose|k: int| 0 <= k < gone.len() && gone[k] == Message::DeletedLocalFile(paths[i]);
        assert(startup_messages(rows, walked, existing)[first.len() + k] == gone[k]);
    }
}

/// Each of `paths` is among `existing` or has its deletion emitted.
pub proof fn lemma_missing_paths_reported(paths: Seq<Seq<char>>, existing: Seq<Seq<char>>, i: int)
    requires
        0 <= i < paths.len(),
    ensures
        existing.contains(paths[i]) || db_messages(paths, existing).contains(
            Message::DeletedLocalFile(paths[i]),
        ),
    decreases paths.len(),
{
    let rest = paths.drop_last();
    let all = db_messages(paths, existing);
    if i == paths.len() - 1 {
        if !existing.contains(paths[i]) {
            assert(all[all.len() - 1] == Message::DeletedLocalFile(paths[i]));
        }
    } else {
        lemma_missing_paths_reported(rest, existing, i);
        assert(rest[i] == paths[i]);
        if !existing.contains(paths[i]) {
            let before = db_messages(rest, existing);
            let k = choose|k: int|
                0 <= k < before.len() && before[k] == Message::DeletedLocalFile(paths[i]);
            assert(all[k] == before[k]);
        }
    }
}

/// A row that has the time of the file on disk asks for no message.
pub proof fn lemma_row_with_disk_time_is_quiet(rows: Seq<Entry>, i: int)
    requires
        is_index(rows),
        0 <= i < rows.len(),
    ensures
        disk_message(rows, rows[i].path, rows[i].last_modified_ms).is_none(),
{
    lemma_path_row(rows, i);
}

/// Once a creation or a modification that the startup reconciler emitted
/// has been reconciled, the row of the path has the time of the file on
/// disk, and the path asks for no message any more.
pub proof fn lemma_reconciled_path_is_quiet(
    rows: Seq<Entry>,
    path: Seq<char>,
    last_modified_ms: u64,
    revision_id: RevisionId,
)
    requires
        is_index(rows),
        crate::index::knows_path(rows, path),
    ensures
        disk_message(
            revised(touched(rows, path, last_modified_ms), path, revision_id),
            path,
            last_modified_ms,
        ).is_none(),
{
    let i = path_row(rows, path);
    lemma_path_row(rows, i);
    let first = touched(rows, path, last_modified_ms);
    crate::index::lemma_update_keeps_index(rows, i, first[i]);
    assert(first =~= rows.update(i, first[i]));
    lemma_path_row(first, i);
    let second = revised(first, path, revision_id);
    crate::index::lemma_update_keeps_index(first, i, second[i]);
    assert(second =~= first.update(i, second[i]));
    lemma_row_with_disk_time_is_quiet(second, i);
}

/// Once a deletion that the startup reconciler emitted has been
/// reconciled, the path is not indexed any more, and no deletion is
/// emitted for it again.
pub proof fn lemma_reconciled_deletion_is_quiet(
    rows: Seq<Entry>,
    content_id: ContentId,
    existing: Seq<Seq<char>>,
)
    requires
        is_index(rows),
        knows_id(rows, content_id),
    ensures
        !crate::index::knows_path(without(rows, content_id), rows[id_row(rows, content_id)].path),
        !db_messages(paths_of(without(rows, content_id)), existing).contains(
            Message::DeletedLocalFile(rows[id_row(rows, content_id)].path),
        ),
{
    let gone = id_row(rows, content_id);
    let path = rows[gone].path;
    let after = without(rows, content_id);
    lemma_path_row(rows, gone);
    assert forall|k: int| 0 <= k < after.len() implies (#[trigger] after[k]).path != path by {
        let k0 = if k < gone {
            k
        } else {
            k + 1
        };
        assert(after[k] == rows[k0]);
        if k0 < gone {
            assert(rows[k0].path != rows[gone].path);
        } else {
            assert(rows[gone].path != rows[k0].path);
        }
    }
    assert forall|k: int| 0 <= k < paths_of(after).len() implies (#[trigger] paths_of(after)[k])
        != path by {
        assert(paths_of(after)[k] == after[k].path);
    }
    lemma_db_messages_from_paths(paths_of(after), existing, path);
}

/// A deletion is only emitted for one of the paths.
pub proof fn lemma_db_messages_from_paths(
    paths: Seq<Seq<char>>,
    existing: Seq<Seq<char>>,
    path: Seq<char>,
)
    requires
        forall|k: int| 0 <= k < paths.len() ==> (#[trigger] paths[k]) != path,
    ensures
        !db_messages(paths, existing).contains(Message::DeletedLocalFile(path)),
    decreases paths.len(),
{
    if paths.len() > 0 {
        let rest = paths.drop_last();
        assert forall|k: int| 0 <= k < rest.len() implies (#[trigger] rest[k]) != path by {
            assert(rest[k] == paths[k]);
        }
        lemma_db_messages_from_paths(rest, existing, path);
        let all = db_messages(paths, existing);
        let before = db_messages(rest, existing);
        if all.contains(Message::DeletedLocalFile(path)) {
            let k = choose|k: int| 0 <= k < all.len() && all[k] == Message::DeletedLocalFile(path);
            if k < before.len() {
                assert(before[k] == all[k]);
            } else {
                assert(paths[paths.len() - 1] != path);
            }
        }
    }
}

} // verus!
