//! The local index: which content of the hub each path of the workspace is
//! bound to, at which revision, and when the file was last reconciled.

use vstd::prelude::*;
use vstd::string::*;
use crate::error::Error;
use crate::path::parent_of;
use crate::types::ContentId;
use crate::types::RevisionId;

verus! {

/// One row of the index.
#[derive(Debug)]
pub struct IndexEntry {
    pub relative_path: String,
    pub content_id: ContentId,
    pub revision_id: RevisionId,
    pub last_modified_ms: u64,
}

/// What a row says, with the path as its sequence of characters.
pub struct Entry {
    pub path: Seq<char>,
    pub content_id: ContentId,
    pub revision_id: RevisionId,
    pub last_modified_ms: u64,
}

impl View for IndexEntry {
    type V = Entry;

    open spec fn view(&self) -> Entry {
        Entry {
            path: self.relative_path@,
            content_id: self.content_id,
            revision_id: self.revision_id,
            last_modified_ms: self.last_modified_ms,
        }
    }
}

impl Clone for IndexEntry {
    fn clone(&self) -> (copy: Self)
        ensures
            copy@ == self@,
    {
        IndexEntry {
            relative_path: self.relative_path.clone(),
            content_id: self.content_id,
            revision_id: self.revision_id,
            last_modified_ms: self.last_modified_ms,
        }
    }
}

/// Whether some row has this path.
pub open spec fn knows_path(rows: Seq<Entry>, path: Seq<char>) -> bool {
    exists|i: int| 0 <= i < rows.len() && (#[trigger] rows[i]).path == path
}

/// Whether some row has this content.
pub open spec fn knows_id(rows: Seq<Entry>, content_id: ContentId) -> bool {
    exists|i: int| 0 <= i < rows.len() && (#[trigger] rows[i]).content_id == content_id
}

/// Paths and contents are bound one to one: no path and no content occurs
/// in two rows.
pub open spec fn is_index(rows: Seq<Entry>) -> bool {
    forall|i: int, j: int|
        0 <= i < j < rows.len() ==> (#[trigger] rows[i]).path != (#[trigger] rows[j]).path
            && rows[i].content_id != rows[j].content_id
}

/// The position of the row with this path.
pub open spec fn path_row(rows: Seq<Entry>, path: Seq<char>) -> int {
    choose|i: int| 0 <= i < rows.len() && (#[trigger] rows[i]).path == path
}

/// The position of the row with this content.
pub open spec fn id_row(rows: Seq<Entry>, content_id: ContentId) -> int {
    choose|i: int| 0 <= i < rows.len() && (#[trigger] rows[i]).content_id == content_id
}

/// The rows after the content moved to another path.
pub open spec fn moved(rows: Seq<Entry>, content_id: ContentId, path: Seq<char>) -> Seq<Entry> {
    let i = id_row(rows, content_id);
    rows.update(i, Entry { path, ..rows[i] })
}

/// The rows after the content at this path reached another revision.
pub open spec fn revised(rows: Seq<Entry>, path: Seq<char>, revision_id: RevisionId) -> Seq<
    Entry,
> {
    let i = path_row(rows, path);
    rows.update(i, Entry { revision_id, ..rows[i] })
}

/// The rows after the file at this path was reconciled at another time.
pub open spec fn touched(rows: Seq<Entry>, path: Seq<char>, last_modified_ms: u64) -> Seq<Entry> {
    let i = path_row(rows, path);
    rows.update(i, Entry { last_modified_ms, ..rows[i] })
}

/// The rows without the one of this content.
pub open spec fn without(rows: Seq<Entry>, content_id: ContentId) -> Seq<Entry> {
    if knows_id(rows, content_id) {
        rows.remove(id_row(rows, content_id))
    } else {
        rows
    }
}

/// Whether a row for this path and this content keeps paths and contents
/// bound one to one: neither is bound yet.
pub open spec fn can_insert(rows: Seq<Entry>, path: Seq<char>, content_id: ContentId) -> bool {
    !knows_path(rows, path) && !knows_id(rows, content_id)
}

/// Whether a move of the content to this path keeps paths and contents
/// bound one to one: the content is known and no other row has the path.
pub open spec fn can_move(rows: Seq<Entry>, content_id: ContentId, path: Seq<char>) -> bool {
    knows_id(rows, content_id) && (knows_path(rows, path) ==> rows[path_row(rows, path)].content_id
        == content_id)
}

/// Every row below a directory has that directory among the rows.
pub open spec fn parents_indexed(rows: Seq<Entry>) -> bool {
    forall|i: int|
        0 <= i < rows.len() && parent_of((#[trigger] rows[i]).path).is_some() ==> knows_path(
            rows,
            parent_of(rows[i].path).unwrap(),
        )
}

/// Whether some row lies directly in the directory `path`.
pub open spec fn has_child(rows: Seq<Entry>, path: Seq<char>) -> bool {
    exists|i: int| 0 <= i < rows.len() && parent_of((#[trigger] rows[i]).path) == Some(path)
}

/// In an index the row of a path is the only one with that path.
pub proof fn lemma_path_row(rows: Seq<Entry>, i: int)
    requires
        is_index(rows),
        0 <= i < rows.len(),
    ensures
        path_row(rows, rows[i].path) == i,
        id_row(rows, rows[i].content_id) == i,
        knows_path(rows, rows[i].path),
        knows_id(rows, rows[i].content_id),
{
    let p = path_row(rows, rows[i].path);
    assert(0 <= p < rows.len() && rows[p].path == rows[i].path);
    let q = id_row(rows, rows[i].content_id);
    assert(0 <= q < rows.len() && rows[q].content_id == rows[i].content_id);
    if p < i {
        assert(rows[p].path != rows[i].path);
    }
    if i < p {
        assert(rows[i].path != rows[p].path);
    }
    if q < i {
        assert(rows[q].content_id != rows[i].content_id);
    }
    if i < q {
        assert(rows[i].content_id != rows[q].content_id);
    }
}

/// A new row for an unknown path and an unknown content keeps paths and
/// contents bound one to one.
pub proof fn lemma_insert_keeps_index(rows: Seq<Entry>, row: Entry)
    requires
        is_index(rows),
        !knows_path(rows, row.path),
        !knows_id(rows, row.content_id),
    ensures
        is_index(rows.push(row)),
{
    let after = rows.push(row);
    assert forall|i: int, j: int| 0 <= i < j < after.len() implies (#[trigger] after[i]).path != (
    #[trigger] after[j]).path && after[i].content_id != after[j].content_id by {
        if j < rows.len() {
            assert(after[i] == rows[i] && after[j] == rows[j]);
        } else {
            assert(after[i] == rows[i]);
        }
    }
}

/// A change of revision or of time keeps paths and contents bound one to
/// one, and so does the removal of a row.
pub proof fn lemma_update_keeps_index(rows: Seq<Entry>, i: int, row: Entry)
    requires
        is_index(rows),
        0 <= i < rows.len(),
        row.path == rows[i].path,
        row.content_id == rows[i].content_id,
    ensures
        is_index(rows.update(i, row)),
        is_index(rows.remove(i)),
{
    let after = rows.update(i, row);
    assert forall|a: int, b: int| 0 <= a < b < after.len() implies (#[trigger] after[a]).path != (
    #[trigger] after[b]).path && after[a].content_id != after[b].content_id by {
        assert(after[a].path == rows[a].path && after[a].content_id == rows[a].content_id);
        assert(after[b].path == rows[b].path && after[b].content_id == rows[b].content_id);
    }
    let less = rows.remove(i);
    assert forall|a: int, b: int| 0 <= a < b < less.len() implies (#[trigger] less[a]).path != (
    #[trigger] less[b]).path && less[a].content_id != less[b].content_id by {
        let a0 = if a < i {
            a
        } else {
            a + 1
        };
        let b0 = if b < i {
            b
        } else {
            b + 1
        };
        assert(less[a] == rows[a0] && less[b] == rows[b0]);
    }
}

/// A move that `can_move` allows keeps paths and contents bound one to one.
pub proof fn lemma_move_keeps_index(rows: Seq<Entry>, content_id: ContentId, path: Seq<char>)
    requires
        is_index(rows),
        can_move(rows, content_id, path),
    ensures
        is_index(moved(rows, content_id, path)),
{
    let i = id_row(rows, content_id);
    let after = moved(rows, content_id, path);
    assert forall|a: int, b: int| 0 <= a < b < after.len() implies (#[trigger] after[a]).path != (
    #[trigger] after[b]).path && after[a].content_id != after[b].content_id by {
        assert(after[a].content_id == rows[a].content_id);
        assert(after[b].content_id == rows[b].content_id);
        if a == i {
            assert(after[b] == rows[b]);
            if rows[b].path == path {
                lemma_path_row(rows, b);
            }
        } else if b == i {
            assert(after[a] == rows[a]);
            if rows[a].path == path {
                lemma_path_row(rows, a);
            }
        } else {
            assert(after[a] == rows[a] && after[b] == rows[b]);
        }
    }
}

/// The index proper. Every change goes through its methods, which keep
/// paths and contents bound one to one.
pub struct LocalIndex {
    entries: Vec<IndexEntry>,
}

impl View for LocalIndex {
    type V = Seq<Entry>;

    closed spec fn view(&self) -> Seq<Entry> {
        self.entries@.map_values(|e: IndexEntry| e@)
    }
}

impl LocalIndex {
    /// Paths and contents are bound one to one.
    pub open spec fn wf(&self) -> bool {
        is_index(self@)
    }

    /// An index without rows.
    pub fn new() -> (index: LocalIndex)
        ensures
            index@ == Seq::<Entry>::empty(),
            index.wf(),
    {
        let index = LocalIndex { entries: Vec::new() };
        assert(index@ =~= Seq::<Entry>::empty());
        index
    }

    /// The number of rows.
    pub fn len(&self) -> (n: usize)
        ensures
            n == self@.len(),
    {
        self.entries.len()
    }

    fn find_path(&self, relative_path: &String) -> (found: Option<usize>)
        ensures
            match found {
                Some(i) => i < self@.len() && self@[i as int].path == relative_path@,
                None => !knows_path(self@, relative_path@),
            },
    {
        let mut i: usize = 0;
        while i < self.entries.len()
            invariant
                i <= self.entries.len(),
                forall|j: int| 0 <= j < i ==> (#[trigger] self@[j]).path != relative_path@,
            decreases self.entries.len() - i,
        {
            if self.entries[i].relative_path == *relative_path {
                return Some(i);
            }
            i += 1;
        }
        None
    }

    fn find_id(&self, content_id: ContentId) -> (found: Option<usize>)
        ensures
            match found {
                Some(i) => i < self@.len() && self@[i as int].content_id == content_id,
                None => !knows_id(self@, content_id),
            },
    {
        let mut i: usize = 0;
        while i < self.entries.len()
            invariant
                i <= self.entries.len(),
                forall|j: int| 0 <= j < i ==> (#[trigger] self@[j]).content_id != content_id,
            decreases self.entries.len() - i,
        {
            if self.entries[i].content_id == content_id {
                return Some(i);
            }
            i += 1;
        }
        None
    }

    /// Whether the path is bound to a content.
    pub fn relative_path_is_known(&self, relative_path: &String) -> (known: bool)
        ensures
            known == knows_path(self@, relative_path@),
    {
        self.find_path(relative_path).is_some()
    }

    /// Whether the content is bound to a path.
    pub fn content_id_is_known(&self, content_id: ContentId) -> (known: bool)
        ensures
            known == knows_id(self@, content_id),
    {
        self.find_id(content_id).is_some()
    }

    /// The content that the path is bound to. A path that is not indexed is
    /// reported as such, and carried in the failure.
    pub fn get_content_id_from_path(&self, relative_path: &String) -> (found: Result<ContentId, Error>)
        requires
            self.wf(),
        ensures
            match found {
                Ok(content_id) => knows_path(self@, relative_path@) && content_id
                    == self@[path_row(self@, relative_path@)].content_id,
                Err(Error::UnIndexedRelativePath(path)) => !knows_path(self@, relative_path@)
                    && path@ == relative_path@,
                Err(_) => false,
            },
    {
        match self.find_path(relative_path) {
            Some(i) => {
                proof {
                    lemma_path_row(self@, i as int);
                }
                Ok(self.entries[i].content_id)
            },
            None => Err(Error::UnIndexedRelativePath(relative_path.clone())),
        }
    }

    /// The path that the content is bound to.
    pub fn get_path_from_content_id(&self, content_id: ContentId) -> (found: Result<String, Error>)
        requires
            self.wf(),
        ensures
            match found {
                Ok(path) => knows_id(self@, content_id) && path@
                    == self@[id_row(self@, content_id)].path,
                Err(Error::UnexpectedError(text)) => !knows_id(self@, content_id) && text@
                    == "content is not indexed"@,
                Err(_) => false,
            },
    {
        match self.find_id(content_id) {
            Some(i) => {
                proof {
                    lemma_path_row(self@, i as int);
                }
                Ok(self.entries[i].relative_path.clone())
            },
            None => Err(Error::UnexpectedError("content is not indexed".to_owned())),
        }
    }

    /// The time at which the file at this path was last reconciled.
    pub fn get_last_modified_ms(&self, relative_path: &String) -> (found: Result<u64, Error>)
        requires
            self.wf(),
        ensures
            match found {
                Ok(ms) => knows_path(self@, relative_path@) && ms
                    == self@[path_row(self@, relative_path@)].last_modified_ms,
                Err(Error::UnIndexedRelativePath(path)) => !knows_path(self@, relative_path@)
                    && path@ == relative_path@,
                Err(_) => false,
            },
    {
        match self.find_path(relative_path) {
            Some(i) => {
                proof {
                    lemma_path_row(self@, i as int);
                }
                Ok(self.entries[i].last_modified_ms)
            },
            None => Err(Error::UnIndexedRelativePath(relative_path.clone())),
        }
    }

    /// Every indexed path, in the order in which the rows were inserted.
    pub fn get_all_relative_paths(&self) -> (paths: Vec<String>)
        ensures
            paths@.len() == self@.len(),
            forall|i: int| 0 <= i < self@.len() ==> (#[trigger] paths@[i])@ == self@[i].path,
    {
        let mut paths: Vec<String> = Vec::new();
        let mut i: usize = 0;
        while i < self.entries.len()
            invariant
                i <= self.entries.len(),
                paths@.len() == i,
                forall|j: int| 0 <= j < i ==> (#[trigger] paths@[j])@ == self@[j].path,
            decreases self.entries.len() - i,
        {
            paths.push(self.entries[i].relative_path.clone());
            i += 1;
        }
        paths
    }

    /// Every row, in the order in which the rows were inserted.
    pub fn entries(&self) -> (rows: Vec<IndexEntry>)
        ensures
            rows@.len() == self@.len(),
            forall|i: int| 0 <= i < self@.len() ==> (#[trigger] rows@[i])@ == self@[i],
    {
        let mut rows: Vec<IndexEntry> = Vec::new();
        let mut i: usize = 0;
        while i < self.entries.len()
            invariant
                i <= self.entries.len(),
                rows@.len() == i,
                forall|j: int| 0 <= j < i ==> (#[trigger] rows@[j])@ == self@[j],
            decreases self.entries.len() - i,
        {
            rows.push(self.entries[i].clone());
            i += 1;
        }
        rows
    }

    /// Binds a path to a content. Refused, with the index unchanged, where
    /// the path or the content is bound already.
    pub fn insert_new_file(
        &mut self,
        relative_path: String,
        last_modified_ms: u64,
        content_id: ContentId,
        revision_id: RevisionId,
    ) -> (done: Result<(), Error>)
        requires
            old(self).wf(),
        ensures
            final(self).wf(),
            match done {
                Ok(_) => can_insert(old(self)@, relative_path@, content_id) && final(self)@
                    == old(self)@.push(
                    Entry { path: relative_path@, content_id, revision_id, last_modified_ms },
                ),
                Err(Error::UnexpectedError(text)) => !can_insert(
                    old(self)@,
                    relative_path@,
                    content_id,
                ) && final(self)@ == old(self)@ && text@ == "path or content is indexed already"@,
                Err(_) => false,
            },
    {
        if self.find_path(&relative_path).is_some() || self.find_id(content_id).is_some() {
            return Err(Error::UnexpectedError("path or content is indexed already".to_owned()));
        }
        let row = IndexEntry { relative_path, content_id, revision_id, last_modified_ms };
        proof {
            lemma_insert_keeps_index(self@, row@);
        }
        self.entries.push(row);
        assert(self@ =~= old(self)@.push(row@));
        Ok(())
    }

    /// Moves a content to another path. Refused, with the index unchanged,
    /// where the content is unknown or another content has the path.
    pub fn update_relative_path(&mut self, content_id: ContentId, relative_path: String) -> (done:
        Result<(), Error>)
        requires
            old(self).wf(),
        ensures
            final(self).wf(),
            match done {
                Ok(_) => can_move(old(self)@, content_id, relative_path@) && final(self)@ == moved(
                    old(self)@,
                    content_id,
                    relative_path@,
                ),
                Err(Error::UnexpectedError(text)) => !can_move(
                    old(self)@,
                    content_id,
                    relative_path@,
                ) && final(self)@ == old(self)@ && text@
                    == "content is not indexed or path is taken"@,
                Err(_) => false,
            },
    {
        let at: Option<usize> = self.find_id(content_id);
        let taken: Option<usize> = self.find_path(&relative_path);
        match at {
            Some(i) => {
                proof {
                    lemma_path_row(self@, i as int);
                }
                let free: bool = match taken {
                    Some(j) => {
                        proof {
                            lemma_path_row(self@, j as int);
                        }
                        j == i
                    },
                    None => true,
                };
                if free {
                    let row = IndexEntry {
                        relative_path,
                        content_id: self.entries[i].content_id,
                        revision_id: self.entries[i].revision_id,
                        last_modified_ms: self.entries[i].last_modified_ms,
                    };
                    proof {
                        lemma_move_keeps_index(self@, content_id, relative_path@);
                    }
                    self.entries.set(i, row);
                    assert(self@ =~= moved(old(self)@, content_id, relative_path@));
                    Ok(())
                } else {
                    Err(
                        Error::UnexpectedError(
                            "content is not indexed or path is taken".to_owned(),
                        ),
                    )
                }
            },
            None => Err(
                Error::UnexpectedError("content is not indexed or path is taken".to_owned()),
            ),
        }
    }

    /// Records the revision that the content at this path has reached.
    pub fn update_revision_id(&mut self, relative_path: &String, revision_id: RevisionId) -> (done:
        Result<(), Error>)
        requires
            old(self).wf(),
        ensures
            final(self).wf(),
            match done {
                Ok(_) => knows_path(old(self)@, relative_path@) && final(self)@ == revised(
                    old(self)@,
                    relative_path@,
                    revision_id,
                ),
                Err(Error::UnIndexedRelativePath(path)) => !knows_path(old(self)@, relative_path@)
                    && final(self)@ == old(self)@ && path@ == relative_path@,
                Err(_) => false,
            },
    {
        match self.find_path(relative_path) {
            Some(i) => {
                let row = IndexEntry {
                    relative_path: self.entries[i].relative_path.clone(),
                    content_id: self.entries[i].content_id,
                    revision_id,
                    last_modified_ms: self.entries[i].last_modified_ms,
                };
                proof {
                    lemma_path_row(self@, i as int);
                    lemma_update_keeps_index(self@, i as int, row@);
                }
                self.entries.set(i, row);
                assert(self@ =~= revised(old(self)@, relative_path@, revision_id));
                Ok(())
            },
            None => Err(Error::UnIndexedRelativePath(relative_path.clone())),
        }
    }

    /// Records the time at which the file at this path was reconciled.
    pub fn update_last_modified_timestamp(
        &mut self,
        relative_path: &String,
        last_modified_ms: u64,
    ) -> (done: Result<(), Error>)
        requires
            old(self).wf(),
        ensures
            final(self).wf(),
            match done {
                Ok(_) => knows_path(old(self)@, relative_path@) && final(self)@ == touched(
                    old(self)@,
                    relative_path@,
                    last_modified_ms,
                ),
                Err(Error::UnIndexedRelativePath(path)) => !knows_path(old(self)@, relative_path@)
                    && final(self)@ == old(self)@ && path@ == relative_path@,
                Err(_) => false,
            },
    {
        match self.find_path(relative_path) {
            Some(i) => {
                let row = IndexEntry {
                    relative_path: self.entries[i].relative_path.clone(),
                    content_id: self.entries[i].content_id,
                    revision_id: self.entries[i].revision_id,
                    last_modified_ms,
                };
                proof {
                    lemma_path_row(self@, i as int);
                    lemma_update_keeps_index(self@, i as int, row@);
                }
                self.entries.set(i, row);
                assert(self@ =~= touched(old(self)@, relative_path@, last_modified_ms));
                Ok(())
            },
            None => Err(Error::UnIndexedRelativePath(relative_path.clone())),
        }
    }

    /// Takes the row of this content out, if there is one.
    pub fn delete_file(&mut self, content_id: ContentId)
        requires
            old(self).wf(),
        ensures
            final(self).wf(),
            final(self)@ == without(old(self)@, content_id),
            !knows_id(final(self)@, content_id),
    {
        match self.find_id(content_id) {
            Some(i) => {
                proof {
                    lemma_path_row(self@, i as int);
                    lemma_update_keeps_index(self@, i as int, self@[i as int]);
                    lemma_without_forgets(self@, content_id);
                }
                self.entries.remove(i);
                assert(self@ =~= without(old(self)@, content_id));
            },
            None => {},
        }
    }
}

/// After the removal of a content's row no row has that content, and
/// every other content keeps its row.
pub proof fn lemma_without_forgets(rows: Seq<Entry>, content_id: ContentId)
    requires
        is_index(rows),
    ensures
        !knows_id(without(rows, content_id), content_id),
        forall|other: ContentId|
            other != content_id ==> (knows_id(without(rows, content_id), other) == knows_id(
                rows,
                other,
            )),
{
    let after = without(rows, content_id);
    if knows_id(rows, content_id) {
        let i = id_row(rows, content_id);
        assert forall|k: int| 0 <= k < after.len() implies (#[trigger] after[k]).content_id
            != content_id by {
            let k0 = if k < i {
                k
            } else {
                k + 1
            };
            assert(after[k] == rows[k0]);
            if k0 < i {
                assert(rows[k0].content_id != rows[i].content_id);
            } else {
                assert(rows[i].content_id != rows[k0].content_id);
            }
        }
        assert forall|other: ContentId| other != content_id implies (knows_id(after, other)
            == knows_id(rows, other)) by {
            if knows_id(rows, other) {
                let k = id_row(rows, other);
                let k1 = if k < i {
                    k
                } else {
                    k - 1
                };
                assert(after[k1] == rows[k]);
            }
            if knows_id(after, other) {
                let k = id_row(after, other);
                let k0 = if k < i {
                    k
                } else {
                    k + 1
                };
                assert(after[k] == rows[k0]);
            }
        }
    }
}

} // verus!
