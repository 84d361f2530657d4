//! What holds of the handler's state from one step to the next: echoes
//! cancel predictions, renames compose, expected contents are indexed,
//! and directories are indexed before what they hold.

use vstd::prelude::*;
use crate::handler::created_on_hub;
use crate::handler::creation_echoes;
use crate::handler::expecting;
use crate::handler::received;
use crate::handler::step_for;
use crate::handler::State;
use crate::handler::Step;
use crate::index::can_move;
use crate::index::has_child;
use crate::index::id_row;
use crate::index::is_index;
use crate::index::knows_id;
use crate::index::knows_path;
use crate::index::lemma_move_keeps_index;
use crate::index::lemma_path_row;
use crate::index::moved;
use crate::index::parents_indexed;
use crate::index::path_row;
use crate::index::revised;
use crate::index::without;
use crate::index::Entry;
use crate::operation::lemma_consume_takes_one;
use crate::operation::Message;
use crate::path::parent_of;
use crate::types::ContentId;
use crate::types::ContentType;
use crate::types::RevisionId;

verus! {

/// A local creation and its echoes leave no trace but the new row: once
/// the hub has created the content, the creation that the hub reports,
/// and for a file the modification that follows it, are each dropped on
/// arrival, the index stays as the creation left it, and the list of
/// expected echoes holds again what it held before.
pub proof fn lemma_local_round_trip(state: State, row: Entry, content_type: ContentType)
    ensures
        ({
            let created = created_on_hub(state, row, content_type);
            let creation = Message::NewRemoteFile(row.content_id);
            let upload = Message::ModifiedRemoteFile(row.content_id);
            let once = received(created, creation);
            let twice = received(once, upload);
            &&& step_for(created, creation) == Step::Skip
            &&& once.rows == created.rows
            &&& content_type == ContentType::Folder ==> once.expected.to_multiset()
                == state.expected.to_multiset()
            &&& content_type == ContentType::File ==> step_for(once, upload) == Step::Skip
                && twice.rows == created.rows && twice.expected.to_multiset()
                == state.expected.to_multiset()
        }),
{
    broadcast use vstd::seq_lib::group_to_multiset_ensures;

    let created = created_on_hub(state, row, content_type);
    let creation = Message::NewRemoteFile(row.content_id);
    let upload = Message::ModifiedRemoteFile(row.content_id);
    let once = received(created, creation);
    let twice = received(once, upload);
    let base = state.expected;
    assert(created.expected[base.len() as int] == creation);
    lemma_consume_takes_one(created.expected, creation);
    if content_type == ContentType::File {
        assert(created.expected =~= base.push(creation).push(upload));
        vstd::seq_lib::to_multiset_build(base, creation);
        vstd::seq_lib::to_multiset_build(base.push(creation), upload);
        assert(once.expected.to_multiset() =~= base.to_multiset().insert(upload));
        assert(once.expected.to_multiset().count(upload) > 0);
        assert(once.expected.contains(upload));
        lemma_consume_takes_one(once.expected, upload);
        assert(twice.expected.to_multiset() =~= base.to_multiset());
    } else {
        assert(created.expected =~= base.push(creation));
        vstd::seq_lib::to_multiset_build(base, creation);
        assert(once.expected.to_multiset() =~= base.to_multiset());
    }
}

/// A remote creation and its echo leave no trace but the new row: once
/// the content is on disk and bound to its path, the local creation that
/// the watcher reports is dropped on arrival, the index stays as it was,
/// and the list of expected echoes holds again what it held before.
pub proof fn lemma_remote_round_trip(state: State, row: Entry)
    ensures
        ({
            let echo = Message::NewLocalFile(row.path);
            let written = State {
                rows: state.rows.push(row),
                expected: expecting(state, echo).expected,
            };
            let after = received(written, echo);
            &&& step_for(written, echo) == Step::Skip
            &&& after.rows == written.rows
            &&& after.expected.to_multiset() == state.expected.to_multiset()
        }),
{
    broadcast use vstd::seq_lib::group_to_multiset_ensures;

    let echo = Message::NewLocalFile(row.path);
    let written = State { rows: state.rows.push(row), expected: expecting(state, echo).expected };
    let after = received(written, echo);
    assert(written.expected[state.expected.len() as int] == echo);
    lemma_consume_takes_one(written.expected, echo);
    vstd::seq_lib::to_multiset_build(state.expected, echo);
    assert(after.expected.to_multiset() =~= state.expected.to_multiset());
}

/// The rows after a local rename from `before` to `after` was reconciled
/// and the hub reported `revision_id`: the content of `before` is at
/// `after`; where `before` is not indexed, or the index refuses the move,
/// the rows are as they were.
pub open spec fn renamed(
    rows: Seq<Entry>,
    before: Seq<char>,
    after: Seq<char>,
    revision_id: RevisionId,
) -> Seq<Entry> {
    let content_id = rows[path_row(rows, before)].content_id;
    if knows_path(rows, before) && can_move(rows, content_id, after) {
        revised(moved(rows, content_id, after), after, revision_id)
    } else {
        rows
    }
}

/// A change of revision keeps paths and contents bound one to one, and
/// keeps every path.
proof fn lemma_revised_keeps_index(rows: Seq<Entry>, path: Seq<char>, revision_id: RevisionId)
    requires
        is_index(rows),
        knows_path(rows, path),
    ensures
        is_index(revised(rows, path, revision_id)),
        revised(rows, path, revision_id).len() == rows.len(),
        forall|k: int|
            0 <= k < rows.len() ==> (#[trigger] revised(rows, path, revision_id)[k]).path
                == rows[k].path && revised(rows, path, revision_id)[k].content_id
                == rows[k].content_id,
{
    let i = path_row(rows, path);
    let after = revised(rows, path, revision_id);
    crate::index::lemma_update_keeps_index(rows, i, after[i]);
    assert(after =~= rows.update(i, after[i]));
}

/// A rename followed by the rename back leaves the index as it was, but
/// for the revision of the content that was renamed.
pub proof fn lemma_rename_there_and_back(
    rows: Seq<Entry>,
    here: Seq<char>,
    there: Seq<char>,
    first_revision: RevisionId,
    last_revision: RevisionId,
)
    requires
        is_index(rows),
        knows_path(rows, here),
    ensures
        ({
            let away = renamed(rows, here, there, first_revision);
            let back = renamed(away, there, here, last_revision);
            &&& is_index(away)
            &&& back == rows || back == revised(rows, here, last_revision)
        }),
{
    let i = path_row(rows, here);
    let content_id = rows[i].content_id;
    lemma_path_row(rows, i);
    let away = renamed(rows, here, there, first_revision);
    let back = renamed(away, there, here, last_revision);
    if can_move(rows, content_id, there) {
        let gone = moved(rows, content_id, there);
        lemma_move_keeps_index(rows, content_id, there);
        assert(gone[i].path == there);
        lemma_path_row(gone, i);
        lemma_revised_keeps_index(gone, there, first_revision);
        assert(away[i].path == there && away[i].content_id == content_id);
        lemma_path_row(away, i);
        assert(can_move(away, content_id, here)) by {
            if knows_path(away, here) {
                let k = path_row(away, here);
                assert(away[k].path == here);
                if k != i {
                    assert(away[k].path == rows[k].path);
                    lemma_path_row(rows, k);
                }
            }
        }
        let home = moved(away, content_id, here);
        lemma_move_keeps_index(away, content_id, here);
        assert(home[i].path == here);
        lemma_path_row(home, i);
        assert(back =~= revised(rows, here, last_revision));
    } else {
        assert(away == rows);
        if knows_path(rows, there) {
            let j = path_row(rows, there);
            assert(rows[j].path == there);
            lemma_path_row(rows, j);
            assert(rows[j].content_id != content_id);
            assert(!can_move(rows, rows[j].content_id, here));
        }
    }
}

/// Every creation or modification that the handler expects from the hub
/// is about a content that the index has.
pub open spec fn expected_contents_indexed(state: State) -> bool {
    forall|i: int|
        0 <= i < state.expected.len() ==> match #[trigger] state.expected[i] {
            Message::NewRemoteFile(content_id) => knows_id(state.rows, content_id),
            Message::ModifiedRemoteFile(content_id) => knows_id(state.rows, content_id),
            _ => true,
        }
}

/// Whether a creation or a modification of this content is expected.
pub open spec fn expects_content(expected: Seq<Message>, content_id: ContentId) -> bool {
    expected.contains(Message::NewRemoteFile(content_id)) || expected.contains(
        Message::ModifiedRemoteFile(content_id),
    )
}

/// The rows `after` have every content that the rows `before` have.
pub open spec fn keeps_contents(before: Seq<Entry>, after: Seq<Entry>) -> bool {
    forall|content_id: ContentId|
        knows_id(before, content_id) ==> #[trigger] knows_id(after, content_id)
}

/// The expected contents stay indexed while the index loses no content
/// and the only new expectations are about contents that it has:
/// whatever the handler does to the rows of known contents, and whichever
/// echoes arrive.
pub proof fn lemma_expected_contents_stay_indexed(before: State, after: State)
    requires
        expected_contents_indexed(before),
        keeps_contents(before.rows, after.rows),
        forall|i: int|
            0 <= i < after.expected.len() ==> before.expected.contains(#[trigger] after.expected[i])
                || (match after.expected[i] {
                Message::NewRemoteFile(content_id) => knows_id(after.rows, content_id),
                Message::ModifiedRemoteFile(content_id) => knows_id(after.rows, content_id),
                _ => true,
            }),
    ensures
        expected_contents_indexed(after),
{
    assert forall|i: int| 0 <= i < after.expected.len() implies match #[trigger] after.expected[i] {
        Message::NewRemoteFile(content_id) => knows_id(after.rows, content_id),
        Message::ModifiedRemoteFile(content_id) => knows_id(after.rows, content_id),
        _ => true,
    } by {
        let m = after.expected[i];
        if before.expected.contains(m) {
            let k = choose|k: int| 0 <= k < before.expected.len() && before.expected[k] == m;
            assert(before.expected[k] == m);
            match m {
                Message::NewRemoteFile(content_id) => {
                    assert(knows_id(before.rows, content_id));
                },
                Message::ModifiedRemoteFile(content_id) => {
                    assert(knows_id(before.rows, content_id));
                },
                _ => {},
            }
        }
    }
}

/// A new expectation keeps the expected contents indexed where it is
/// about a content that the index has, or about the disk.
pub proof fn lemma_expectation_keeps_expected_indexed(state: State, message: Message)
    requires
        expected_contents_indexed(state),
        match message {
            Message::NewRemoteFile(content_id) => knows_id(state.rows, content_id),
            Message::ModifiedRemoteFile(content_id) => knows_id(state.rows, content_id),
            _ => true,
        },
    ensures
        expected_contents_indexed(expecting(state, message)),
{
    let after = expecting(state, message);
    assert forall|i: int| 0 <= i < after.expected.len() implies state.expected.contains(
        #[trigger] after.expected[i],
    ) || (match after.expected[i] {
        Message::NewRemoteFile(content_id) => knows_id(after.rows, content_id),
        Message::ModifiedRemoteFile(content_id) => knows_id(after.rows, content_id),
        _ => true,
    }) by {
        if i < state.expected.len() {
            assert(state.expected[i] == after.expected[i]);
        }
    }
    lemma_expected_contents_stay_indexed(state, after);
}

/// A change of one row that keeps its content keeps every content: a
/// move, a new revision, a new time.
pub proof fn lemma_update_keeps_contents(rows: Seq<Entry>, i: int, row: Entry)
    requires
        0 <= i < rows.len(),
        row.content_id == rows[i].content_id,
    ensures
        keeps_contents(rows, rows.update(i, row)),
{
    let after = rows.update(i, row);
    assert forall|content_id: ContentId| knows_id(rows, content_id) implies #[trigger] knows_id(
        after,
        content_id,
    ) by {
        let k = id_row(rows, content_id);
        assert(after[k].content_id == rows[k].content_id);
    }
}

/// A creation on the hub keeps the expected contents indexed: the echoes
/// that it predicts are about the content of the new row.
pub proof fn lemma_creation_keeps_expected_indexed(
    state: State,
    row: Entry,
    content_type: ContentType,
)
    requires
        expected_contents_indexed(state),
    ensures
        expected_contents_indexed(created_on_hub(state, row, content_type)),
{
    let after = created_on_hub(state, row, content_type);
    assert(after.rows[state.rows.len() as int] == row);
    assert forall|content_id: ContentId| knows_id(state.rows, content_id) implies #[trigger] knows_id(
        after.rows,
        content_id,
    ) by {
        let k = id_row(state.rows, content_id);
        assert(after.rows[k] == state.rows[k]);
    }
    assert forall|i: int| 0 <= i < after.expected.len() implies state.expected.contains(
        #[trigger] after.expected[i],
    ) || (match after.expected[i] {
        Message::NewRemoteFile(content_id) => knows_id(after.rows, content_id),
        Message::ModifiedRemoteFile(content_id) => knows_id(after.rows, content_id),
        _ => true,
    }) by {
        if i < state.expected.len() {
            assert(state.expected[i] == after.expected[i]);
        } else {
            let echoes = creation_echoes(row.content_id, content_type);
            assert(after.expected[i] == echoes[i - state.expected.len()]);
        }
    }
    lemma_expected_contents_stay_indexed(state, after);
}

/// An arriving message keeps the expected contents indexed: it only takes
/// an expectation away.
pub proof fn lemma_arrival_keeps_expected_indexed(state: State, message: Message)
    requires
        expected_contents_indexed(state),
    ensures
        expected_contents_indexed(received(state, message)),
{
    let after = received(state, message);
    state.expected.index_of_first_ensures(message);
    assert forall|i: int| 0 <= i < after.expected.len() implies state.expected.contains(
        #[trigger] after.expected[i],
    ) by {
        match state.expected.index_of_first(message) {
            Some(k) => {
                let i0 = if i < k {
                    i
                } else {
                    i + 1
                };
                assert(after.expected[i] == state.expected[i0]);
            },
            None => {
                assert(after.expected[i] == state.expected[i]);
            },
        }
    }
    lemma_expected_contents_stay_indexed(state, after);
}

/// The removal of a content's row keeps the expected contents indexed
/// where no creation and no modification of that content is expected.
pub proof fn lemma_removal_keeps_expected_indexed(state: State, content_id: ContentId)
    requires
        is_index(state.rows),
        expected_contents_indexed(state),
        !expects_content(state.expected, content_id),
    ensures
        expected_contents_indexed(
            State {
                rows: without(state.rows, content_id),
                expected: state.expected.push(Message::DeletedRemoteFile(content_id)),
            },
        ),
        expected_contents_indexed(State { rows: without(state.rows, content_id), ..state }),
{
    crate::index::lemma_without_forgets(state.rows, content_id);
    let rows = without(state.rows, content_id);
    let pushed = state.expected.push(Message::DeletedRemoteFile(content_id));
    assert forall|i: int| 0 <= i < state.expected.len() implies match #[trigger] state.expected[i] {
        Message::NewRemoteFile(other) => knows_id(rows, other),
        Message::ModifiedRemoteFile(other) => knows_id(rows, other),
        _ => true,
    } by {
        match state.expected[i] {
            Message::NewRemoteFile(other) => {
                assert(state.expected.contains(Message::NewRemoteFile(other)));
                assert(other != content_id);
            },
            Message::ModifiedRemoteFile(other) => {
                assert(state.expected.contains(Message::ModifiedRemoteFile(other)));
                assert(other != content_id);
            },
            _ => {},
        }
    }
    assert forall|i: int| 0 <= i < pushed.len() implies match #[trigger] pushed[i] {
        Message::NewRemoteFile(other) => knows_id(rows, other),
        Message::ModifiedRemoteFile(other) => knows_id(rows, other),
        _ => true,
    } by {
        if i < state.expected.len() {
            assert(pushed[i] == state.expected[i]);
        }
    }
}

/// A new row keeps every directory indexed before what it holds, where
/// the row sits at the root or its directory is indexed.
pub proof fn lemma_insert_keeps_parents(rows: Seq<Entry>, row: Entry)
    requires
        parents_indexed(rows),
        parent_of(row.path).is_some() ==> knows_path(rows, parent_of(row.path).unwrap()),
    ensures
        parents_indexed(rows.push(row)),
{
    let after = rows.push(row);
    assert forall|i: int|
        0 <= i < after.len() && parent_of((#[trigger] after[i]).path).is_some() implies knows_path(
        after,
        parent_of(after[i].path).unwrap(),
    ) by {
        let directory = parent_of(after[i].path).unwrap();
        if i < rows.len() {
            assert(after[i] == rows[i]);
        }
        assert(knows_path(rows, directory));
        let k = path_row(rows, directory);
        assert(after[k] == rows[k]);
    }
}

/// A change that keeps every path keeps every directory indexed before
/// what it holds: a new revision, a new time.
pub proof fn lemma_same_paths_keep_parents(before: Seq<Entry>, after: Seq<Entry>)
    requires
        parents_indexed(before),
        before.len() == after.len(),
        forall|i: int| 0 <= i < before.len() ==> (#[trigger] after[i]).path == before[i].path,
    ensures
        parents_indexed(after),
{
    assert forall|i: int|
        0 <= i < after.len() && parent_of((#[trigger] after[i]).path).is_some() implies knows_path(
        after,
        parent_of(after[i].path).unwrap(),
    ) by {
        let directory = parent_of(after[i].path).unwrap();
        assert(after[i].path == before[i].path);
        assert(parent_of(before[i].path).is_some());
        assert(knows_path(before, directory));
        let k = path_row(before, directory);
        assert(after[k].path == before[k].path);
    }
}

/// The removal of a row keeps every directory indexed before what it
/// holds, where no row lies in the directory that leaves.
pub proof fn lemma_removal_keeps_parents(rows: Seq<Entry>, content_id: ContentId)
    requires
        is_index(rows),
        parents_indexed(rows),
        knows_id(rows, content_id) ==> !has_child(rows, rows[id_row(rows, content_id)].path),
    ensures
        parents_indexed(without(rows, content_id)),
{
    if knows_id(rows, content_id) {
        let gone = id_row(rows, content_id);
        let after = without(rows, content_id);
        assert forall|i: int|
            0 <= i < after.len() && parent_of((#[trigger] after[i]).path).is_some() implies knows_path(
            after,
            parent_of(after[i].path).unwrap(),
        ) by {
            let i0 = if i < gone {
                i
            } else {
                i + 1
            };
            assert(after[i] == rows[i0]);
            let directory = parent_of(rows[i0].path).unwrap();
            assert(knows_path(rows, directory));
            let k = path_row(rows, directory);
            assert(k != gone) by {
                if k == gone {
                    assert(parent_of(rows[i0].path) == Some(rows[gone].path));
                    assert(has_child(rows, rows[gone].path));
                }
            }
            let k1 = if k < gone {
                k
            } else {
                k - 1
            };
            assert(after[k1] == rows[k]);
        }
    }
}

/// A move keeps every directory indexed before what it holds, where no
/// row lies in the path that is left, and the new path is at the root or
/// in an indexed directory other than the path that is left.
pub proof fn lemma_move_keeps_parents(rows: Seq<Entry>, content_id: ContentId, path: Seq<char>)
    requires
        is_index(rows),
        parents_indexed(rows),
        knows_id(rows, content_id),
        !has_child(rows, rows[id_row(rows, content_id)].path),
        parent_of(path).is_some() ==> knows_path(rows, parent_of(path).unwrap()) && parent_of(path)
            != Some(rows[id_row(rows, content_id)].path),
    ensures
        parents_indexed(moved(rows, content_id, path)),
{
    let at = id_row(rows, content_id);
    let after = moved(rows, content_id, path);
    assert forall|i: int|
        0 <= i < after.len() && parent_of((#[trigger] after[i]).path).is_some() implies knows_path(
        after,
        parent_of(after[i].path).unwrap(),
    ) by {
        let directory = parent_of(after[i].path).unwrap();
        if i != at {
            assert(after[i] == rows[i]);
            assert(knows_path(rows, directory));
        }
        let k = path_row(rows, directory);
        assert(rows[k].path == directory);
        assert(k != at) by {
            if k == at && i != at {
                assert(parent_of(rows[i].path) == Some(rows[at].path));
                assert(has_child(rows, rows[at].path));
            }
        }
        assert(after[k] == rows[k]);
    }
}

} // verus!
