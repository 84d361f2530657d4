use trsync::error::ClientError;
use trsync::error::Error;
use trsync::handler::Destination;
use trsync::handler::NewLocalPlan;
use trsync::handler::OperationalHandler;
use trsync::handler::RemoteChange;
use trsync::handler::Step;
use trsync::handler::MAX_PARENT_DEPTH;
use trsync::index::LocalIndex;
use trsync::operation::OperationalMessage;
use trsync::types::ContentType;
use trsync::types::ParentIdParameter;
use trsync::types::RemoteContent;

fn s(text: &str) -> String {
    text.to_string()
}

fn handler_with(rows: &[(&str, u64, i32, i32)]) -> OperationalHandler {
    let mut index = LocalIndex::new();
    for (path, ms, id, rev) in rows {
        index.insert_new_file(s(path), *ms, *id, *rev).unwrap();
    }
    OperationalHandler::new(index)
}

fn rows(handler: &OperationalHandler) -> Vec<(String, i32, i32, u64)> {
    handler
        .index()
        .entries()
        .into_iter()
        .map(|r| (r.relative_path, r.content_id, r.revision_id, r.last_modified_ms))
        .collect()
}

fn expected(handler: &OperationalHandler) -> Vec<OperationalMessage> {
    handler.ignore_messages().messages()
}

fn remote(id: i32, parent: Option<i32>, name: &str, kind: ContentType, rev: i32) -> RemoteContent {
    RemoteContent {
        content_id: id,
        parent_id: parent,
        filename: s(name),
        content_type: kind,
        current_revision_id: rev,
    }
}

#[test]
fn new_handler_keeps_index_and_expects_nothing() {
    let handler = handler_with(&[("a", 1, 2, 3)]);
    assert_eq!(rows(&handler), vec![(s("a"), 2, 3, 1)]);
    assert!(expected(&handler).is_empty());
}

#[test]
fn receive_handles_unexpected_message() {
    let mut handler = handler_with(&[]);
    assert_eq!(handler.receive(&OperationalMessage::NewLocalFile(s("a.txt"))), Step::Handle);
    assert_eq!(handler.receive(&OperationalMessage::ModifiedRemoteFile(3)), Step::Handle);
    assert_eq!(
        handler.receive(&OperationalMessage::RenamedLocalFile(s("a"), s("b"))),
        Step::Handle
    );
}

#[test]
fn receive_stops_on_exit() {
    let mut handler = handler_with(&[]);
    assert_eq!(handler.receive(&OperationalMessage::Exit), Step::Stop);
}

#[test]
fn receive_skips_filtered_names() {
    let mut handler = handler_with(&[]);
    assert_eq!(handler.receive(&OperationalMessage::NewLocalFile(s(".git"))), Step::Skip);
    assert_eq!(handler.receive(&OperationalMessage::ModifiedLocalFile(s("a/b.txt~"))), Step::Skip);
    assert_eq!(handler.receive(&OperationalMessage::DeletedLocalFile(s("a/.b"))), Step::Skip);
    assert_eq!(handler.receive(&OperationalMessage::NewLocalFile(s(".a/b"))), Step::Handle);
}

#[test]
fn receive_does_not_filter_renames() {
    let mut handler = handler_with(&[]);
    assert_eq!(
        handler.receive(&OperationalMessage::RenamedLocalFile(s(".a"), s("b~"))),
        Step::Handle
    );
}

#[test]
fn receive_skips_expected_echo_once_per_prediction() {
    let mut handler = handler_with(&[("a.txt", 1, 5, 1)]);
    handler.begin_modified_local_file(&s("a.txt")).unwrap();
    handler.begin_modified_local_file(&s("a.txt")).unwrap();
    assert_eq!(expected(&handler).len(), 2);
    assert_eq!(handler.receive(&OperationalMessage::ModifiedRemoteFile(5)), Step::Skip);
    assert_eq!(expected(&handler).len(), 1);
    assert_eq!(handler.receive(&OperationalMessage::ModifiedRemoteFile(5)), Step::Skip);
    assert!(expected(&handler).is_empty());
    assert_eq!(handler.receive(&OperationalMessage::ModifiedRemoteFile(5)), Step::Handle);
}

#[test]
fn exit_stops_whatever_is_expected() {
    let mut handler = handler_with(&[]);
    handler.expect_overwrite(s("x"));
    assert_eq!(handler.receive(&OperationalMessage::Exit), Step::Stop);
    assert_eq!(expected(&handler), vec![OperationalMessage::ModifiedLocalFile(s("x"))]);
}

#[test]
fn ignore_message_agrees_with_receive() {
    let mut handler = handler_with(&[]);
    handler.expect_overwrite(s("x"));
    assert!(handler.ignore_message(&OperationalMessage::ModifiedLocalFile(s("x"))));
    assert!(!handler.ignore_message(&OperationalMessage::ModifiedLocalFile(s("x"))));
    assert!(handler.ignore_message(&OperationalMessage::ModifiedLocalFile(s(".x"))));
    assert!(!handler.ignore_message(&OperationalMessage::Exit));
}

#[test]
fn plan_new_local_file_of_indexed_path_is_modified() {
    let handler = handler_with(&[("a.txt", 1, 5, 1)]);
    assert!(matches!(handler.plan_new_local_file(&s("a.txt")), NewLocalPlan::Modified));
}

#[test]
fn plan_new_local_file_at_root_creates_at_root() {
    let handler = handler_with(&[]);
    assert!(matches!(handler.plan_new_local_file(&s("a.txt")), NewLocalPlan::Create(None)));
}

#[test]
fn plan_new_local_file_below_indexed_directory_creates_below_it() {
    let handler = handler_with(&[("docs", 1, 7, 1)]);
    assert!(matches!(
        handler.plan_new_local_file(&s("docs/a.txt")),
        NewLocalPlan::Create(Some(7))
    ));
}

#[test]
fn plan_new_local_file_below_unindexed_directory_asks_for_it_first() {
    let handler = handler_with(&[("docs", 1, 7, 1)]);
    match handler.plan_new_local_file(&s("docs/sub/a.txt")) {
        NewLocalPlan::ParentFirst(directory) => assert_eq!(directory, "docs/sub"),
        other => panic!("unexpected {:?}", other),
    }
}

#[test]
fn new_local_file_binds_created_file_and_expects_two_echoes() {
    let mut handler = handler_with(&[]);
    handler.new_local_file(s("a.txt"), ContentType::File, 10, Ok((5, 1))).unwrap();
    assert_eq!(rows(&handler), vec![(s("a.txt"), 5, 1, 10)]);
    assert_eq!(
        expected(&handler),
        vec![OperationalMessage::NewRemoteFile(5), OperationalMessage::ModifiedRemoteFile(5)]
    );
}

#[test]
fn new_local_file_binds_created_folder_and_expects_one_echo() {
    let mut handler = handler_with(&[]);
    handler.new_local_file(s("docs"), ContentType::Folder, 10, Ok((7, 1))).unwrap();
    assert_eq!(rows(&handler), vec![(s("docs"), 7, 1, 10)]);
    assert_eq!(expected(&handler), vec![OperationalMessage::NewRemoteFile(7)]);
}

#[test]
fn new_local_file_fails_on_hub_failure() {
    let mut handler = handler_with(&[]);
    let done = handler.new_local_file(
        s("a.txt"),
        ContentType::File,
        10,
        Err(ClientError::RequestError(s("timeout"))),
    );
    match done {
        Err(Error::FailToCreateContentOnRemote(text)) => {
            assert_eq!(text, "Error when making request : timeout")
        }
        other => panic!("unexpected {:?}", other),
    }
    assert!(rows(&handler).is_empty());
    assert!(expected(&handler).is_empty());
}

#[test]
fn new_local_file_refused_by_index_still_expects_echoes() {
    let mut handler = handler_with(&[("b.txt", 1, 5, 1)]);
    let done = handler.new_local_file(s("a.txt"), ContentType::File, 10, Ok((5, 2)));
    match done {
        Err(Error::UnexpectedError(text)) => assert_eq!(text, "path or content is indexed already"),
        other => panic!("unexpected {:?}", other),
    }
    assert_eq!(rows(&handler), vec![(s("b.txt"), 5, 1, 1)]);
    assert_eq!(
        expected(&handler),
        vec![OperationalMessage::NewRemoteFile(5), OperationalMessage::ModifiedRemoteFile(5)]
    );
}

#[test]
fn begin_modified_local_file_expects_remote_modification() {
    let mut handler = handler_with(&[("a.txt", 1, 5, 1)]);
    assert_eq!(handler.begin_modified_local_file(&s("a.txt")).unwrap(), 5);
    assert_eq!(expected(&handler), vec![OperationalMessage::ModifiedRemoteFile(5)]);
    assert_eq!(rows(&handler), vec![(s("a.txt"), 5, 1, 1)]);
}

#[test]
fn begin_modified_local_file_of_unindexed_path_fails() {
    let mut handler = handler_with(&[("a.txt", 1, 5, 1)]);
    match handler.begin_modified_local_file(&s("b.txt")) {
        Err(Error::UnIndexedRelativePath(path)) => assert_eq!(path, "b.txt"),
        other => panic!("unexpected {:?}", other),
    }
    assert!(expected(&handler).is_empty());
}

#[test]
fn modified_local_file_records_time_and_revision() {
    let mut handler = handler_with(&[("a.txt", 1, 5, 1), ("b.txt", 2, 6, 1)]);
    handler.modified_local_file(&s("a.txt"), 20, Ok(2)).unwrap();
    assert_eq!(rows(&handler), vec![(s("a.txt"), 5, 2, 20), (s("b.txt"), 6, 1, 2)]);
    assert!(expected(&handler).is_empty());
}

#[test]
fn modified_local_file_fails_on_hub_failure() {
    let mut handler = handler_with(&[("a.txt", 1, 5, 1)]);
    let done =
        handler.modified_local_file(&s("a.txt"), 20, Err(ClientError::NotFoundResponse(s("5"))));
    match done {
        Err(Error::NotFound(text)) => assert_eq!(text, "Not found : 5"),
        other => panic!("unexpected {:?}", other),
    }
    assert_eq!(rows(&handler), vec![(s("a.txt"), 5, 1, 1)]);
}

#[test]
fn modified_local_file_of_unindexed_path_fails() {
    let mut handler = handler_with(&[("a.txt", 1, 5, 1)]);
    match handler.modified_local_file(&s("b.txt"), 20, Ok(2)) {
        Err(Error::UnIndexedRelativePath(path)) => assert_eq!(path, "b.txt"),
        other => panic!("unexpected {:?}", other),
    }
    assert_eq!(rows(&handler), vec![(s("a.txt"), 5, 1, 1)]);
}

#[test]
fn plan_deleted_local_file_finds_content() {
    let handler = handler_with(&[("a.bin", 1, 11, 1)]);
    assert_eq!(handler.plan_deleted_local_file(&s("a.bin")).unwrap(), 11);
    match handler.plan_deleted_local_file(&s("b.bin")) {
        Err(Error::UnIndexedRelativePath(path)) => assert_eq!(path, "b.bin"),
        other => panic!("unexpected {:?}", other),
    }
}

#[test]
fn deleted_local_file_removes_row_and_expects_echo() {
    let mut handler = handler_with(&[("a.bin", 1, 11, 1), ("b.bin", 1, 12, 1)]);
    handler.deleted_local_file(11, Ok(())).unwrap();
    assert_eq!(rows(&handler), vec![(s("b.bin"), 12, 1, 1)]);
    assert_eq!(expected(&handler), vec![OperationalMessage::DeletedRemoteFile(11)]);
}

#[test]
fn deleted_local_file_keeps_row_on_hub_failure() {
    let mut handler = handler_with(&[("a.bin", 1, 11, 1)]);
    let done = handler.deleted_local_file(11, Err(ClientError::RequestError(s("down"))));
    match done {
        Err(Error::UnexpectedError(text)) => assert_eq!(text, "Error when making request : down"),
        other => panic!("unexpected {:?}", other),
    }
    assert_eq!(rows(&handler), vec![(s("a.bin"), 11, 1, 1)]);
    assert!(expected(&handler).is_empty());
}

#[test]
fn begin_renamed_local_file_in_same_directory_only_renames() {
    let mut handler = handler_with(&[("docs", 1, 7, 1), ("docs/a.txt", 1, 5, 1)]);
    let plan = handler.begin_renamed_local_file(&s("docs/a.txt"), &s("docs/b.txt")).unwrap();
    assert_eq!(plan.content_id, 5);
    assert!(matches!(plan.destination, Destination::Stay));
    assert_eq!(plan.new_name, Some(s("b.txt")));
    assert_eq!(expected(&handler), vec![OperationalMessage::ModifiedRemoteFile(5)]);
}

#[test]
fn begin_renamed_local_file_to_indexed_directory_moves_below_it() {
    let mut handler = handler_with(&[("docs", 1, 7, 1), ("a.txt", 1, 5, 1)]);
    let plan = handler.begin_renamed_local_file(&s("a.txt"), &s("docs/a.txt")).unwrap();
    assert_eq!(plan.content_id, 5);
    assert!(matches!(plan.destination, Destination::Move(ParentIdParameter::Under(7))));
    assert_eq!(plan.new_name, None);
}

#[test]
fn begin_renamed_local_file_to_root_moves_to_root() {
    let mut handler = handler_with(&[("docs", 1, 7, 1), ("docs/a.txt", 1, 5, 1)]);
    let plan = handler.begin_renamed_local_file(&s("docs/a.txt"), &s("b.txt")).unwrap();
    assert!(matches!(plan.destination, Destination::Move(ParentIdParameter::Root)));
    assert_eq!(plan.new_name, Some(s("b.txt")));
}

#[test]
fn begin_renamed_local_file_to_unindexed_directory_asks_for_it_first() {
    let mut handler = handler_with(&[("a.txt", 1, 5, 1)]);
    let plan = handler.begin_renamed_local_file(&s("a.txt"), &s("new/a.txt")).unwrap();
    match plan.destination {
        Destination::CreateThenMove(directory) => assert_eq!(directory, "new"),
        other => panic!("unexpected {:?}", other),
    }
    assert_eq!(plan.new_name, None);
}

#[test]
fn begin_renamed_local_file_of_unindexed_path_fails() {
    let mut handler = handler_with(&[("a.txt", 1, 5, 1)]);
    match handler.begin_renamed_local_file(&s("x.txt"), &s("y.txt")) {
        Err(Error::UnIndexedRelativePath(path)) => assert_eq!(path, "x.txt"),
        other => panic!("unexpected {:?}", other),
    }
    assert!(expected(&handler).is_empty());
}

#[test]
fn renamed_local_file_moves_row_and_takes_revision() {
    let mut handler = handler_with(&[("a.txt", 1, 5, 1), ("c.txt", 1, 6, 1)]);
    handler.renamed_local_file(5, s("b.txt"), Ok(2)).unwrap();
    assert_eq!(rows(&handler), vec![(s("b.txt"), 5, 2, 1), (s("c.txt"), 6, 1, 1)]);
}

#[test]
fn renamed_local_file_moves_row_even_without_revision() {
    let mut handler = handler_with(&[("a.txt", 1, 5, 1)]);
    let done = handler.renamed_local_file(5, s("b.txt"), Err(ClientError::RequestError(s("x"))));
    match done {
        Err(Error::UnexpectedError(text)) => assert_eq!(text, "Error when making request : x"),
        other => panic!("unexpected {:?}", other),
    }
    assert_eq!(rows(&handler), vec![(s("b.txt"), 5, 1, 1)]);
}

#[test]
fn renamed_local_file_refuses_taken_path() {
    let mut handler = handler_with(&[("a.txt", 1, 5, 1), ("c.txt", 1, 6, 1)]);
    match handler.renamed_local_file(5, s("c.txt"), Ok(2)) {
        Err(Error::UnexpectedError(text)) => {
            assert_eq!(text, "content is not indexed or path is taken")
        }
        other => panic!("unexpected {:?}", other),
    }
    assert_eq!(rows(&handler), vec![(s("a.txt"), 5, 1, 1), (s("c.txt"), 6, 1, 1)]);
}

#[test]
fn begin_new_remote_file_expects_local_creation() {
    let mut handler = handler_with(&[("docs", 1, 7, 1)]);
    let content = remote(8, Some(7), "a.txt", ContentType::File, 1);
    assert_eq!(handler.begin_new_remote_file(&content, &s("docs/a.txt"), 0).unwrap(), None);
    assert_eq!(expected(&handler), vec![OperationalMessage::NewLocalFile(s("docs/a.txt"))]);
}

#[test]
fn begin_new_remote_file_names_unindexed_parent() {
    let mut handler = handler_with(&[]);
    let content = remote(8, Some(7), "a.txt", ContentType::File, 1);
    assert_eq!(handler.begin_new_remote_file(&content, &s("docs/a.txt"), 0).unwrap(), Some(7));
    let top = remote(7, None, "docs", ContentType::Folder, 1);
    assert_eq!(handler.begin_new_remote_file(&top, &s("docs"), 1).unwrap(), None);
    assert_eq!(
        expected(&handler),
        vec![
            OperationalMessage::NewLocalFile(s("docs/a.txt")),
            OperationalMessage::NewLocalFile(s("docs")),
        ]
    );
}

#[test]
fn begin_new_remote_file_gives_up_on_endless_parents() {
    let mut handler = handler_with(&[]);
    let content = remote(8, Some(7), "a.txt", ContentType::File, 1);
    assert!(handler.begin_new_remote_file(&content, &s("a.txt"), MAX_PARENT_DEPTH).is_ok());
    match handler.begin_new_remote_file(&content, &s("a.txt"), MAX_PARENT_DEPTH + 1) {
        Err(Error::UnexpectedError(text)) => assert_eq!(text, "too many parents above the content"),
        other => panic!("unexpected {:?}", other),
    }
    assert_eq!(expected(&handler).len(), 1);
}

#[test]
fn new_remote_file_binds_content() {
    let mut handler = handler_with(&[]);
    handler.new_remote_file(s("a.txt"), 50, 8, Ok(4)).unwrap();
    assert_eq!(rows(&handler), vec![(s("a.txt"), 8, 4, 50)]);
    assert!(expected(&handler).is_empty());
}

#[test]
fn new_remote_file_fails_on_hub_failure_or_refused_binding() {
    let mut handler = handler_with(&[("a.txt", 1, 8, 1)]);
    match handler.new_remote_file(s("b.txt"), 50, 9, Err(ClientError::DecodingResponseError(s("x"))))
    {
        Err(Error::UnexpectedError(text)) => assert_eq!(text, "Decoding error : x"),
        other => panic!("unexpected {:?}", other),
    }
    match handler.new_remote_file(s("a.txt"), 50, 9, Ok(4)) {
        Err(Error::UnexpectedError(text)) => assert_eq!(text, "path or content is indexed already"),
        other => panic!("unexpected {:?}", other),
    }
    assert_eq!(rows(&handler), vec![(s("a.txt"), 8, 1, 1)]);
}

#[test]
fn plan_modified_remote_file_renames_folder_in_its_directory() {
    let handler = handler_with(&[("top", 1, 6, 1), ("top/docs", 1, 7, 1), ("docs", 1, 9, 1)]);
    let nested = remote(7, Some(6), "documents", ContentType::Folder, 2);
    match handler.plan_modified_remote_file(&nested, &s("top/documents")).unwrap() {
        RemoteChange::RenameFolder { from, to } => {
            assert_eq!(from, "top/docs");
            assert_eq!(to, "top/documents");
        }
        other => panic!("unexpected {:?}", other),
    }
    let top = remote(9, None, "documents", ContentType::Folder, 2);
    match handler.plan_modified_remote_file(&top, &s("documents")).unwrap() {
        RemoteChange::RenameFolder { from, to } => {
            assert_eq!(from, "docs");
            assert_eq!(to, "documents");
        }
        other => panic!("unexpected {:?}", other),
    }
}

#[test]
fn plan_modified_remote_file_renames_file_with_new_name() {
    let handler = handler_with(&[("docs", 1, 7, 1), ("docs/a.txt", 1, 8, 1)]);
    let content = remote(8, Some(7), "b.txt", ContentType::File, 2);
    match handler.plan_modified_remote_file(&content, &s("docs/b.txt")).unwrap() {
        RemoteChange::RenameFile { from, to } => {
            assert_eq!(from, "docs/a.txt");
            assert_eq!(to, "docs/b.txt");
        }
        other => panic!("unexpected {:?}", other),
    }
}

#[test]
fn plan_modified_remote_file_overwrites_file_with_same_name() {
    let handler = handler_with(&[("docs", 1, 7, 1), ("docs/a.txt", 1, 8, 1)]);
    let content = remote(8, Some(7), "a.txt", ContentType::File, 2);
    match handler.plan_modified_remote_file(&content, &s("docs/a.txt")).unwrap() {
        RemoteChange::Overwrite { to } => assert_eq!(to, "docs/a.txt"),
        other => panic!("unexpected {:?}", other),
    }
}

#[test]
fn plan_modified_remote_file_of_unindexed_content_fails() {
    let handler = handler_with(&[]);
    let content = remote(8, None, "a.txt", ContentType::File, 2);
    match handler.plan_modified_remote_file(&content, &s("a.txt")) {
        Err(Error::UnexpectedError(text)) => assert_eq!(text, "content is not indexed"),
        other => panic!("unexpected {:?}", other),
    }
}

#[test]
fn renamed_remote_file_moves_row_and_expects_local_modification() {
    let mut handler = handler_with(&[("a.txt", 1, 8, 1)]);
    handler.renamed_remote_file(8, s("b.txt")).unwrap();
    assert_eq!(rows(&handler), vec![(s("b.txt"), 8, 1, 1)]);
    assert_eq!(expected(&handler), vec![OperationalMessage::ModifiedLocalFile(s("b.txt"))]);
}

#[test]
fn renamed_remote_file_refused_by_index_changes_nothing() {
    let mut handler = handler_with(&[("a.txt", 1, 8, 1), ("b.txt", 1, 9, 1)]);
    match handler.renamed_remote_file(8, s("b.txt")) {
        Err(Error::UnexpectedError(text)) => {
            assert_eq!(text, "content is not indexed or path is taken")
        }
        other => panic!("unexpected {:?}", other),
    }
    assert!(handler.renamed_remote_file(3, s("c.txt")).is_err());
    assert_eq!(rows(&handler), vec![(s("a.txt"), 8, 1, 1), (s("b.txt"), 9, 1, 1)]);
    assert!(expected(&handler).is_empty());
}

#[test]
fn modified_remote_file_records_time_and_revision() {
    let mut handler = handler_with(&[("a.txt", 1, 8, 1)]);
    handler.expect_overwrite(s("a.txt"));
    handler.modified_remote_file(&s("a.txt"), 77, 2).unwrap();
    assert_eq!(rows(&handler), vec![(s("a.txt"), 8, 2, 77)]);
    assert_eq!(expected(&handler), vec![OperationalMessage::ModifiedLocalFile(s("a.txt"))]);
    match handler.modified_remote_file(&s("zz"), 77, 2) {
        Err(Error::UnIndexedRelativePath(path)) => assert_eq!(path, "zz"),
        other => panic!("unexpected {:?}", other),
    }
}

#[test]
fn begin_deleted_remote_file_expects_local_deletion() {
    let mut handler = handler_with(&[("docs/a.txt", 1, 8, 1)]);
    assert_eq!(handler.begin_deleted_remote_file(8).unwrap(), "docs/a.txt");
    assert_eq!(expected(&handler), vec![OperationalMessage::DeletedLocalFile(s("docs/a.txt"))]);
    match handler.begin_deleted_remote_file(9) {
        Err(Error::UnexpectedError(text)) => assert_eq!(text, "content is not indexed"),
        other => panic!("unexpected {:?}", other),
    }
    assert_eq!(expected(&handler).len(), 1);
}

#[test]
fn deleted_remote_file_removes_row() {
    let mut handler = handler_with(&[("a.txt", 1, 8, 1), ("b.txt", 1, 9, 1)]);
    handler.deleted_remote_file(8);
    assert_eq!(rows(&handler), vec![(s("b.txt"), 9, 1, 1)]);
    handler.deleted_remote_file(8);
    assert_eq!(rows(&handler), vec![(s("b.txt"), 9, 1, 1)]);
    assert!(expected(&handler).is_empty());
}

#[test]
fn begin_new_remote_file_refuses_path_out_of_workspace() {
    let mut handler = handler_with(&[]);
    let content = remote(8, None, "..", ContentType::File, 1);
    for path in ["..", "../a.txt", "a/../../b", "/etc/passwd", "", "a//b"] {
        match handler.begin_new_remote_file(&content, &s(path), 0) {
            Err(Error::PathManipulationError(text)) => {
                assert_eq!(text, "path is not below the workspace")
            }
            other => panic!("unexpected {:?}", other),
        }
    }
    assert!(expected(&handler).is_empty());
}

#[test]
fn plan_modified_remote_file_refuses_folder_name_out_of_its_directory() {
    let handler = handler_with(&[("top", 1, 6, 1), ("top/docs", 1, 7, 1)]);
    for name in ["..", "a/b", "", "/x"] {
        let content = remote(7, Some(6), name, ContentType::Folder, 2);
        match handler.plan_modified_remote_file(&content, &s("top/whatever")) {
            Err(Error::PathManipulationError(text)) => {
                assert_eq!(text, "path is not below the workspace")
            }
            other => panic!("unexpected {:?}", other),
        }
    }
}

#[test]
fn plan_modified_remote_file_refuses_file_path_out_of_workspace() {
    let handler = handler_with(&[("a.txt", 1, 8, 1)]);
    let content = remote(8, None, "a.txt", ContentType::File, 2);
    for target in ["../a.txt", "", "/a.txt", "x/../../a.txt"] {
        match handler.plan_modified_remote_file(&content, &s(target)) {
            Err(Error::PathManipulationError(text)) => {
                assert_eq!(text, "path is not below the workspace")
            }
            other => panic!("unexpected {:?}", other),
        }
    }
    let unknown = remote(9, None, "a.txt", ContentType::File, 2);
    assert!(matches!(
        handler.plan_modified_remote_file(&unknown, &s("../a.txt")),
        Err(Error::UnexpectedError(_))
    ));
}
