use collab_server::delivery::Delivery;
use collab_server::dispatch::{dispatch, handle_message, HandleError};
use collab_server::edit::{apply_edit, EditError};
use collab_server::store::AppState;
use collab_server::types::{
    CursorPayload, EditOp, EditPayload, EndSessionPayload, FileState, JoinGoodPayload,
    JoinPayload, LocalCursor, MessageContent, ObjPosition, RemoteCursor, Selection,
    StartSessionPayload, SyncPayload, UserInfo, UserJoinedPayload, UserLeftPayload,
    WebSocketMessage,
};

const PALETTE: [&str; 10] = [
    "#FF0000", "#00FF00", "#0000FF", "#FFFF00", "#FF00FF", "#00FFFF", "#FFA500", "#800080",
    "#008080", "#FFC0CB",
];

fn text(s: &str) -> String {
    s.to_string()
}

fn lines(content: &[&str]) -> Vec<String> {
    content.iter().map(|line| line.to_string()).collect()
}

fn envelope(from: &str, timestamp: u64, content: MessageContent) -> WebSocketMessage {
    WebSocketMessage { client_id: text(from), timestamp, content }
}

fn join(from: &str, name: &str) -> WebSocketMessage {
    envelope(
        from,
        1,
        MessageContent::Join(JoinPayload { username: text(name), client_version: text("1.0") }),
    )
}

fn file(path: &str, content: &[&str], my_cursor: Option<LocalCursor>) -> FileState {
    FileState { path: text(path), content: lines(content), is_writeable: true, my_cursor }
}

fn start_session(from: &str, files: Vec<FileState>) -> WebSocketMessage {
    envelope(
        from,
        2,
        MessageContent::StartSession(StartSessionPayload { project_name: text("demo"), files }),
    )
}

fn sync_request(from: &str, path: &str) -> WebSocketMessage {
    envelope(
        from,
        3,
        MessageContent::Sync(SyncPayload {
            path: text(path),
            revision: None,
            content: None,
            is_writeable: None,
            cursors: None,
        }),
    )
}

fn edit(from: &str, timestamp: u64, path: &str, op: EditOp) -> WebSocketMessage {
    envelope(
        from,
        timestamp,
        MessageContent::Edit(EditPayload { path: text(path), revision: 4, op }),
    )
}

fn insert(row: usize, col: usize, what: &str) -> EditOp {
    EditOp {
        start: ObjPosition { row, col },
        end: ObjPosition { row, col },
        text: vec![text(what)],
    }
}

fn cursor_update(from: &str, path: &str, pos: (usize, usize)) -> WebSocketMessage {
    envelope(
        from,
        9,
        MessageContent::Cursor(CursorPayload { path: text(path), pos, selection: None }),
    )
}

fn end_session(from: &str) -> WebSocketMessage {
    envelope(from, 8, MessageContent::EndSession(EndSessionPayload { reason: text("bye") }))
}

fn user(id: &str, name: &str, color: &str) -> UserInfo {
    UserInfo { id: text(id), username: text(name), color: text(color) }
}

fn ids(state: &AppState<u32>) -> Vec<String> {
    state.client_ids().clone()
}

/// A host "a" with one file, and guests "b" and "c", all registered.
fn session() -> AppState<u32> {
    let mut state: AppState<u32> = AppState::new();
    let files = vec![file("a.txt", &["hello"], None)];
    dispatch(start_session("a", files), &mut state, &mut Some(1), 10, text("#FF0000")).unwrap();
    dispatch(join("b", "Bob"), &mut state, &mut Some(2), 11, text("#00FF00")).unwrap();
    dispatch(join("c", "Cy"), &mut state, &mut Some(3), 12, text("#0000FF")).unwrap();
    state
}

#[test]
fn join_replies_to_sender_and_announces_to_others() {
    let mut state = session();
    let mut writer = Some(4);
    let sent = dispatch(join("d", "Dee"), &mut state, &mut writer, 500, text("#FFA500")).unwrap();

    assert_eq!(writer, None);
    assert_eq!(ids(&state), vec![text("a"), text("b"), text("c"), text("d")]);
    assert_eq!(state.writer(&text("d")), Some(&4));
    assert_eq!(sent.len(), 2);
    assert_eq!(
        sent[0],
        Delivery {
            recipients: vec![text("d")],
            message: envelope(
                "d",
                500,
                MessageContent::JoinGood(JoinGoodPayload {
                    session_active: true,
                    active_users: vec![
                        user("a", "a", "#FF0000"),
                        user("b", "Bob", "#00FF00"),
                        user("c", "Cy", "#0000FF"),
                        user("d", "Dee", "#FFA500"),
                    ],
                    available_files: vec![text("a.txt")],
                }),
            ),
        }
    );
    assert_eq!(
        sent[1],
        Delivery {
            recipients: vec![text("a"), text("b"), text("c")],
            message: envelope(
                "server",
                500,
                MessageContent::UserJoined(UserJoinedPayload {
                    user: user("d", "Dee", "#FFA500"),
                }),
            ),
        }
    );
}

#[test]
fn first_join_is_announced_to_nobody() {
    let mut state: AppState<u32> = AppState::new();
    let sent = dispatch(join("a", "Ann"), &mut state, &mut Some(1), 5, text("#FF0000")).unwrap();
    assert_eq!(sent.len(), 2);
    assert_eq!(sent[0].recipients, vec![text("a")]);
    assert!(sent[1].recipients.is_empty());
    assert!(matches!(sent[1].message.content, MessageContent::UserJoined(_)));
}

#[test]
fn join_again_overwrites_the_user_and_is_answered() {
    let mut state = session();
    let mut writer = None;
    let sent = dispatch(join("b", "Robert"), &mut state, &mut writer, 7, text("#800080")).unwrap();
    assert_eq!(state.users().len(), 3);
    assert_eq!(state.users()[1], user("b", "Robert", "#800080"));
    assert_eq!(ids(&state), vec![text("a"), text("b"), text("c")]);
    assert_eq!(state.writer(&text("b")), Some(&2));
    assert_eq!(sent.len(), 2);
    assert_eq!(sent[0].recipients, vec![text("b")]);
    assert_eq!(sent[1].recipients, vec![text("a"), text("c")]);
}

#[test]
fn join_without_a_handle_under_a_new_id_gets_no_reply() {
    let mut state = session();
    let mut writer = None;
    let sent = dispatch(join("ghost", "G"), &mut state, &mut writer, 7, text("#800080")).unwrap();
    assert!(state.has_user(&text("ghost")));
    assert!(!state.is_registered(&text("ghost")));
    assert_eq!(sent.len(), 1);
    assert!(matches!(sent[0].message.content, MessageContent::UserJoined(_)));
    assert_eq!(sent[0].recipients, vec![text("a"), text("b"), text("c")]);
}

#[test]
fn join_with_a_handle_replaces_a_registered_connection() {
    let mut state = session();
    let mut writer = Some(77);
    dispatch(join("b", "Bob"), &mut state, &mut writer, 7, text("#800080")).unwrap();
    assert_eq!(writer, None);
    assert_eq!(ids(&state), vec![text("a"), text("b"), text("c")]);
    assert_eq!(state.writer(&text("b")), Some(&77));
}

#[test]
fn start_session_seeds_state_and_sends_nothing() {
    let mut state: AppState<u32> = AppState::new();
    let mut writer = Some(1);
    let own = LocalCursor { pos: (0, 2), selection: Some(Selection { start: (0, 2), end: (0, 4) }) };
    let files = vec![file("a.txt", &["hello"], Some(own)), file("b.txt", &[], None)];
    let sent =
        dispatch(start_session("host", files), &mut state, &mut writer, 10, text("#00FFFF"))
            .unwrap();

    assert!(sent.is_empty());
    assert_eq!(writer, None);
    assert_eq!(ids(&state), vec![text("host")]);
    assert_eq!(state.users().to_vec(), vec![user("host", "host", "#00FFFF")]);
    assert_eq!(state.files().len(), 2);
    let a = state.get_file(&text("a.txt")).unwrap();
    assert_eq!(a.content, lines(&["hello"]));
    assert_eq!(a.revision, 0);
    assert_eq!(
        a.current_cursors,
        vec![RemoteCursor {
            client_id: text("host"),
            pos: (0, 2),
            selection: Some(Selection { start: (0, 2), end: (0, 4) }),
        }]
    );
    let b = state.get_file(&text("b.txt")).unwrap();
    assert!(b.content.is_empty());
    assert!(b.current_cursors.is_empty());
}

#[test]
fn start_session_keeps_a_user_that_is_present() {
    let mut state: AppState<u32> = AppState::new();
    let mut writer = Some(1);
    dispatch(join("a", "Ann"), &mut state, &mut writer, 5, text("#FF0000")).unwrap();
    let files = vec![file("a.txt", &["x"], None)];
    dispatch(start_session("a", files), &mut state, &mut writer, 6, text("#00FF00")).unwrap();
    assert_eq!(state.users().to_vec(), vec![user("a", "Ann", "#FF0000")]);
    assert_eq!(state.files().len(), 1);
}

#[test]
fn start_session_overwrites_files_of_the_same_path() {
    let mut state = session();
    state.upsert_cursor(&text("a.txt"), RemoteCursor {
        client_id: text("b"),
        pos: (0, 1),
        selection: None,
    });
    let files = vec![file("a.txt", &["first"], None), file("a.txt", &["second"], None)];
    dispatch(start_session("a", files), &mut state, &mut None, 10, text("#FF0000")).unwrap();
    assert_eq!(state.files().len(), 1);
    let a = state.get_file(&text("a.txt")).unwrap();
    assert_eq!(a.content, lines(&["second"]));
    assert!(a.current_cursors.is_empty());
}

#[test]
fn sync_of_known_file_is_answered_to_the_requester() {
    let mut state = session();
    let sent = dispatch(sync_request("b", "a.txt"), &mut state, &mut None, 900, String::new())
        .unwrap();
    assert_eq!(
        sent,
        vec![Delivery {
            recipients: vec![text("b")],
            message: envelope(
                "b",
                900,
                MessageContent::Sync(SyncPayload {
                    path: text("a.txt"),
                    revision: Some(0),
                    content: Some(lines(&["hello"])),
                    is_writeable: Some(true),
                    cursors: Some(vec![]),
                }),
            ),
        }]
    );
}

#[test]
fn sync_lists_every_cursor_of_the_file() {
    let mut state = session();
    dispatch(cursor_update("b", "a.txt", (0, 1)), &mut state, &mut None, 0, String::new())
        .unwrap();
    dispatch(cursor_update("c", "a.txt", (0, 2)), &mut state, &mut None, 0, String::new())
        .unwrap();
    let sent = dispatch(sync_request("a", "a.txt"), &mut state, &mut None, 900, String::new())
        .unwrap();
    match &sent[0].message.content {
        MessageContent::Sync(reply) => {
            assert_eq!(
                reply.cursors,
                Some(vec![
                    RemoteCursor { client_id: text("b"), pos: (0, 1), selection: None },
                    RemoteCursor { client_id: text("c"), pos: (0, 2), selection: None },
                ])
            );
        }
        other => panic!("not a sync reply: {:?}", other),
    }
}

#[test]
fn sync_of_unknown_path_sends_nothing() {
    let mut state = session();
    let sent = dispatch(sync_request("b", "nope.txt"), &mut state, &mut None, 900, String::new())
        .unwrap();
    assert!(sent.is_empty());
    assert_eq!(state.files().len(), 1);
}

#[test]
fn sync_by_unregistered_client_is_dropped() {
    let mut state = session();
    let sent = dispatch(sync_request("zz", "a.txt"), &mut state, &mut Some(9), 900, String::new())
        .unwrap();
    assert!(sent.is_empty());
}

#[test]
fn session_start_then_join_then_sync() {
    let mut state: AppState<u32> = AppState::new();
    let mut writer_a = Some(1);
    let mut writer_b = Some(2);
    let files = vec![file("a.txt", &["hello"], None)];
    let sent = handle_message(start_session("A", files), &mut state, &mut writer_a).unwrap();
    assert!(sent.is_empty());
    handle_message(join("B", "Bee"), &mut state, &mut writer_b).unwrap();
    let sent = handle_message(sync_request("B", "a.txt"), &mut state, &mut writer_b).unwrap();

    assert_eq!(sent.len(), 1);
    assert_eq!(sent[0].recipients, vec![text("B")]);
    assert_eq!(sent[0].message.client_id, "B");
    assert_eq!(
        sent[0].message.content,
        MessageContent::Sync(SyncPayload {
            path: text("a.txt"),
            revision: Some(0),
            content: Some(lines(&["hello"])),
            is_writeable: Some(true),
            cursors: Some(vec![]),
        })
    );
}

#[test]
fn edit_is_applied_and_rebroadcast_as_it_came() {
    let mut state: AppState<u32> = AppState::new();
    let mut writer_a = Some(1);
    let mut writer_b = Some(2);
    let files = vec![file("a.txt", &["hello"], None)];
    handle_message(start_session("A", files), &mut state, &mut writer_a).unwrap();
    handle_message(join("B", "Bee"), &mut state, &mut writer_b).unwrap();
    let synced = handle_message(sync_request("B", "a.txt"), &mut state, &mut writer_b).unwrap();
    let mut local = match &synced[0].message.content {
        MessageContent::Sync(reply) => reply.content.clone().unwrap(),
        other => panic!("not a sync reply: {:?}", other),
    };

    let sent =
        handle_message(edit("A", 4242, "a.txt", insert(0, 0, "X")), &mut state, &mut writer_a)
            .unwrap();

    assert_eq!(
        sent,
        vec![Delivery {
            recipients: vec![text("B")],
            message: edit("A", 4242, "a.txt", insert(0, 0, "X")),
        }]
    );
    assert_eq!(state.get_file(&text("a.txt")).unwrap().content, lines(&["Xhello"]));
    assert_eq!(state.get_file(&text("a.txt")).unwrap().revision, 0);
    match &sent[0].message.content {
        MessageContent::Edit(payload) => {
            assert_eq!(apply_edit(&mut local, &payload.op), Ok(()));
        }
        other => panic!("not an edit: {:?}", other),
    }
    assert_eq!(local, lines(&["Xhello"]));
}

#[test]
fn edit_of_unknown_file_is_still_rebroadcast() {
    let mut state = session();
    let sent = dispatch(
        edit("b", 33, "nope.txt", insert(0, 0, "X")),
        &mut state,
        &mut None,
        0,
        String::new(),
    )
    .unwrap();
    assert_eq!(
        sent,
        vec![Delivery {
            recipients: vec![text("a"), text("c")],
            message: edit("b", 33, "nope.txt", insert(0, 0, "X")),
        }]
    );
    assert_eq!(state.files().len(), 1);
    assert_eq!(state.get_file(&text("a.txt")).unwrap().content, lines(&["hello"]));
}

#[test]
fn edit_out_of_range_is_still_rebroadcast() {
    let mut state = session();
    let sent = dispatch(
        edit("b", 33, "a.txt", insert(5, 0, "X")),
        &mut state,
        &mut None,
        0,
        String::new(),
    )
    .unwrap();
    assert_eq!(sent.len(), 1);
    assert_eq!(sent[0].recipients, vec![text("a"), text("c")]);
    assert_eq!(state.get_file(&text("a.txt")).unwrap().content, lines(&["hello"]));
}

#[test]
fn edit_that_cannot_be_placed_fails_and_changes_nothing() {
    let mut state = session();
    let mut writer = Some(5);
    let out = dispatch(
        edit("b", 33, "a.txt", insert(1, 0, "X")),
        &mut state,
        &mut writer,
        0,
        String::new(),
    );
    assert_eq!(out, Err(EditError::StartRowMissing));
    assert_eq!(writer, Some(5));
    assert_eq!(state.get_file(&text("a.txt")).unwrap().content, lines(&["hello"]));

    let out = handle_message(edit("b", 33, "a.txt", insert(1, 0, "X")), &mut state, &mut writer);
    assert_eq!(out, Err(HandleError::Edit(EditError::StartRowMissing)));
    assert_eq!(writer, Some(5));
}

#[test]
fn edits_in_sequence_match_the_sequential_oracle() {
    let mut state = session();
    let ops = vec![
        ("b", insert(0, 0, "X")),
        ("c", insert(0, 6, "!")),
        ("a", EditOp {
            start: ObjPosition { row: 0, col: 1 },
            end: ObjPosition { row: 0, col: 3 },
            text: lines(&["1", "2"]),
        }),
        ("b", insert(7, 0, "dropped")),
        ("c", insert(1, 1, "-")),
        ("a", EditOp {
            start: ObjPosition { row: 0, col: 0 },
            end: ObjPosition { row: 2, col: 0 },
            text: vec![],
        }),
    ];
    let mut oracle = lines(&["hello"]);
    for (sender, op) in ops {
        apply_edit(&mut oracle, &op).unwrap();
        dispatch(edit(sender, 1, "a.txt", op), &mut state, &mut None, 0, String::new()).unwrap();
        assert_eq!(state.get_file(&text("a.txt")).unwrap().content, oracle);
    }
    assert_eq!(oracle, lines(&[""]));
}

#[test]
fn cursor_is_stored_and_rebroadcast() {
    let mut state = session();
    let sent = dispatch(cursor_update("b", "a.txt", (0, 3)), &mut state, &mut None, 0, String::new())
        .unwrap();
    assert_eq!(
        sent,
        vec![Delivery {
            recipients: vec![text("a"), text("c")],
            message: cursor_update("b", "a.txt", (0, 3)),
        }]
    );
    assert_eq!(
        state.get_file(&text("a.txt")).unwrap().current_cursors,
        vec![RemoteCursor { client_id: text("b"), pos: (0, 3), selection: None }]
    );
}

#[test]
fn cursor_in_unknown_file_is_rebroadcast_only() {
    let mut state = session();
    let sent = dispatch(
        cursor_update("b", "nope.txt", (0, 3)),
        &mut state,
        &mut None,
        0,
        String::new(),
    )
    .unwrap();
    assert_eq!(sent.len(), 1);
    assert_eq!(sent[0].recipients, vec![text("a"), text("c")]);
    assert!(state.get_file(&text("a.txt")).unwrap().current_cursors.is_empty());
    assert_eq!(state.files().len(), 1);
}

#[test]
fn cursor_is_stale_after_an_edit() {
    let mut state = session();
    dispatch(cursor_update("b", "a.txt", (0, 5)), &mut state, &mut None, 0, String::new())
        .unwrap();
    let shrink = EditOp {
        start: ObjPosition { row: 0, col: 0 },
        end: ObjPosition { row: 0, col: 5 },
        text: vec![],
    };
    dispatch(edit("a", 1, "a.txt", shrink), &mut state, &mut None, 0, String::new()).unwrap();
    let file = state.get_file(&text("a.txt")).unwrap();
    assert_eq!(file.content, lines(&[""]));
    assert_eq!(
        file.current_cursors,
        vec![RemoteCursor { client_id: text("b"), pos: (0, 5), selection: None }]
    );
}

#[test]
fn end_session_forgets_the_sender_and_sends_nothing() {
    let mut state = session();
    dispatch(cursor_update("b", "a.txt", (0, 1)), &mut state, &mut None, 0, String::new())
        .unwrap();
    dispatch(cursor_update("c", "a.txt", (0, 2)), &mut state, &mut None, 0, String::new())
        .unwrap();

    let sent = dispatch(end_session("b"), &mut state, &mut None, 0, String::new()).unwrap();

    assert!(sent.is_empty());
    assert_eq!(ids(&state), vec![text("a"), text("c")]);
    assert!(!state.has_user(&text("b")));
    assert_eq!(state.users().len(), 2);

    let sent = dispatch(sync_request("c", "a.txt"), &mut state, &mut None, 900, String::new())
        .unwrap();
    match &sent[0].message.content {
        MessageContent::Sync(reply) => {
            assert_eq!(
                reply.cursors,
                Some(vec![RemoteCursor { client_id: text("c"), pos: (0, 2), selection: None }])
            );
        }
        other => panic!("not a sync reply: {:?}", other),
    }
}

#[test]
fn reply_kinds_are_ignored_as_input() {
    let mut state = session();
    let before_users = state.users().to_vec();
    let inputs = vec![
        MessageContent::JoinGood(JoinGoodPayload {
            session_active: true,
            active_users: vec![],
            available_files: vec![],
        }),
        MessageContent::UserJoined(UserJoinedPayload { user: user("x", "X", "#FF0000") }),
        MessageContent::UserLeft(UserLeftPayload {
            user_id: text("b"),
            username: text("Bob"),
            reason: None,
        }),
    ];
    for content in inputs {
        let mut writer = Some(9);
        let sent = dispatch(envelope("b", 1, content), &mut state, &mut writer, 0, String::new())
            .unwrap();
        assert!(sent.is_empty());
        assert_eq!(writer, Some(9));
    }
    assert_eq!(state.users().to_vec(), before_users);
    assert_eq!(ids(&state), vec![text("a"), text("b"), text("c")]);
}

#[test]
fn handled_join_stamps_both_messages_alike_and_picks_a_palette_color() {
    let mut state: AppState<u32> = AppState::new();
    handle_message(join("a", "Ann"), &mut state, &mut Some(1)).unwrap();
    let sent = handle_message(join("b", "Bob"), &mut state, &mut Some(2)).unwrap();

    assert_eq!(sent.len(), 2);
    assert_eq!(sent[0].recipients, vec![text("b")]);
    assert_eq!(sent[1].recipients, vec![text("a")]);
    assert_eq!(sent[0].message.client_id, "b");
    assert_eq!(sent[1].message.client_id, "server");
    assert_eq!(sent[0].message.timestamp, sent[1].message.timestamp);
    assert!(sent[0].message.timestamp > 1_000_000_000_000);
    match &sent[1].message.content {
        MessageContent::UserJoined(payload) => {
            assert_eq!(payload.user.id, "b");
            assert_eq!(payload.user.username, "Bob");
            assert!(PALETTE.contains(&payload.user.color.as_str()));
            assert_eq!(state.users()[1], payload.user);
        }
        other => panic!("not an announcement: {:?}", other),
    }
    match &sent[0].message.content {
        MessageContent::JoinGood(payload) => {
            assert!(payload.session_active);
            assert_eq!(payload.active_users, state.users().to_vec());
            assert!(payload.available_files.is_empty());
        }
        other => panic!("not a snapshot: {:?}", other),
    }
}

#[test]
fn handled_messages_keep_their_own_timestamp_when_rebroadcast() {
    let mut state = session();
    let sent =
        handle_message(cursor_update("b", "a.txt", (0, 1)), &mut state, &mut None).unwrap();
    assert_eq!(sent[0].message.timestamp, 9);
    assert_eq!(sent[0].message.client_id, "b");
}
