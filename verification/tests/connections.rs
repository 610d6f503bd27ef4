use collab_server::connection::{Connection, Phase};
use collab_server::store::AppState;
use collab_server::types::{
    CursorPayload, EndSessionPayload, FileState, JoinPayload, MessageContent, RemoteCursor,
    StartSessionPayload, WebSocketMessage,
};

fn text(s: &str) -> String {
    s.to_string()
}

fn join(from: &str) -> WebSocketMessage {
    WebSocketMessage {
        client_id: text(from),
        timestamp: 1,
        content: MessageContent::Join(JoinPayload {
            username: text(from),
            client_version: text("1.0"),
        }),
    }
}

fn cursor(from: &str, path: &str) -> WebSocketMessage {
    WebSocketMessage {
        client_id: text(from),
        timestamp: 2,
        content: MessageContent::Cursor(CursorPayload {
            path: text(path),
            pos: (0, 0),
            selection: None,
        }),
    }
}

fn start(from: &str, path: &str) -> WebSocketMessage {
    WebSocketMessage {
        client_id: text(from),
        timestamp: 3,
        content: MessageContent::StartSession(StartSessionPayload {
            project_name: text("demo"),
            files: vec![FileState {
                path: text(path),
                content: vec![text("hello")],
                is_writeable: true,
                my_cursor: None,
            }],
        }),
    }
}

fn end(from: &str) -> WebSocketMessage {
    WebSocketMessage {
        client_id: text(from),
        timestamp: 4,
        content: MessageContent::EndSession(EndSessionPayload { reason: text("done") }),
    }
}

#[test]
fn new_connection_holds_its_handle_and_no_id() {
    let connection = Connection::new(7u32);
    assert_eq!(connection.client_id, None);
    assert_eq!(connection.socket_writer, Some(7));
    assert_eq!(connection.phase(), Phase::Unregistered);
}

#[test]
fn end_of_session_closes_the_connection() {
    let mut state: AppState<u32> = AppState::new();
    let mut host = Connection::new(1u32);
    let mut guest = Connection::new(2u32);
    host.receive(start("h", "a.txt"), &mut state).unwrap();
    guest.receive(join("g"), &mut state).unwrap();
    assert_eq!(guest.phase(), Phase::Registered);

    let sent = guest.receive(end("g"), &mut state).unwrap();

    assert!(sent.is_empty());
    assert_eq!(guest.phase(), Phase::Closed);
    assert!(!state.is_registered(&text("g")));
    assert!(!state.has_user(&text("g")));

    let sent = guest.receive(cursor("g", "a.txt"), &mut state).unwrap();
    assert!(sent.is_empty());
    assert!(state.get_file(&text("a.txt")).unwrap().current_cursors.is_empty());
    let sent = guest.receive(join("g"), &mut state).unwrap();
    assert!(sent.is_empty());
    assert!(!state.has_user(&text("g")));
    assert_eq!(state.client_ids().len(), 1);
}

#[test]
fn first_message_of_any_kind_gives_the_id() {
    let mut state: AppState<u32> = AppState::new();
    let mut connection = Connection::new(7u32);
    connection.receive(cursor("a", "a.txt"), &mut state).unwrap();
    assert_eq!(connection.client_id, Some(text("a")));
    assert_eq!(connection.phase(), Phase::Registered);
    assert_eq!(connection.socket_writer, Some(7));
    assert!(!state.is_registered(&text("a")));
}

#[test]
fn join_hands_the_handle_over_once() {
    let mut state: AppState<u32> = AppState::new();
    let mut connection = Connection::new(7u32);
    connection.receive(join("a"), &mut state).unwrap();
    assert_eq!(connection.client_id, Some(text("a")));
    assert_eq!(connection.socket_writer, None);
    assert_eq!(state.client_ids().len(), 1);
    assert_eq!(state.writer(&text("a")), Some(&7));

    connection.receive(join("other"), &mut state).unwrap();
    assert_eq!(connection.client_id, Some(text("a")));
    assert_eq!(state.client_ids().len(), 1);
    assert!(state.has_user(&text("other")));
    assert!(!state.is_registered(&text("other")));
}

#[test]
fn close_forgets_the_client_of_the_first_message() {
    let mut state: AppState<u32> = AppState::new();
    let mut host = Connection::new(1u32);
    let mut guest = Connection::new(2u32);
    host.receive(start("h", "a.txt"), &mut state).unwrap();
    guest.receive(join("g"), &mut state).unwrap();
    guest.receive(cursor("g", "a.txt"), &mut state).unwrap();
    assert_eq!(
        state.get_file(&text("a.txt")).unwrap().current_cursors,
        vec![RemoteCursor { client_id: text("g"), pos: (0, 0), selection: None }]
    );

    guest.close(&mut state);

    assert_eq!(state.client_ids().len(), 1);
    assert_eq!(state.client_ids()[0], "h");
    assert!(!state.has_user(&text("g")));
    assert!(state.has_user(&text("h")));
    assert!(state.get_file(&text("a.txt")).unwrap().current_cursors.is_empty());
}

#[test]
fn close_without_a_message_changes_nothing() {
    let mut state: AppState<u32> = AppState::new();
    let mut host = Connection::new(1u32);
    host.receive(start("h", "a.txt"), &mut state).unwrap();
    let idle = Connection::new(2u32);
    idle.close(&mut state);
    assert_eq!(state.client_ids().len(), 1);
    assert_eq!(state.users().len(), 1);
    assert_eq!(state.files().len(), 1);
}
