use collab_server::edit::EditError;
use collab_server::store::AppState;
use collab_server::types::{EditOp, ObjPosition, RemoteCursor, Selection};

fn text(s: &str) -> String {
    s.to_string()
}

fn lines(content: &[&str]) -> Vec<String> {
    content.iter().map(|line| line.to_string()).collect()
}

fn cursor(owner: &str, row: usize, col: usize) -> RemoteCursor {
    RemoteCursor { client_id: text(owner), pos: (row, col), selection: None }
}

fn ids(state: &AppState<u32>) -> Vec<String> {
    state.client_ids().clone()
}

fn insert(row: usize, col: usize, what: &str) -> EditOp {
    EditOp {
        start: ObjPosition { row, col },
        end: ObjPosition { row, col },
        text: vec![text(what)],
    }
}

#[test]
fn new_state_is_empty() {
    let state: AppState<u32> = AppState::new();
    assert!(state.client_ids().is_empty());
    assert!(state.users().is_empty());
    assert!(state.files().is_empty());
    assert!(!state.is_registered(&text("a")));
    assert!(!state.has_user(&text("a")));
    assert!(state.get_file(&text("a.txt")).is_none());
}

#[test]
fn register_client_keeps_order_and_overwrites() {
    let mut state: AppState<u32> = AppState::new();
    state.register_client(text("a"), 1);
    state.register_client(text("b"), 2);
    state.register_client(text("a"), 3);
    assert_eq!(ids(&state), vec![text("a"), text("b")]);
    assert_eq!(state.writer(&text("a")), Some(&3));
    assert_eq!(state.writer(&text("b")), Some(&2));
    assert_eq!(state.writer(&text("c")), None);
    assert!(state.is_registered(&text("a")));
    assert!(state.is_registered(&text("b")));
    assert!(!state.is_registered(&text("c")));
}

#[test]
fn register_user_returns_and_stores_the_user() {
    let mut state: AppState<u32> = AppState::new();
    let user = state.register_user(text("a"), text("Ann"), text("#FF0000"));
    assert_eq!(user.id, "a");
    assert_eq!(user.username, "Ann");
    assert_eq!(user.color, "#FF0000");
    assert_eq!(state.users().len(), 1);
    assert_eq!(state.users()[0], user);
    assert!(state.has_user(&text("a")));
}

#[test]
fn register_user_overwrites_in_place() {
    let mut state: AppState<u32> = AppState::new();
    state.register_user(text("a"), text("Ann"), text("#FF0000"));
    state.register_user(text("b"), text("Bob"), text("#00FF00"));
    state.register_user(text("a"), text("Anna"), text("#0000FF"));
    assert_eq!(state.users().len(), 2);
    assert_eq!(state.users()[0].username, "Anna");
    assert_eq!(state.users()[0].color, "#0000FF");
    assert_eq!(state.users()[1].username, "Bob");
}

#[test]
fn upsert_file_starts_at_revision_zero() {
    let mut state: AppState<u32> = AppState::new();
    state.upsert_file(text("a.txt"), lines(&["hello"]), None);
    let file = state.get_file(&text("a.txt")).unwrap();
    assert_eq!(file.path, "a.txt");
    assert_eq!(file.content, lines(&["hello"]));
    assert_eq!(file.revision, 0);
    assert!(file.current_cursors.is_empty());
}

#[test]
fn upsert_file_seeds_the_given_cursor() {
    let mut state: AppState<u32> = AppState::new();
    let seed = RemoteCursor {
        client_id: text("host"),
        pos: (1, 2),
        selection: Some(Selection { start: (1, 2), end: (1, 4) }),
    };
    state.upsert_file(text("a.txt"), lines(&["x", "abcd"]), Some(seed.clone()));
    let file = state.get_file(&text("a.txt")).unwrap();
    assert_eq!(file.current_cursors, vec![seed]);
}

#[test]
fn upsert_file_replaces_without_merging() {
    let mut state: AppState<u32> = AppState::new();
    state.upsert_file(text("a.txt"), lines(&["old"]), Some(cursor("host", 0, 0)));
    state.upsert_file(text("b.txt"), lines(&["other"]), None);
    state.upsert_cursor(&text("a.txt"), cursor("guest", 0, 1));
    state.upsert_file(text("a.txt"), lines(&["new", "text"]), None);
    assert_eq!(state.files().len(), 2);
    assert_eq!(state.files()[0].path, "a.txt");
    assert_eq!(state.files()[1].path, "b.txt");
    let file = state.get_file(&text("a.txt")).unwrap();
    assert_eq!(file.content, lines(&["new", "text"]));
    assert_eq!(file.revision, 0);
    assert!(file.current_cursors.is_empty());
}

#[test]
fn apply_edit_to_file_changes_content_not_revision() {
    let mut state: AppState<u32> = AppState::new();
    state.upsert_file(text("a.txt"), lines(&["hello"]), Some(cursor("host", 0, 3)));
    state.upsert_file(text("b.txt"), lines(&["hello"]), None);
    let outcome = state.apply_edit_to_file(&text("a.txt"), &insert(0, 0, "X"));
    assert_eq!(outcome, Ok(()));
    let file = state.get_file(&text("a.txt")).unwrap();
    assert_eq!(file.content, lines(&["Xhello"]));
    assert_eq!(file.revision, 0);
    assert_eq!(file.current_cursors, vec![cursor("host", 0, 3)]);
    assert_eq!(state.get_file(&text("b.txt")).unwrap().content, lines(&["hello"]));
}

#[test]
fn apply_edit_to_unknown_file_is_no_error() {
    let mut state: AppState<u32> = AppState::new();
    state.upsert_file(text("a.txt"), lines(&["hello"]), None);
    let outcome = state.apply_edit_to_file(&text("missing.txt"), &insert(0, 0, "X"));
    assert_eq!(outcome, Ok(()));
    assert_eq!(state.files().len(), 1);
    assert_eq!(state.get_file(&text("a.txt")).unwrap().content, lines(&["hello"]));
}

#[test]
fn apply_edit_to_file_reports_a_fault() {
    let mut state: AppState<u32> = AppState::new();
    state.upsert_file(text("a.txt"), lines(&["hello"]), None);
    let outcome = state.apply_edit_to_file(&text("a.txt"), &insert(1, 0, "X"));
    assert_eq!(outcome, Err(EditError::StartRowMissing));
    assert_eq!(state.get_file(&text("a.txt")).unwrap().content, lines(&["hello"]));
}

#[test]
fn upsert_cursor_is_last_write_wins() {
    let mut state: AppState<u32> = AppState::new();
    state.upsert_file(text("a.txt"), lines(&["hello"]), None);
    state.upsert_cursor(&text("a.txt"), cursor("a", 0, 1));
    state.upsert_cursor(&text("a.txt"), cursor("b", 0, 2));
    state.upsert_cursor(&text("a.txt"), cursor("a", 0, 3));
    let file = state.get_file(&text("a.txt")).unwrap();
    assert_eq!(file.current_cursors, vec![cursor("a", 0, 3), cursor("b", 0, 2)]);
}

#[test]
fn upsert_cursor_for_unknown_file_is_dropped() {
    let mut state: AppState<u32> = AppState::new();
    state.upsert_file(text("a.txt"), lines(&["hello"]), None);
    state.upsert_cursor(&text("missing.txt"), cursor("a", 0, 1));
    assert_eq!(state.files().len(), 1);
    assert!(state.get_file(&text("a.txt")).unwrap().current_cursors.is_empty());
}

#[test]
fn remove_client_forgets_connection_user_and_cursors() {
    let mut state: AppState<u32> = AppState::new();
    state.register_client(text("a"), 1);
    state.register_client(text("b"), 2);
    state.register_user(text("a"), text("Ann"), text("#FF0000"));
    state.register_user(text("b"), text("Bob"), text("#00FF00"));
    state.upsert_file(text("a.txt"), lines(&["hello"]), Some(cursor("a", 0, 0)));
    state.upsert_file(text("b.txt"), lines(&["world"]), None);
    state.upsert_cursor(&text("a.txt"), cursor("b", 0, 1));
    state.upsert_cursor(&text("b.txt"), cursor("a", 0, 2));
    state.upsert_cursor(&text("b.txt"), cursor("b", 0, 3));

    let writer = state.remove_client(&text("a"));

    assert_eq!(writer, Some(1));
    assert_eq!(ids(&state), vec![text("b")]);
    assert_eq!(state.users().len(), 1);
    assert_eq!(state.users()[0].id, "b");
    assert_eq!(state.get_file(&text("a.txt")).unwrap().current_cursors, vec![cursor("b", 0, 1)]);
    assert_eq!(state.get_file(&text("b.txt")).unwrap().current_cursors, vec![cursor("b", 0, 3)]);
    assert_eq!(state.get_file(&text("a.txt")).unwrap().content, lines(&["hello"]));
}

#[test]
fn remove_client_of_unknown_id_changes_nothing() {
    let mut state: AppState<u32> = AppState::new();
    state.register_client(text("a"), 1);
    state.register_user(text("a"), text("Ann"), text("#FF0000"));
    state.upsert_file(text("a.txt"), lines(&["hello"]), Some(cursor("a", 0, 0)));
    let writer = state.remove_client(&text("zz"));
    assert_eq!(writer, None);
    assert_eq!(ids(&state), vec![text("a")]);
    assert_eq!(state.users().len(), 1);
    assert_eq!(state.get_file(&text("a.txt")).unwrap().current_cursors, vec![cursor("a", 0, 0)]);
}

#[test]
fn writer_mut_reaches_the_registered_handle() {
    let mut state: AppState<u32> = AppState::new();
    state.register_client(text("a"), 1);
    state.register_client(text("b"), 2);
    if let Some(writer) = state.writer_mut(&text("b")) {
        *writer += 40;
    }
    assert!(state.writer_mut(&text("c")).is_none());
    assert_eq!(state.writer(&text("a")), Some(&1));
    assert_eq!(state.writer(&text("b")), Some(&42));
}
