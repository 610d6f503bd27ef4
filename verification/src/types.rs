use vstd::prelude::*;
use crate::model::{views, opt_text, opt_texts, clone_texts, clone_opt_text, clone_opt_texts};

verus! {

/// A cursor position as `(row, col)`: a zero-based line index and a zero-based
/// byte offset into that line.
pub type CursorPosition = (usize, usize);

/// A selection range between two positions.
#[derive(Debug, Clone, Copy, PartialEq, Eq)]
pub struct Selection {
    pub start: CursorPosition,
    pub end: CursorPosition,
}

/// A cursor without its owner, as a client reports its own.
#[derive(Debug, Clone, Copy, PartialEq, Eq)]
pub struct LocalCursor {
    pub pos: CursorPosition,
    pub selection: Option<Selection>,
}

/// A cursor together with the client that owns it.
#[derive(Debug, PartialEq, Eq)]
pub struct RemoteCursor {
    pub client_id: String,
    pub pos: CursorPosition,
    pub selection: Option<Selection>,
}

/// The model of [`RemoteCursor`].
pub struct RemoteCursorView {
    pub client_id: Seq<char>,
    pub pos: CursorPosition,
    pub selection: Option<Selection>,
}

impl View for RemoteCursor {
    type V = RemoteCursorView;

    open spec fn view(&self) -> RemoteCursorView {
        RemoteCursorView { client_id: self.client_id@, pos: self.pos, selection: self.selection }
    }
}

impl Clone for RemoteCursor {
    fn clone(&self) -> (copy: Self)
        ensures
            copy@ == self@,
    {
        RemoteCursor {
            client_id: self.client_id.clone(),
            pos: self.pos,
            selection: self.selection,
        }
    }
}

/// A position as `{ row, col }`, the form that edit boundaries use.
#[derive(Debug, Clone, Copy, PartialEq, Eq)]
pub struct ObjPosition {
    pub row: usize,
    pub col: usize,
}

/// A structural edit: the text from `start` to `end` is replaced by the lines
/// of `text`.
#[derive(Debug, PartialEq, Eq)]
pub struct EditOp {
    pub start: ObjPosition,
    pub end: ObjPosition,
    pub text: Vec<String>,
}

/// The model of [`EditOp`].
pub struct EditOpView {
    pub start: ObjPosition,
    pub end: ObjPosition,
    pub text: Seq<Seq<char>>,
}

impl View for EditOp {
    type V = EditOpView;

    open spec fn view(&self) -> EditOpView {
        EditOpView { start: self.start, end: self.end, text: views(self.text@) }
    }
}

impl Clone for EditOp {
    fn clone(&self) -> (copy: Self)
        ensures
            copy@ == self@,
    {
        EditOp { start: self.start, end: self.end, text: clone_texts(&self.text) }
    }
}

/// One file of a project as its host announces it.
#[derive(Debug, PartialEq, Eq)]
pub struct FileState {
    pub path: String,
    pub content: Vec<String>,
    pub is_writeable: bool,
    /// The host's own cursor in this file, if it has one.
    pub my_cursor: Option<LocalCursor>,
}

/// The model of [`FileState`].
pub struct FileStateView {
    pub path: Seq<char>,
    pub content: Seq<Seq<char>>,
    pub is_writeable: bool,
    pub my_cursor: Option<LocalCursor>,
}

impl View for FileState {
    type V = FileStateView;

    open spec fn view(&self) -> FileStateView {
        FileStateView {
            path: self.path@,
            content: views(self.content@),
            is_writeable: self.is_writeable,
            my_cursor: self.my_cursor,
        }
    }
}

impl Clone for FileState {
    fn clone(&self) -> (copy: Self)
        ensures
            copy@ == self@,
    {
        FileState {
            path: self.path.clone(),
            content: clone_texts(&self.content),
            is_writeable: self.is_writeable,
            my_cursor: self.my_cursor,
        }
    }
}

/// What a host sends to start a session: the project and its files.
#[derive(Debug, PartialEq, Eq)]
pub struct StartSessionPayload {
    pub project_name: String,
    pub files: Vec<FileState>,
}

/// The model of [`StartSessionPayload`].
pub struct StartSessionPayloadView {
    pub project_name: Seq<char>,
    pub files: Seq<FileStateView>,
}

impl View for StartSessionPayload {
    type V = StartSessionPayloadView;

    open spec fn view(&self) -> StartSessionPayloadView {
        StartSessionPayloadView { project_name: self.project_name@, files: views(self.files@) }
    }
}

impl Clone for StartSessionPayload {
    fn clone(&self) -> (copy: Self)
        ensures
            copy@ == self@,
    {
        let files = self.files.clone();
        assert(views(files@) =~= views(self.files@));
        StartSessionPayload { project_name: self.project_name.clone(), files }
    }
}

/// What a client sends to end its session.
#[derive(Debug, PartialEq, Eq)]
pub struct EndSessionPayload {
    pub reason: String,
}

/// The model of [`EndSessionPayload`].
pub struct EndSessionPayloadView {
    pub reason: Seq<char>,
}

impl View for EndSessionPayload {
    type V = EndSessionPayloadView;

    open spec fn view(&self) -> EndSessionPayloadView {
        EndSessionPayloadView { reason: self.reason@ }
    }
}

impl Clone for EndSessionPayload {
    fn clone(&self) -> (copy: Self)
        ensures
            copy@ == self@,
    {
        EndSessionPayload { reason: self.reason.clone() }
    }
}

/// What a guest sends to join.
#[derive(Debug, PartialEq, Eq)]
pub struct JoinPayload {
    pub username: String,
    pub client_version: String,
}

/// The model of [`JoinPayload`].
pub struct JoinPayloadView {
    pub username: Seq<char>,
    pub client_version: Seq<char>,
}

impl View for JoinPayload {
    type V = JoinPayloadView;

    open spec fn view(&self) -> JoinPayloadView {
        JoinPayloadView { username: self.username@, client_version: self.client_version@ }
    }
}

impl Clone for JoinPayload {
    fn clone(&self) -> (copy: Self)
        ensures
            copy@ == self@,
    {
        JoinPayload {
            username: self.username.clone(),
            client_version: self.client_version.clone(),
        }
    }
}

/// A connected user: the client's id, the name it joined under and the
/// colour the server gave it.
#[derive(Debug, PartialEq, Eq)]
pub struct UserInfo {
    pub id: String,
    pub username: String,
    pub color: String,
}

/// The model of [`UserInfo`].
pub struct UserInfoView {
    pub id: Seq<char>,
    pub username: Seq<char>,
    pub color: Seq<char>,
}

impl View for UserInfo {
    type V = UserInfoView;

    open spec fn view(&self) -> UserInfoView {
        UserInfoView { id: self.id@, username: self.username@, color: self.color@ }
    }
}

impl Clone for UserInfo {
    fn clone(&self) -> (copy: Self)
        ensures
            copy@ == self@,
    {
        UserInfo {
            id: self.id.clone(),
            username: self.username.clone(),
            color: self.color.clone(),
        }
    }
}

/// The reply to a join: a snapshot of the session.
#[derive(Debug, PartialEq, Eq)]
pub struct JoinGoodPayload {
    pub session_active: bool,
    pub active_users: Vec<UserInfo>,
    pub available_files: Vec<String>,
}

/// The model of [`JoinGoodPayload`].
pub struct JoinGoodPayloadView {
    pub session_active: bool,
    pub active_users: Seq<UserInfoView>,
    pub available_files: Seq<Seq<char>>,
}

impl View for JoinGoodPayload {
    type V = JoinGoodPayloadView;

    open spec fn view(&self) -> JoinGoodPayloadView {
        JoinGoodPayloadView {
            session_active: self.session_active,
            active_users: views(self.active_users@),
            available_files: views(self.available_files@),
        }
    }
}

impl Clone for JoinGoodPayload {
    fn clone(&self) -> (copy: Self)
        ensures
            copy@ == self@,
    {
        let active_users = self.active_users.clone();
        assert(views(active_users@) =~= views(self.active_users@));
        JoinGoodPayload {
            session_active: self.session_active,
            active_users,
            available_files: clone_texts(&self.available_files),
        }
    }
}

/// The announcement of a user who joined.
#[derive(Debug, PartialEq, Eq)]
pub struct UserJoinedPayload {
    pub user: UserInfo,
}

/// The model of [`UserJoinedPayload`].
pub struct UserJoinedPayloadView {
    pub user: UserInfoView,
}

impl View for UserJoinedPayload {
    type V = UserJoinedPayloadView;

    open spec fn view(&self) -> UserJoinedPayloadView {
        UserJoinedPayloadView { user: self.user@ }
    }
}

impl Clone for UserJoinedPayload {
    fn clone(&self) -> (copy: Self)
        ensures
            copy@ == self@,
    {
        UserJoinedPayload { user: self.user.clone() }
    }
}

/// The announcement of a user who left. The server sends none.
#[derive(Debug, PartialEq, Eq)]
pub struct UserLeftPayload {
    pub user_id: String,
    pub username: String,
    pub reason: Option<String>,
}

/// The model of [`UserLeftPayload`].
pub struct UserLeftPayloadView {
    pub user_id: Seq<char>,
    pub username: Seq<char>,
    pub reason: Option<Seq<char>>,
}

impl View for UserLeftPayload {
    type V = UserLeftPayloadView;

    open spec fn view(&self) -> UserLeftPayloadView {
        UserLeftPayloadView {
            user_id: self.user_id@,
            username: self.username@,
            reason: opt_text(self.reason),
        }
    }
}

impl Clone for UserLeftPayload {
    fn clone(&self) -> (copy: Self)
        ensures
            copy@ == self@,
    {
        UserLeftPayload {
            user_id: self.user_id.clone(),
            username: self.username.clone(),
            reason: clone_opt_text(&self.reason),
        }
    }
}

/// The payload of a sync message, in both directions. A request carries the
/// path alone; a reply fills in the other fields.
#[derive(Debug, PartialEq, Eq)]
pub struct SyncPayload {
    pub path: String,
    pub revision: Option<u64>,
    pub content: Option<Vec<String>>,
    pub is_writeable: Option<bool>,
    pub cursors: Option<Vec<RemoteCursor>>,
}

/// The model of [`SyncPayload`].
pub struct SyncPayloadView {
    pub path: Seq<char>,
    pub revision: Option<u64>,
    pub content: Option<Seq<Seq<char>>>,
    pub is_writeable: Option<bool>,
    pub cursors: Option<Seq<RemoteCursorView>>,
}

/// The view of an optional list of cursors.
pub open spec fn opt_cursors(cursors: Option<Vec<RemoteCursor>>) -> Option<Seq<RemoteCursorView>> {
    match cursors {
        Some(c) => Some(views(c@)),
        None => None,
    }
}

impl View for SyncPayload {
    type V = SyncPayloadView;

    open spec fn view(&self) -> SyncPayloadView {
        SyncPayloadView {
            path: self.path@,
            revision: self.revision,
            content: opt_texts(self.content),
            is_writeable: self.is_writeable,
            cursors: opt_cursors(self.cursors),
        }
    }
}

impl Clone for SyncPayload {
    fn clone(&self) -> (copy: Self)
        ensures
            copy@ == self@,
    {
        let cursors = match &self.cursors {
            Some(c) => {
                let copied = c.clone();
                assert(views(copied@) =~= views(c@));
                Some(copied)
            },
            None => None,
        };
        SyncPayload {
            path: self.path.clone(),
            revision: self.revision,
            content: clone_opt_texts(&self.content),
            is_writeable: self.is_writeable,
            cursors,
        }
    }
}

/// An edit of the file at `path`. The revision is carried, not checked.
#[derive(Debug, PartialEq, Eq)]
pub struct EditPayload {
    pub path: String,
    pub revision: u64,
    pub op: EditOp,
}

/// The model of [`EditPayload`].
pub struct EditPayloadView {
    pub path: Seq<char>,
    pub revision: u64,
    pub op: EditOpView,
}

impl View for EditPayload {
    type V = EditPayloadView;

    open spec fn view(&self) -> EditPayloadView {
        EditPayloadView { path: self.path@, revision: self.revision, op: self.op@ }
    }
}

impl Clone for EditPayload {
    fn clone(&self) -> (copy: Self)
        ensures
            copy@ == self@,
    {
        EditPayload { path: self.path.clone(), revision: self.revision, op: self.op.clone() }
    }
}

/// A client's cursor in the file at `path`.
#[derive(Debug, PartialEq, Eq)]
pub struct CursorPayload {
    pub path: String,
    pub pos: CursorPosition,
    pub selection: Option<Selection>,
}

/// The model of [`CursorPayload`].
pub struct CursorPayloadView {
    pub path: Seq<char>,
    pub pos: CursorPosition,
    pub selection: Option<Selection>,
}

impl View for CursorPayload {
    type V = CursorPayloadView;

    open spec fn view(&self) -> CursorPayloadView {
        CursorPayloadView { path: self.path@, pos: self.pos, selection: self.selection }
    }
}

impl Clone for CursorPayload {
    fn clone(&self) -> (copy: Self)
        ensures
            copy@ == self@,
    {
        CursorPayload { path: self.path.clone(), pos: self.pos, selection: self.selection }
    }
}

/// What a message says: one variant for each kind on the wire.
#[derive(Debug, PartialEq, Eq)]
pub enum MessageContent {
    StartSession(StartSessionPayload),
    EndSession(EndSessionPayload),
    Join(JoinPayload),
    JoinGood(JoinGoodPayload),
    UserJoined(UserJoinedPayload),
    UserLeft(UserLeftPayload),
    Sync(SyncPayload),
    Edit(EditPayload),
    Cursor(CursorPayload),
}

/// The model of [`MessageContent`].
pub enum MessageContentView {
    StartSession(StartSessionPayloadView),
    EndSession(EndSessionPayloadView),
    Join(JoinPayloadView),
    JoinGood(JoinGoodPayloadView),
    UserJoined(UserJoinedPayloadView),
    UserLeft(UserLeftPayloadView),
    Sync(SyncPayloadView),
    Edit(EditPayloadView),
    Cursor(CursorPayloadView),
}

impl View for MessageContent {
    type V = MessageContentView;

    open spec fn view(&self) -> MessageContentView {
        match self {
            MessageContent::StartSession(p) => MessageContentView::StartSession(p@),
            MessageContent::EndSession(p) => MessageContentView::EndSession(p@),
            MessageContent::Join(p) => MessageContentView::Join(p@),
            MessageContent::JoinGood(p) => MessageContentView::JoinGood(p@),
            MessageContent::UserJoined(p) => MessageContentView::UserJoined(p@),
            MessageContent::UserLeft(p) => MessageContentView::UserLeft(p@),
            MessageContent::Sync(p) => MessageContentView::Sync(p@),
            MessageContent::Edit(p) => MessageContentView::Edit(p@),
            MessageContent::Cursor(p) => MessageContentView::Cursor(p@),
        }
    }
}

impl Clone for MessageContent {
    fn clone(&self) -> (copy: Self)
        ensures
            copy@ == self@,
    {
        match self {
            MessageContent::StartSession(p) => MessageContent::StartSession(p.clone()),
            MessageContent::EndSession(p) => MessageContent::EndSession(p.clone()),
            MessageContent::Join(p) => MessageContent::Join(p.clone()),
            MessageContent::JoinGood(p) => MessageContent::JoinGood(p.clone()),
            MessageContent::UserJoined(p) => MessageContent::UserJoined(p.clone()),
            MessageContent::UserLeft(p) => MessageContent::UserLeft(p.clone()),
            MessageContent::Sync(p) => MessageContent::Sync(p.clone()),
            MessageContent::Edit(p) => MessageContent::Edit(p.clone()),
            MessageContent::Cursor(p) => MessageContent::Cursor(p.clone()),
        }
    }
}

/// The envelope of every message: who it is from, when it was made, and what
/// it says.
#[derive(Debug, PartialEq, Eq)]
pub struct WebSocketMessage {
    pub client_id: String,
    /// Milliseconds since the epoch.
    pub timestamp: u64,
    pub content: MessageContent,
}

/// The model of [`WebSocketMessage`].
pub struct WebSocketMessageView {
    pub client_id: Seq<char>,
    pub timestamp: u64,
    pub content: MessageContentView,
}

impl View for WebSocketMessage {
    type V = WebSocketMessageView;

    open spec fn view(&self) -> WebSocketMessageView {
        WebSocketMessageView {
            client_id: self.client_id@,
            timestamp: self.timestamp,
            content: self.content@,
        }
    }
}

impl Clone for WebSocketMessage {
    fn clone(&self) -> (copy: Self)
        ensures
            copy@ == self@,
    {
        WebSocketMessage {
            client_id: self.client_id.clone(),
            timestamp: self.timestamp,
            content: self.content.clone(),
        }
    }
}

} // verus!
