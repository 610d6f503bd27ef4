use vstd::prelude::*;
use vstd::string::*;
use crate::clock::millis_since_epoch;
use crate::color::{get_random_color, is_palette_color, palette};
use crate::delivery::{
    broadcast, broadcast_message, listed, send_message, unicast, Delivery, DeliveryView,
};
use crate::edit::EditError;
use crate::model::{clone_texts, opt_view, views};
use crate::registry::{has_key, keys};
use crate::store::{AppState, AppStateView, FileData, FileView};
use crate::types::{
    FileStateView, JoinGoodPayload, JoinGoodPayloadView, JoinPayload, LocalCursor, MessageContent,
    MessageContentView, RemoteCursor, RemoteCursorView, StartSessionPayload, SyncPayload,
    SyncPayloadView, UserInfoView, UserJoinedPayload, UserJoinedPayloadView, WebSocketMessage,
    WebSocketMessageView,
};

verus! {

/// The id that the server signs its own announcements with.
pub open spec fn server_id() -> Seq<char> {
    "server"@
}

/// A client's own cursor as the others see it.
pub open spec fn owned_cursor(id: Seq<char>, cursor: LocalCursor) -> RemoteCursorView {
    RemoteCursorView { client_id: id, pos: cursor.pos, selection: cursor.selection }
}

/// The cursor that a file of a session start is seeded with.
pub open spec fn seed_cursor(id: Seq<char>, cursor: Option<LocalCursor>) -> Option<
    RemoteCursorView,
> {
    match cursor {
        Some(c) => Some(owned_cursor(id, c)),
        None => None,
    }
}

/// The state after the files of a session start have been stored one after
/// the other, each with the host's cursor where the host gave one.
pub open spec fn seed_files<W>(
    s: AppStateView<W>,
    id: Seq<char>,
    files: Seq<FileStateView>,
) -> AppStateView<W>
    decreases files.len(),
{
    if files.len() == 0 {
        s
    } else {
        let f = files.last();
        seed_files(s, id, files.drop_last()).upsert_file(
            f.path,
            f.content,
            seed_cursor(id, f.my_cursor),
        )
    }
}

/// The state after the connection that a message came on has handed over
/// its write handle, if it still had one.
pub open spec fn claim<W>(s: AppStateView<W>, id: Seq<char>, writer: Option<W>) -> AppStateView<W> {
    match writer {
        Some(w) => s.register_client(id, w),
        None => s,
    }
}

/// The state after a join: the sender is a user under the name it gave and
/// with the colour it is given, and its connection is registered if it
/// brought a write handle.
pub open spec fn after_join<W>(
    s: AppStateView<W>,
    id: Seq<char>,
    username: Seq<char>,
    writer: Option<W>,
    color: Seq<char>,
) -> AppStateView<W> {
    claim(s.register_user(UserInfoView { id, username, color }), id, writer)
}

/// The state after a session start: the host is a user, under its own id
/// for a name unless it was a user before; its connection is registered if
/// it brought a write handle; and the files are stored.
pub open spec fn after_start_session<W>(
    s: AppStateView<W>,
    id: Seq<char>,
    files: Seq<FileStateView>,
    writer: Option<W>,
    color: Seq<char>,
) -> AppStateView<W> {
    let with_host = if has_key(s.users, id) {
        s
    } else {
        s.register_user(UserInfoView { id, username: id, color })
    };
    seed_files(claim(with_host, id, writer), id, files)
}

/// The state that handling `msg` leaves. `writer` is the write handle that
/// the connection still holds, and `color` the colour that a new user is
/// given.
pub open spec fn next_state<W>(
    s: AppStateView<W>,
    msg: WebSocketMessageView,
    writer: Option<W>,
    color: Seq<char>,
) -> AppStateView<W> {
    let id = msg.client_id;
    match msg.content {
        MessageContentView::Join(p) => after_join(s, id, p.username, writer, color),
        MessageContentView::StartSession(p) => after_start_session(s, id, p.files, writer, color),
        MessageContentView::EndSession(_) => s.remove_client(id),
        MessageContentView::Edit(p) => s.apply_edit_to_file(p.path, p.op),
        MessageContentView::Cursor(p) => s.upsert_cursor(
            p.path,
            RemoteCursorView { client_id: id, pos: p.pos, selection: p.selection },
        ),
        _ => s,
    }
}

/// The write handle that the connection holds after `msg`: a join or a
/// session start takes it.
pub open spec fn writer_after<W>(msg: WebSocketMessageView, writer: Option<W>) -> Option<W> {
    match msg.content {
        MessageContentView::Join(_) => None,
        MessageContentView::StartSession(_) => None,
        _ => writer,
    }
}

/// The fault with which handling `msg` fails, if it does: that of an edit
/// which cannot be placed in its file.
pub open spec fn fault<W>(s: AppStateView<W>, msg: WebSocketMessageView) -> Option<EditError> {
    match msg.content {
        MessageContentView::Edit(p) => s.edit_fault_at(p.path, p.op),
        _ => None,
    }
}

/// The reply to a join: the users and the file paths of state `s`.
pub open spec fn join_good<W>(s: AppStateView<W>, id: Seq<char>, now: u64) -> WebSocketMessageView {
    WebSocketMessageView {
        client_id: id,
        timestamp: now,
        content: MessageContentView::JoinGood(
            JoinGoodPayloadView {
                session_active: true,
                active_users: s.users,
                available_files: keys(s.files),
            },
        ),
    }
}

/// The server's announcement of a new user.
pub open spec fn user_joined(user: UserInfoView, now: u64) -> WebSocketMessageView {
    WebSocketMessageView {
        client_id: server_id(),
        timestamp: now,
        content: MessageContentView::UserJoined(UserJoinedPayloadView { user }),
    }
}

/// The reply to a sync request for `file`.
pub open spec fn sync_reply(
    file: FileView,
    id: Seq<char>,
    path: Seq<char>,
    now: u64,
) -> WebSocketMessageView {
    WebSocketMessageView {
        client_id: id,
        timestamp: now,
        content: MessageContentView::Sync(
            SyncPayloadView {
                path,
                revision: Some(file.revision),
                content: Some(file.content),
                is_writeable: Some(true),
                cursors: Some(file.cursors),
            },
        ),
    }
}

/// What a join sends: the snapshot of the state after the join, to the
/// sender, and then the announcement of the new user to every other
/// registered client. Both bear the same time.
pub open spec fn join_deliveries<W>(
    s: AppStateView<W>,
    id: Seq<char>,
    username: Seq<char>,
    writer: Option<W>,
    now: u64,
    color: Seq<char>,
) -> Seq<DeliveryView> {
    let after = after_join(s, id, username, writer, color);
    listed(unicast(keys(after.clients), id, join_good(after, id, now))) + seq![
        broadcast(keys(after.clients), id, user_joined(UserInfoView { id, username, color }, now)),
    ]
}

/// What a sync request sends: the file with its cursors, to the sender, or
/// nothing where no file is stored under the path.
pub open spec fn sync_deliveries<W>(
    s: AppStateView<W>,
    id: Seq<char>,
    path: Seq<char>,
    now: u64,
) -> Seq<DeliveryView> {
    match s.get_file(path) {
        Some(f) => listed(unicast(keys(s.clients), id, sync_reply(f, id, path, now))),
        None => Seq::empty(),
    }
}

/// What is sent out when `msg` has been handled without fault, in order.
/// `now` is the time that the server stamps its own messages with. An edit
/// and a cursor go on to every other registered client as they came.
pub open spec fn deliveries<W>(
    s: AppStateView<W>,
    msg: WebSocketMessageView,
    writer: Option<W>,
    now: u64,
    color: Seq<char>,
) -> Seq<DeliveryView> {
    let id = msg.client_id;
    match msg.content {
        MessageContentView::Join(p) => join_deliveries(s, id, p.username, writer, now, color),
        MessageContentView::Sync(p) => sync_deliveries(s, id, p.path, now),
        MessageContentView::Edit(_) => seq![broadcast(keys(s.clients), id, msg)],
        MessageContentView::Cursor(_) => seq![broadcast(keys(s.clients), id, msg)],
        _ => Seq::empty(),
    }
}

/// The paths of a list of files, in order.
fn file_paths(files: &Vec<FileData>) -> (paths: Vec<String>)
    ensures
        views(paths@) == keys(views(files@)),
{
    let mut paths: Vec<String> = Vec::new();
    let mut i: usize = 0;
    while i < files.len()
        invariant
            i <= files@.len(),
            paths@.len() == i,
            forall|j: int| 0 <= j < i ==> (#[trigger] paths@[j])@ == files@[j].path@,
        decreases files@.len() - i,
    {
        paths.push(files[i].path.clone());
        i += 1;
    }
    assert(views(paths@) =~= keys(views(files@)));
    paths
}

/// An optional delivery as a list of none or one.
fn list_of(delivery: Option<Delivery>) -> (out: Vec<Delivery>)
    ensures
        views(out@) == listed(opt_view(delivery)),
{
    let mut out: Vec<Delivery> = Vec::new();
    if let Some(d) = delivery {
        out.push(d);
    }
    assert(views(out@) =~= listed(opt_view(delivery)));
    out
}

/// One delivery as a list.
fn single(delivery: Delivery) -> (out: Vec<Delivery>)
    ensures
        views(out@) == seq![delivery@],
{
    let mut out: Vec<Delivery> = Vec::new();
    out.push(delivery);
    assert(views(out@) =~= seq![delivery@]);
    out
}

/// No delivery.
fn nothing() -> (out: Vec<Delivery>)
    ensures
        views(out@) == Seq::<DeliveryView>::empty(),
{
    let out: Vec<Delivery> = Vec::new();
    assert(views(out@) =~= Seq::<DeliveryView>::empty());
    out
}

/// Hands the connection's write handle, if it still holds one, to the
/// registry under `id`.
fn claim_writer<W>(state: &mut AppState<W>, id: &String, socket_writer: &mut Option<W>)
    ensures
        final(state)@.wf(),
        final(state)@ == claim(old(state)@, id@, *old(socket_writer)),
        *final(socket_writer) is None,
{
    proof {
        use_type_invariant(&*state);
        state.lemma_sound();
    }
    if let Some(writer) = socket_writer.take() {
        state.register_client(id.clone(), writer);
    }
}

/// Handles a join of client `client_id`.
fn handle_join<W>(
    client_id: String,
    payload: JoinPayload,
    state: &mut AppState<W>,
    socket_writer: &mut Option<W>,
    now: u64,
    color: String,
) -> (out: Vec<Delivery>)
    ensures
        final(state)@.wf(),
        *final(socket_writer) is None,
        final(state)@ == after_join(
            old(state)@,
            client_id@,
            payload@.username,
            *old(socket_writer),
            color@,
        ),
        views(out@) == join_deliveries(
            old(state)@,
            client_id@,
            payload@.username,
            *old(socket_writer),
            now,
            color@,
        ),
{
    let user = state.register_user(client_id.clone(), payload.username, color);
    claim_writer(state, &client_id, socket_writer);
    let users = state.users().clone();
    assert(views(users@) =~= state@.users);
    let response = WebSocketMessage {
        client_id: client_id.clone(),
        timestamp: now,
        content: MessageContent::JoinGood(
            JoinGoodPayload {
                session_active: true,
                active_users: users,
                available_files: file_paths(state.files()),
            },
        ),
    };
    let mut out = list_of(send_message(&client_id, response, state.client_ids()));
    proof {
        reveal_strlit("server");
    }
    let notification = WebSocketMessage {
        client_id: String::from_str("server"),
        timestamp: now,
        content: MessageContent::UserJoined(UserJoinedPayload { user }),
    };
    let announcement = broadcast_message(&client_id, notification, state.client_ids());
    let ghost reply = views(out@);
    out.push(announcement);
    assert(views(out@) =~= reply + seq![announcement@]);
    out
}

/// Handles a session start by host `client_id`.
fn handle_start_session<W>(
    client_id: String,
    payload: StartSessionPayload,
    state: &mut AppState<W>,
    socket_writer: &mut Option<W>,
    color: String,
)
    ensures
        final(state)@.wf(),
        *final(socket_writer) is None,
        final(state)@ == after_start_session(
            old(state)@,
            client_id@,
            payload@.files,
            *old(socket_writer),
            color@,
        ),
{
    proof {
        use_type_invariant(&*state);
        state.lemma_sound();
    }
    if !state.has_user(&client_id) {
        let _ = state.register_user(client_id.clone(), client_id.clone(), color);
    }
    claim_writer(state, &client_id, socket_writer);
    let ghost start = state@;
    let ghost wanted = payload@.files;
    let mut files = payload.files;
    let mut i: usize = 0;
    while i < files.len()
        invariant
            i <= files@.len(),
            files@.len() == wanted.len(),
            forall|j: int| i <= j < files@.len() ==> (#[trigger] files@[j])@ == wanted[j],
            state@.wf(),
            state@ == seed_files(start, client_id@, wanted.take(i as int)),
        decreases files@.len() - i,
    {
        let cursor = match files[i].my_cursor {
            Some(c) => Some(
                RemoteCursor { client_id: client_id.clone(), pos: c.pos, selection: c.selection },
            ),
            None => None,
        };
        proof {
            let upto = wanted.take(i + 1);
            assert(upto.drop_last() =~= wanted.take(i as int));
            assert(upto.last() == files@[i as int]@);
            assert(opt_view(cursor) == seed_cursor(client_id@, files@[i as int].my_cursor));
        }
        let mut path = String::new();
        let mut content: Vec<String> = Vec::new();
        core::mem::swap(&mut path, &mut files[i].path);
        core::mem::swap(&mut content, &mut files[i].content);
        state.upsert_file(path, content, cursor);
        i += 1;
    }
    assert(wanted.take(i as int) =~= wanted);
}

/// Handles a sync request of client `client_id`.
fn handle_sync<W>(client_id: String, payload: SyncPayload, state: &AppState<W>, now: u64) -> (out:
    Vec<Delivery>)
    ensures
        views(out@) == sync_deliveries(state@, client_id@, payload@.path, now),
{
    match state.get_file(&payload.path) {
        Some(file) => {
            let cursors = file.current_cursors.clone();
            assert(views(cursors@) =~= file@.cursors);
            let response = WebSocketMessage {
                client_id: client_id.clone(),
                timestamp: now,
                content: MessageContent::Sync(
                    SyncPayload {
                        path: payload.path,
                        revision: Some(file.revision),
                        content: Some(clone_texts(&file.content)),
                        is_writeable: Some(true),
                        cursors: Some(cursors),
                    },
                ),
            };
            list_of(send_message(&client_id, response, state.client_ids()))
        },
        None => nothing(),
    }
}

/// Handles one message with a given time and colour.
///
/// The state and the connection's write handle change as [`next_state`] and
/// [`writer_after`] say, and the result lists what is to be sent, as
/// [`deliveries`] says. The one failure is an edit that cannot be placed:
/// then nothing changes and nothing is sent.
pub fn dispatch<W>(
    msg: WebSocketMessage,
    state: &mut AppState<W>,
    socket_writer: &mut Option<W>,
    now: u64,
    color: String,
) -> (out: Result<Vec<Delivery>, EditError>)
    ensures
        final(state)@.wf(),
        final(state)@ == next_state(old(state)@, msg@, *old(socket_writer), color@),
        match out {
            Ok(sent) => {
                &&& fault(old(state)@, msg@) is None
                &&& *final(socket_writer) == writer_after(msg@, *old(socket_writer))
                &&& views(sent@) == deliveries(
                    old(state)@,
                    msg@,
                    *old(socket_writer),
                    now,
                    color@,
                )
            },
            Err(e) => {
                &&& fault(old(state)@, msg@) == Some(e)
                &&& final(state)@ == old(state)@
                &&& *final(socket_writer) == *old(socket_writer)
            },
        },
{
    proof {
        use_type_invariant(&*state);
        state.lemma_sound();
    }
    let WebSocketMessage { client_id, timestamp, content } = msg;
    match content {
        MessageContent::Join(payload) => Ok(
            handle_join(client_id, payload, state, socket_writer, now, color),
        ),
        MessageContent::StartSession(payload) => {
            handle_start_session(client_id, payload, state, socket_writer, color);
            Ok(nothing())
        },
        MessageContent::Sync(payload) => Ok(handle_sync(client_id, payload, state, now)),
        MessageContent::EndSession(_) => {
            let _ = state.remove_client(&client_id);
            Ok(nothing())
        },
        MessageContent::Edit(payload) => {
            match state.apply_edit_to_file(&payload.path, &payload.op) {
                Ok(()) => {
                    let sender = client_id.clone();
                    let again = WebSocketMessage {
                        client_id,
                        timestamp,
                        content: MessageContent::Edit(payload),
                    };
                    Ok(single(broadcast_message(&sender, again, state.client_ids())))
                },
                Err(e) => Err(e),
            }
        },
        MessageContent::Cursor(payload) => {
            let cursor = RemoteCursor {
                client_id: client_id.clone(),
                pos: payload.pos,
                selection: payload.selection,
            };
            state.upsert_cursor(&payload.path, cursor);
            let sender = client_id.clone();
            let again = WebSocketMessage {
                client_id,
                timestamp,
                content: MessageContent::Cursor(payload),
            };
            Ok(single(broadcast_message(&sender, again, state.client_ids())))
        },
        _ => Ok(nothing()),
    }
}

/// Why a message could not be handled.
#[derive(Debug, Clone, Copy, PartialEq, Eq, Structural)]
pub enum HandleError {
    /// The message is an edit that cannot be placed in its file.
    Edit(EditError),
    /// The message calls for a timestamp, and the clock is set before the
    /// epoch.
    ClockBeforeEpoch,
}

/// True when handling `msg` stamps a message of the server's own with the
/// time: a join does, and a sync request for a known file.
pub open spec fn needs_time<W>(s: AppStateView<W>, msg: WebSocketMessageView) -> bool {
    match msg.content {
        MessageContentView::Join(_) => true,
        MessageContentView::Sync(p) => s.get_file(p.path) is Some,
        _ => false,
    }
}

/// True when `after`, `writer_left` and `sent` are what handling `msg` in
/// state `s` gives at time `now` with colour `color`.
pub open spec fn handled<W>(
    s: AppStateView<W>,
    msg: WebSocketMessageView,
    writer: Option<W>,
    now: u64,
    color: Seq<char>,
    after: AppStateView<W>,
    writer_left: Option<W>,
    sent: Seq<DeliveryView>,
) -> bool {
    &&& is_palette_color(color)
    &&& fault(s, msg) is None
    &&& after == next_state(s, msg, writer, color)
    &&& writer_left == writer_after(msg, writer)
    &&& sent == deliveries(s, msg, writer, now, color)
}

/// True when `after`, `writer_left` and `sent` are what handling `msg` in
/// state `s` gives at some time, with some colour of the palette.
pub open spec fn handled_at_some_time<W>(
    s: AppStateView<W>,
    msg: WebSocketMessageView,
    writer: Option<W>,
    after: AppStateView<W>,
    writer_left: Option<W>,
    sent: Seq<DeliveryView>,
) -> bool {
    exists|now: u64, color: Seq<char>| #[trigger]
        handled(s, msg, writer, now, color, after, writer_left, sent)
}

/// Handles one message of a client: changes the state as the message asks,
/// and lists what is to be sent in reply and to the other clients.
///
/// The time of the server's own messages is read from the clock, and the
/// colour of a new user is picked by it: the outcome is that of
/// [`dispatch`] at some time, with some colour of the palette. Where the
/// message cannot be handled, nothing changes.
pub fn handle_message<W>(
    msg: WebSocketMessage,
    state: &mut AppState<W>,
    socket_writer: &mut Option<W>,
) -> (out: Result<Vec<Delivery>, HandleError>)
    ensures
        final(state)@.wf(),
        match out {
            Ok(sent) => handled_at_some_time(
                old(state)@,
                msg@,
                *old(socket_writer),
                final(state)@,
                *final(socket_writer),
                views(sent@),
            ),
            Err(HandleError::Edit(e)) => {
                &&& fault(old(state)@, msg@) == Some(e)
                &&& final(state)@ == old(state)@
                &&& *final(socket_writer) == *old(socket_writer)
            },
            Err(HandleError::ClockBeforeEpoch) => {
                &&& needs_time(old(state)@, msg@)
                &&& final(state)@ == old(state)@
                &&& *final(socket_writer) == *old(socket_writer)
            },
        },
{
    proof {
        use_type_invariant(&*state);
        state.lemma_sound();
    }
    let timed = match &msg.content {
        MessageContent::Join(_) => true,
        MessageContent::Sync(payload) => state.get_file(&payload.path).is_some(),
        _ => false,
    };
    assert(timed == needs_time(state@, msg@));
    let mut now: u64 = 0;
    if timed {
        match millis_since_epoch() {
            Some(millis) => {
                now = millis;
            },
            None => {
                return Err(HandleError::ClockBeforeEpoch);
            },
        }
    }
    let colored = match &msg.content {
        MessageContent::Join(_) => true,
        MessageContent::StartSession(_) => true,
        _ => false,
    };
    let color = if colored {
        get_random_color()
    } else {
        String::new()
    };
    let ghost picked = if colored {
        color@
    } else {
        palette()[0]
    };
    assert(is_palette_color(picked));
    match dispatch(msg, state, socket_writer, now, color) {
        Ok(sent) => {
            assert(handled(
                old(state)@,
                msg@,
                *old(socket_writer),
                now,
                picked,
                state@,
                *socket_writer,
                views(sent@),
            ));
            Ok(sent)
        },
        Err(e) => Err(HandleError::Edit(e)),
    }
}

} // verus!
