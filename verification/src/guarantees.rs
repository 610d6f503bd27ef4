use vstd::prelude::*;
use crate::delivery::{lemma_others, DeliveryView};
use crate::dispatch::{claim, deliveries, fault, next_state, seed_cursor, seed_files};
use crate::edit::spec_apply_edit;
use crate::registry::{
    distinct, has_key, keys, lemma_keys, lemma_position, lemma_same_keys, lemma_upsert,
    lemma_without, lookup, position,
};
use crate::store::{lemma_upsert_cursor_wf, lemma_upsert_file_wf, AppStateView, ClientView};
use crate::types::{
    EditOpView, FileStateView, MessageContentView, RemoteCursorView, UserInfoView,
    WebSocketMessageView,
};

verus! {

proof fn lemma_seed_files_wf<W>(s: AppStateView<W>, id: Seq<char>, files: Seq<FileStateView>)
    requires
        s.wf(),
    ensures
        seed_files(s, id, files).wf(),
        seed_files(s, id, files).clients == s.clients,
        seed_files(s, id, files).users == s.users,
    decreases files.len(),
{
    if files.len() > 0 {
        let f = files.last();
        let before = seed_files(s, id, files.drop_last());
        lemma_seed_files_wf(s, id, files.drop_last());
        lemma_upsert_file_wf(before, f.path, f.content, seed_cursor(id, f.my_cursor));
    }
}

/// Whatever message is handled, a well-formed state stays well-formed.
pub proof fn lemma_next_state_wf<W>(
    s: AppStateView<W>,
    msg: WebSocketMessageView,
    writer: Option<W>,
    color: Seq<char>,
)
    requires
        s.wf(),
    ensures
        next_state(s, msg, writer, color).wf(),
{
    let id = msg.client_id;
    match msg.content {
        MessageContentView::Join(p) => {
            let user = UserInfoView { id, username: p.username, color };
            lemma_upsert(s.users, user);
            if let Some(w) = writer {
                lemma_upsert(s.clients, ClientView { id, writer: w });
            }
        },
        MessageContentView::StartSession(p) => {
            let user = UserInfoView { id, username: id, color };
            lemma_upsert(s.users, user);
            let with_host = if has_key(s.users, id) {
                s
            } else {
                s.register_user(user)
            };
            if let Some(w) = writer {
                lemma_upsert(with_host.clients, ClientView { id, writer: w });
            }
            lemma_seed_files_wf(claim(with_host, id, writer), id, p.files);
        },
        MessageContentView::EndSession(_) => {
            lemma_end_session_forgets_sender(s, msg, writer, color);
        },
        MessageContentView::Edit(p) => {
            lemma_edit_touches_one_file(s, p.path, p.op);
        },
        MessageContentView::Cursor(p) => {
            let cursor = RemoteCursorView { client_id: id, pos: p.pos, selection: p.selection };
            lemma_upsert_cursor_wf(s, p.path, cursor);
        },
        _ => {},
    }
}

/// An edit changes the content of the file at its path, as the edit says,
/// and nothing else: not the file's revision or cursors, no other file, no
/// user and no connection. Where no file is stored at the path, nothing
/// changes at all.
pub proof fn lemma_edit_touches_one_file<W>(s: AppStateView<W>, path: Seq<char>, op: EditOpView)
    requires
        s.wf(),
    ensures
        ({
            let after = s.apply_edit_to_file(path, op);
            &&& after.wf()
            &&& after.clients == s.clients
            &&& after.users == s.users
            &&& keys(after.files) == keys(s.files)
            &&& after.get_file(path) == match s.get_file(path) {
                Some(f) => Some(f.edit(op)),
                None => None,
            }
            &&& forall|other: Seq<char>|
                other != path ==> #[trigger] after.get_file(other) == s.get_file(other)
        }),
{
    let after = s.apply_edit_to_file(path, op);
    lemma_position(s.files, path);
    if position(s.files, path) is Some {
        assert(keys(after.files) =~= keys(s.files));
        lemma_same_keys(after.files, s.files, path);
        assert forall|other: Seq<char>| other != path implies #[trigger] after.get_file(other)
            == s.get_file(other) by {
            lemma_same_keys(after.files, s.files, other);
            lemma_position(s.files, other);
        }
    }
}

/// True when `msg` is an edit of the file at `path`.
pub open spec fn is_edit_of(msg: WebSocketMessageView, path: Seq<char>) -> bool {
    msg.content matches MessageContentView::Edit(p) && p.path == path
}

/// The state after the messages have been handled one after the other, in
/// the order of the sequence, by connections that hold no write handle.
pub open spec fn after_all<W>(s: AppStateView<W>, msgs: Seq<WebSocketMessageView>) -> AppStateView<
    W,
>
    decreases msgs.len(),
{
    if msgs.len() == 0 {
        s
    } else {
        next_state(after_all(s, msgs.drop_last()), msgs.last(), None, Seq::empty())
    }
}

/// The content after the edits that the messages carry have been applied
/// to it one after the other, in the order of the sequence.
pub open spec fn edited(content: Seq<Seq<char>>, msgs: Seq<WebSocketMessageView>) -> Seq<Seq<char>>
    decreases msgs.len(),
{
    if msgs.len() == 0 {
        content
    } else {
        match msgs.last().content {
            MessageContentView::Edit(p) => spec_apply_edit(edited(content, msgs.drop_last()), p.op),
            _ => edited(content, msgs.drop_last()),
        }
    }
}

/// Edits of one file that are handled one after the other leave the file
/// with the content that results from applying them to it in that order:
/// none is lost and none is applied to anything but the result of the one
/// before. What an edit does depends neither on the write handle nor on the
/// colour that it is handled with.
pub proof fn lemma_edits_apply_in_order<W>(
    s: AppStateView<W>,
    msgs: Seq<WebSocketMessageView>,
    path: Seq<char>,
)
    requires
        s.wf(),
        s.get_file(path) is Some,
        forall|i: int| 0 <= i < msgs.len() ==> is_edit_of(#[trigger] msgs[i], path),
    ensures
        after_all(s, msgs).wf(),
        after_all(s, msgs).get_file(path) is Some,
        after_all(s, msgs).get_file(path)->0.content == edited(s.get_file(path)->0.content, msgs),
        forall|other: Seq<char>|
            other != path ==> #[trigger] after_all(s, msgs).get_file(other) == s.get_file(other),
        forall|i: int, writer: Option<W>, color: Seq<char>, t: AppStateView<W>|
            0 <= i < msgs.len() ==> #[trigger] next_state(t, msgs[i], writer, color) == next_state(
                t,
                msgs[i],
                None,
                Seq::empty(),
            ),
    decreases msgs.len(),
{
    if msgs.len() > 0 {
        let front = msgs.drop_last();
        let last = msgs.last();
        assert(is_edit_of(msgs[msgs.len() - 1], path));
        assert forall|i: int| 0 <= i < front.len() implies is_edit_of(#[trigger] front[i], path) by {
            assert(front[i] == msgs[i]);
        }
        lemma_edits_apply_in_order(s, front, path);
        let before = after_all(s, front);
        lemma_edit_touches_one_file(before, path, last.content->Edit_0.op);
    }
    assert forall|i: int, writer: Option<W>, color: Seq<char>, t: AppStateView<W>|
        0 <= i < msgs.len() implies #[trigger] next_state(t, msgs[i], writer, color) == next_state(
        t,
        msgs[i],
        None,
        Seq::empty(),
    ) by {
        assert(is_edit_of(msgs[i], path));
    }
}

/// A join, by a client whose connection hands over its write handle or is
/// registered already, is answered by two deliveries. The first is the
/// snapshot, for the sender alone. The second is the announcement of the new
/// user: it goes once to every other client that is registered, and not to
/// the sender.
pub proof fn lemma_join_is_answered_and_announced<W>(
    s: AppStateView<W>,
    msg: WebSocketMessageView,
    writer: Option<W>,
    now: u64,
    color: Seq<char>,
)
    requires
        s.wf(),
        msg.content is Join,
        writer is Some || s.is_registered(msg.client_id),
    ensures
        ({
            let after = next_state(s, msg, writer, color);
            let sent = deliveries(s, msg, writer, now, color);
            &&& sent.len() == 2
            &&& sent[0].message.content is JoinGood
            &&& sent[0].recipients == seq![msg.client_id]
            &&& sent[1].message.content is UserJoined
            &&& sent[1].message.content->UserJoined_0.user.id == msg.client_id
            &&& sent[1].recipients.no_duplicates()
            &&& !sent[1].recipients.contains(msg.client_id)
            &&& forall|id: Seq<char>|
                id != msg.client_id ==> (#[trigger] sent[1].recipients.contains(id)
                    <==> after.is_registered(id))
            &&& forall|id: Seq<char>|
                id != msg.client_id ==> (#[trigger] after.is_registered(id) <==> s.is_registered(
                    id,
                ))
        }),
{
    let id = msg.client_id;
    let after = next_state(s, msg, writer, color);
    lemma_next_state_wf(s, msg, writer, color);
    if let Some(w) = writer {
        lemma_upsert(s.clients, ClientView { id, writer: w });
    }
    assert(after.is_registered(id));
    lemma_others(keys(after.clients), id);
    assert forall|c: Seq<char>| keys(after.clients).contains(c) <==> after.is_registered(c) by {
        lemma_keys(after.clients, c);
    }
}

/// An edit that can be placed, and a cursor, go on as they came, in one
/// delivery, once to every registered client but the sender. Neither
/// changes who is registered or who is a user.
pub proof fn lemma_edit_and_cursor_go_to_the_others<W>(
    s: AppStateView<W>,
    msg: WebSocketMessageView,
    writer: Option<W>,
    now: u64,
    color: Seq<char>,
)
    requires
        s.wf(),
        msg.content is Edit || msg.content is Cursor,
    ensures
        ({
            let after = next_state(s, msg, writer, color);
            let sent = deliveries(s, msg, writer, now, color);
            &&& after.clients == s.clients
            &&& after.users == s.users
            &&& sent.len() == 1
            &&& sent[0].message == msg
            &&& sent[0].recipients.no_duplicates()
            &&& !sent[0].recipients.contains(msg.client_id)
            &&& forall|id: Seq<char>|
                id != msg.client_id ==> (#[trigger] sent[0].recipients.contains(id)
                    <==> s.is_registered(id))
        }),
{
    lemma_others(keys(s.clients), msg.client_id);
    assert forall|c: Seq<char>| keys(s.clients).contains(c) <==> s.is_registered(c) by {
        lemma_keys(s.clients, c);
    }
    lemma_position(s.files, msg.content->Edit_0.path);
    lemma_position(s.files, msg.content->Cursor_0.path);
}

/// The end of a session forgets its sender: the sender is no user and has no
/// connection afterwards, and no file holds a cursor of it. Everything else
/// stays: the other users and connections, and every file with its content
/// and revision.
pub proof fn lemma_end_session_forgets_sender<W>(
    s: AppStateView<W>,
    msg: WebSocketMessageView,
    writer: Option<W>,
    color: Seq<char>,
)
    requires
        s.wf(),
        msg.content is EndSession,
    ensures
        ({
            let after = next_state(s, msg, writer, color);
            let gone = msg.client_id;
            &&& after.wf()
            &&& !has_key(after.users, gone)
            &&& !after.is_registered(gone)
            &&& after.files.len() == s.files.len()
            &&& forall|i: int|
                0 <= i < after.files.len() ==> {
                    let f = #[trigger] after.files[i];
                    &&& !has_key(f.cursors, gone)
                    &&& f.path == s.files[i].path
                    &&& f.content == s.files[i].content
                    &&& f.revision == s.files[i].revision
                    &&& forall|id: Seq<char>|
                        id != gone ==> #[trigger] lookup(f.cursors, id) == lookup(
                            s.files[i].cursors,
                            id,
                        )
                }
            &&& forall|id: Seq<char>|
                id != gone ==> #[trigger] lookup(after.users, id) == lookup(s.users, id)
            &&& forall|id: Seq<char>|
                id != gone ==> #[trigger] lookup(after.clients, id) == lookup(s.clients, id)
        }),
{
    let after = next_state(s, msg, writer, color);
    let gone = msg.client_id;
    lemma_without(s.clients, gone);
    lemma_without(s.users, gone);
    assert(keys(after.files) =~= keys(s.files));
    assert forall|i: int| 0 <= i < after.files.len() implies {
        let f = #[trigger] after.files[i];
        &&& distinct(f.cursors)
        &&& !has_key(f.cursors, gone)
        &&& forall|id: Seq<char>|
            id != gone ==> #[trigger] lookup(f.cursors, id) == lookup(s.files[i].cursors, id)
    } by {
        lemma_without(s.files[i].cursors, gone);
    }
}

/// After a client has ended its session, a sync of any file shows no cursor
/// of that client, whoever asks for it.
pub proof fn lemma_sync_after_end_session_shows_no_cursor<W>(
    s: AppStateView<W>,
    end: WebSocketMessageView,
    end_writer: Option<W>,
    sync: WebSocketMessageView,
    sync_writer: Option<W>,
    now: u64,
    color: Seq<char>,
)
    requires
        s.wf(),
        end.content is EndSession,
        sync.content is Sync,
    ensures
        ({
            let after = next_state(s, end, end_writer, color);
            let sent = deliveries(after, sync, sync_writer, now, color);
            forall|i: int, j: int|
                0 <= i < sent.len() && sent[i].message.content is Sync
                    && sent[i].message.content->Sync_0.cursors is Some && 0 <= j
                    < sent[i].message.content->Sync_0.cursors->0.len() ==> (
                #[trigger] sent[i].message.content->Sync_0.cursors->0[j]).client_id
                    != end.client_id
        }),
{
    let after = next_state(s, end, end_writer, color);
    lemma_end_session_forgets_sender(s, end, end_writer, color);
    let path = sync.content->Sync_0.path;
    lemma_position(after.files, path);
}

/// A sync request for a path under which no file is stored is answered by
/// nothing, and changes nothing.
pub proof fn lemma_sync_of_unknown_path_is_silent<W>(
    s: AppStateView<W>,
    msg: WebSocketMessageView,
    writer: Option<W>,
    now: u64,
    color: Seq<char>,
)
    requires
        msg.content is Sync,
        s.get_file(msg.content->Sync_0.path) is None,
    ensures
        deliveries(s, msg, writer, now, color) == Seq::<DeliveryView>::empty(),
        next_state(s, msg, writer, color) == s,
        fault(s, msg) is None,
{
}

} // verus!
