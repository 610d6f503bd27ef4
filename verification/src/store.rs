use vstd::prelude::*;
use crate::edit::{apply_edit, edit_fault, spec_apply_edit, EditError};
use crate::model::{opt_view, views};
use crate::registry::{
    distinct, find, has_key, keys, lemma_position, lemma_same_keys, lemma_upsert, lemma_without,
    lookup, position, put, take_out, upsert, without, Keyed, KeyedView,
};
use crate::types::{EditOp, EditOpView, RemoteCursor, RemoteCursorView, UserInfo, UserInfoView};

verus! {

/// A registered connection in the model: the id of its client and the
/// handle through which the client is written to.
pub struct ClientView<W> {
    pub id: Seq<char>,
    pub writer: W,
}

impl<W> KeyedView for ClientView<W> {
    open spec fn key(&self) -> Seq<char> {
        self.id
    }
}

impl KeyedView for UserInfoView {
    open spec fn key(&self) -> Seq<char> {
        self.id
    }
}

impl Keyed for UserInfo {
    fn key_ref(&self) -> (k: &String) {
        &self.id
    }
}

impl KeyedView for RemoteCursorView {
    open spec fn key(&self) -> Seq<char> {
        self.client_id
    }
}

impl Keyed for RemoteCursor {
    fn key_ref(&self) -> (k: &String) {
        &self.client_id
    }
}

/// The server's copy of one file: its lines, its revision counter and the
/// cursors that clients have in it, one for each client at most.
#[derive(Debug, PartialEq, Eq)]
pub struct FileData {
    pub path: String,
    pub content: Vec<String>,
    pub revision: u64,
    pub current_cursors: Vec<RemoteCursor>,
}

/// The model of [`FileData`].
pub struct FileView {
    pub path: Seq<char>,
    pub content: Seq<Seq<char>>,
    pub revision: u64,
    pub cursors: Seq<RemoteCursorView>,
}

impl View for FileData {
    type V = FileView;

    open spec fn view(&self) -> FileView {
        FileView {
            path: self.path@,
            content: views(self.content@),
            revision: self.revision,
            cursors: views(self.current_cursors@),
        }
    }
}

impl KeyedView for FileView {
    open spec fn key(&self) -> Seq<char> {
        self.path
    }
}

impl Keyed for FileData {
    fn key_ref(&self) -> (k: &String) {
        &self.path
    }
}

impl FileView {
    /// The file without the cursor of client `id`.
    pub open spec fn purge(self, id: Seq<char>) -> FileView {
        FileView { cursors: without(self.cursors, id), ..self }
    }

    /// The file after an edit of its content.
    pub open spec fn edit(self, op: EditOpView) -> FileView {
        FileView { content: spec_apply_edit(self.content, op), ..self }
    }

    /// The file after `cursor` has been stored for its owner.
    pub open spec fn place(self, cursor: RemoteCursorView) -> FileView {
        FileView { cursors: upsert(self.cursors, cursor), ..self }
    }
}

/// The model of the shared state: the registered connections, the users and
/// the files, each in the order in which its entries first came.
pub struct AppStateView<W> {
    pub clients: Seq<ClientView<W>>,
    pub users: Seq<UserInfoView>,
    pub files: Seq<FileView>,
}

impl<W> AppStateView<W> {
    /// No id is registered twice, no user and no path occurs twice, and no
    /// file holds two cursors of one client.
    pub open spec fn wf(self) -> bool {
        &&& distinct(self.clients)
        &&& distinct(self.users)
        &&& distinct(self.files)
        &&& forall|i: int|
            0 <= i < self.files.len() ==> distinct((#[trigger] self.files[i]).cursors)
    }

    /// The state with no connection, user or file.
    pub open spec fn empty() -> Self {
        AppStateView { clients: Seq::empty(), users: Seq::empty(), files: Seq::empty() }
    }

    /// True when a connection is registered under `id`.
    pub open spec fn is_registered(self, id: Seq<char>) -> bool {
        has_key(self.clients, id)
    }

    /// The state after a connection has been registered under `id`.
    pub open spec fn register_client(self, id: Seq<char>, writer: W) -> Self {
        AppStateView { clients: upsert(self.clients, ClientView { id, writer }), ..self }
    }

    /// The state after `user` has been stored under its id.
    pub open spec fn register_user(self, user: UserInfoView) -> Self {
        AppStateView { users: upsert(self.users, user), ..self }
    }

    /// The file that `upsert_file` stores: revision 0, and the given cursor
    /// as its only one, if one is given.
    pub open spec fn fresh_file(
        path: Seq<char>,
        content: Seq<Seq<char>>,
        cursor: Option<RemoteCursorView>,
    ) -> FileView {
        FileView {
            path,
            content,
            revision: 0,
            cursors: match cursor {
                Some(c) => seq![c],
                None => Seq::empty(),
            },
        }
    }

    /// The state after a fresh file has been stored under `path`.
    pub open spec fn upsert_file(
        self,
        path: Seq<char>,
        content: Seq<Seq<char>>,
        cursor: Option<RemoteCursorView>,
    ) -> Self {
        AppStateView { files: upsert(self.files, Self::fresh_file(path, content, cursor)), ..self }
    }

    /// The file stored under `path`, if there is one.
    pub open spec fn get_file(self, path: Seq<char>) -> Option<FileView> {
        lookup(self.files, path)
    }

    /// The state after the file at `path`, if there is one, has been
    /// replaced by `change` of it.
    pub open spec fn change_file(
        self,
        path: Seq<char>,
        change: spec_fn(FileView) -> FileView,
    ) -> Self {
        match position(self.files, path) {
            Some(i) => AppStateView { files: self.files.update(i, change(self.files[i])), ..self },
            None => self,
        }
    }

    /// The state after an edit of the file at `path`. The revision of the
    /// file stays as it is.
    pub open spec fn apply_edit_to_file(self, path: Seq<char>, op: EditOpView) -> Self {
        self.change_file(path, |f: FileView| f.edit(op))
    }

    /// The state after `cursor` has been stored in the file at `path`.
    pub open spec fn upsert_cursor(self, path: Seq<char>, cursor: RemoteCursorView) -> Self {
        self.change_file(path, |f: FileView| f.place(cursor))
    }

    /// The state after client `id` has been forgotten: its connection, its
    /// user entry, and its cursor in every file.
    pub open spec fn remove_client(self, id: Seq<char>) -> Self {
        AppStateView {
            clients: without(self.clients, id),
            users: without(self.users, id),
            files: self.files.map_values(|f: FileView| f.purge(id)),
        }
    }

    /// The fault, if any, with which an edit of the file at `path` fails.
    /// An edit of a path that is not known is no fault.
    pub open spec fn edit_fault_at(self, path: Seq<char>, op: EditOpView) -> Option<EditError> {
        match self.get_file(path) {
            Some(f) => edit_fault(f.content, op),
            None => None,
        }
    }
}

/// Registering a connection keeps a well-formed state well-formed.
pub proof fn lemma_register_client_wf<W>(s: AppStateView<W>, id: Seq<char>, writer: W)
    requires
        s.wf(),
    ensures
        s.register_client(id, writer).wf(),
        s.register_client(id, writer).is_registered(id),
{
    lemma_upsert(s.clients, ClientView { id, writer });
}

/// Registering a user keeps a well-formed state well-formed.
pub proof fn lemma_register_user_wf<W>(s: AppStateView<W>, user: UserInfoView)
    requires
        s.wf(),
    ensures
        s.register_user(user).wf(),
        lookup(s.register_user(user).users, user.id) == Some(user),
{
    lemma_upsert(s.users, user);
}

/// Storing a file keeps a well-formed state well-formed, and the file is
/// then the one found under its path.
pub proof fn lemma_upsert_file_wf<W>(
    s: AppStateView<W>,
    path: Seq<char>,
    content: Seq<Seq<char>>,
    seed: Option<RemoteCursorView>,
)
    requires
        s.wf(),
    ensures
        s.upsert_file(path, content, seed).wf(),
        s.upsert_file(path, content, seed).get_file(path) == Some(
            AppStateView::<W>::fresh_file(path, content, seed),
        ),
{
    lemma_file_upsert_wf(s, AppStateView::<W>::fresh_file(path, content, seed));
}

/// An edit of a file keeps a well-formed state well-formed.
pub proof fn lemma_apply_edit_to_file_wf<W>(s: AppStateView<W>, path: Seq<char>, op: EditOpView)
    requires
        s.wf(),
    ensures
        s.apply_edit_to_file(path, op).wf(),
{
    lemma_position(s.files, path);
    lemma_change_file_wf(s, path, |f: FileView| f.edit(op));
}

/// Storing a cursor keeps a well-formed state well-formed.
pub proof fn lemma_upsert_cursor_wf<W>(
    s: AppStateView<W>,
    path: Seq<char>,
    cursor: RemoteCursorView,
)
    requires
        s.wf(),
    ensures
        s.upsert_cursor(path, cursor).wf(),
{
    lemma_position(s.files, path);
    if position(s.files, path) is Some {
        lemma_upsert(s.files[position(s.files, path)->0].cursors, cursor);
    }
    lemma_change_file_wf(s, path, |f: FileView| f.place(cursor));
}

proof fn lemma_file_upsert_wf<W>(s: AppStateView<W>, file: FileView)
    requires
        s.wf(),
        distinct(file.cursors),
    ensures
        (AppStateView { files: upsert(s.files, file), ..s }).wf(),
        lookup(upsert(s.files, file), file.path) == Some(file),
{
    lemma_upsert(s.files, file);
    lemma_position(s.files, file.path);
}

proof fn lemma_change_file_wf<W>(
    s: AppStateView<W>,
    path: Seq<char>,
    change: spec_fn(FileView) -> FileView,
)
    requires
        s.wf(),
        forall|f: FileView| (#[trigger] change(f)).path == f.path,
        position(s.files, path) is Some ==> distinct(
            change(s.files[position(s.files, path)->0]).cursors,
        ),
    ensures
        s.change_file(path, change).wf(),
        keys(s.change_file(path, change).files) == keys(s.files),
{
    lemma_position(s.files, path);
    let after = s.change_file(path, change);
    assert(keys(after.files) =~= keys(s.files));
}

/// Forgetting a client keeps a well-formed state well-formed, and keeps
/// every file under its path.
pub proof fn lemma_remove_client_wf<W>(s: AppStateView<W>, id: Seq<char>)
    requires
        s.wf(),
    ensures
        s.remove_client(id).wf(),
        keys(s.remove_client(id).files) == keys(s.files),
{
    lemma_without(s.clients, id);
    lemma_without(s.users, id);
    let after = s.remove_client(id);
    assert(keys(after.files) =~= keys(s.files));
    assert forall|i: int| 0 <= i < after.files.len() implies distinct(
        (#[trigger] after.files[i]).cursors,
    ) by {
        lemma_without(s.files[i].cursors, id);
    }
}

/// The connections of a list of ids and a list of handles, pair by pair.
pub open spec fn paired<W>(ids: Seq<Seq<char>>, writers: Seq<W>) -> Seq<ClientView<W>> {
    Seq::new(ids.len(), |i: int| ClientView { id: ids[i], writer: writers[i] })
}

/// The registered connections: the ids in the order of registration, and
/// for each id, at the same place, the handle.
struct ClientTable<W> {
    ids: Vec<String>,
    writers: Vec<W>,
}

impl<W> ClientTable<W> {
    /// The connections, each id with its handle.
    spec fn model(&self) -> Seq<ClientView<W>> {
        paired(views(self.ids@), self.writers@)
    }

    /// Every id has its handle, and no id occurs twice.
    spec fn wf(&self) -> bool {
        self.ids@.len() == self.writers@.len() && views(self.ids@).no_duplicates()
    }

    /// The keys of the model are the ids.
    proof fn lemma_model(&self)
        requires
            self.ids@.len() == self.writers@.len(),
        ensures
            keys(self.model()) == views(self.ids@),
            keys(views(self.ids@)) == views(self.ids@),
            self.wf() <==> distinct(self.model()),
    {
        assert(keys(self.model()) =~= views(self.ids@));
        assert(keys(views(self.ids@)) =~= views(self.ids@));
    }

    /// A table with no connection.
    fn new() -> (table: Self)
        ensures
            table.wf(),
            table.model() == Seq::<ClientView<W>>::empty(),
    {
        let table = ClientTable { ids: Vec::new(), writers: Vec::new() };
        assert(table.model() =~= Seq::<ClientView<W>>::empty());
        table
    }

    /// The place of `id` among the registered ids.
    fn find(&self, id: &String) -> (found: Option<usize>)
        requires
            self.wf(),
        ensures
            match found {
                Some(i) => i < self.ids@.len() && position(self.model(), id@) == Some(i as int),
                None => position(self.model(), id@) is None,
            },
    {
        proof {
            self.lemma_model();
            lemma_same_keys(self.model(), views(self.ids@), id@);
        }
        find(&self.ids, id)
    }

    /// Stores `writer` under `id`: in place of the handle that was there,
    /// or, where there was none, behind the others.
    fn register(&mut self, id: String, writer: W)
        requires
            old(self).wf(),
        ensures
            final(self).wf(),
            final(self).model() == upsert(old(self).model(), ClientView { id: id@, writer }),
    {
        proof {
            self.lemma_model();
            lemma_position(self.model(), id@);
            lemma_upsert(self.model(), ClientView { id: id@, writer });
        }
        match self.find(&id) {
            Some(i) => {
                self.writers[i] = writer;
            },
            None => {
                self.ids.push(id);
                self.writers.push(writer);
            },
        }
        assert(self.model() =~= upsert(old(self).model(), ClientView { id: id@, writer }));
        proof {
            self.lemma_model();
        }
    }

    /// Takes out the connection under `id`, if there is one, and hands its
    /// handle back.
    fn remove(&mut self, id: &String) -> (writer: Option<W>)
        requires
            old(self).wf(),
        ensures
            final(self).wf(),
            final(self).model() == without(old(self).model(), id@),
            match writer {
                Some(w) => lookup(old(self).model(), id@) == Some(ClientView { id: id@, writer: w }),
                None => !has_key(old(self).model(), id@),
            },
    {
        proof {
            self.lemma_model();
            lemma_position(self.model(), id@);
            lemma_without(self.model(), id@);
        }
        match self.find(id) {
            Some(i) => {
                let _ = self.ids.remove(i);
                let writer = self.writers.remove(i);
                assert(self.model() =~= without(old(self).model(), id@));
                proof {
                    self.lemma_model();
                }
                Some(writer)
            },
            None => None,
        }
    }
}

/// Files whose models hold no cursor twice hold no cursor twice.
proof fn lemma_files_sound(files: Seq<FileData>)
    requires
        forall|i: int| 0 <= i < files.len() ==> distinct((#[trigger] views(files)[i]).cursors),
    ensures
        forall|i: int|
            0 <= i < files.len() ==> distinct(views((#[trigger] files[i]).current_cursors@)),
{
    assert forall|i: int| 0 <= i < files.len() implies distinct(
        views((#[trigger] files[i]).current_cursors@),
    ) by {
        assert(distinct(views(files)[i].cursors));
    }
}

/// The shared state of a session: which connections are registered, which
/// users are present, and the files with their cursors.
pub struct AppState<W> {
    clients: ClientTable<W>,
    users: Vec<UserInfo>,
    files: Vec<FileData>,
}

impl<W> View for AppState<W> {
    type V = AppStateView<W>;

    closed spec fn view(&self) -> AppStateView<W> {
        AppStateView {
            clients: self.clients.model(),
            users: views(self.users@),
            files: views(self.files@),
        }
    }
}

impl<W> AppState<W> {
    /// What holds of every state at all times: every registered id has its
    /// handle, and nothing is stored twice under one key.
    #[verifier::type_invariant]
    pub closed spec fn sound(&self) -> bool {
        &&& self.clients.wf()
        &&& distinct(views(self.users@))
        &&& distinct(views(self.files@))
        &&& forall|i: int|
            0 <= i < self.files@.len() ==> distinct(
                views((#[trigger] self.files@[i]).current_cursors@),
            )
    }

    /// The model of a sound state is well-formed. Every state is sound.
    pub proof fn lemma_sound(&self)
        requires
            self.sound(),
        ensures
            self@.wf(),
    {
        self.clients.lemma_model();
        assert forall|i: int| 0 <= i < self@.files.len() implies distinct(
            (#[trigger] self@.files[i]).cursors,
        ) by {
            assert(distinct(views(self.files@[i].current_cursors@)));
        }
    }

    /// A state with no connection, user or file.
    pub fn new() -> (state: Self)
        ensures
            state@ == AppStateView::<W>::empty(),
            state@.wf(),
    {
        let state = AppState { clients: ClientTable::new(), users: Vec::new(), files: Vec::new() };
        assert(state@ =~= AppStateView::<W>::empty()) by {
            assert(views(state.users@) =~= Seq::<UserInfoView>::empty());
            assert(views(state.files@) =~= Seq::<FileView>::empty());
        }
        state
    }

    /// Registers the connection of client `id`. A connection that was
    /// registered under that id before gives way to the new one.
    pub fn register_client(&mut self, id: String, writer: W)
        ensures
            final(self)@ == old(self)@.register_client(id@, writer),
            final(self)@.wf(),
    {
        proof {
            use_type_invariant(&*self);
            self.lemma_sound();
            lemma_upsert(self@.clients, ClientView { id: id@, writer });
        }
        let mut clients = ClientTable::new();
        core::mem::swap(&mut clients, &mut self.clients);
        clients.register(id, writer);
        self.clients = clients;
    }

    /// Makes client `id` a user with the given name and colour, in place of
    /// any user it was before, and hands back what was stored.
    pub fn register_user(&mut self, id: String, username: String, color: String) -> (user:
        UserInfo)
        ensures
            user@ == (UserInfoView { id: id@, username: username@, color: color@ }),
            final(self)@ == old(self)@.register_user(user@),
            final(self)@.wf(),
    {
        let user = UserInfo { id, username, color };
        proof {
            use_type_invariant(&*self);
            self.lemma_sound();
            lemma_upsert(self@.users, user@);
        }
        let mut users: Vec<UserInfo> = Vec::new();
        core::mem::swap(&mut users, &mut self.users);
        put(&mut users, user.clone());
        self.users = users;
        user
    }

    /// Stores a file under `path` with revision 0, in place of any file that
    /// was there. The cursor, if one is given, becomes its only cursor.
    pub fn upsert_file(&mut self, path: String, content: Vec<String>, cursor: Option<RemoteCursor>)
        ensures
            final(self)@ == old(self)@.upsert_file(path@, views(content@), opt_view(cursor)),
            final(self)@.wf(),
    {
        let ghost seed = opt_view(cursor);
        let mut cursors: Vec<RemoteCursor> = Vec::new();
        if let Some(c) = cursor {
            cursors.push(c);
        }
        let file = FileData { path, content, revision: 0, current_cursors: cursors };
        proof {
            use_type_invariant(&*self);
            self.lemma_sound();
            assert(file@ == AppStateView::<W>::fresh_file(path@, views(content@), seed)) by {
                assert(views(cursors@) =~= AppStateView::<W>::fresh_file(
                    path@,
                    views(content@),
                    seed,
                ).cursors);
            }
            lemma_file_upsert_wf(self@, file@);
        }
        let mut files: Vec<FileData> = Vec::new();
        core::mem::swap(&mut files, &mut self.files);
        put(&mut files, file);
        proof {
            lemma_files_sound(files@);
        }
        self.files = files;
    }

    /// The file stored under `path`, if there is one.
    pub fn get_file(&self, path: &String) -> (file: Option<&FileData>)
        ensures
            match file {
                Some(f) => self@.get_file(path@) == Some(f@),
                None => self@.get_file(path@) is None,
            },
    {
        match find(&self.files, path) {
            Some(i) => Some(&self.files[i]),
            None => None,
        }
    }

    /// Applies an edit to the file stored under `path`. Where no file is
    /// stored there, nothing happens, and that is no error. The revision
    /// stays as it is.
    pub fn apply_edit_to_file(&mut self, path: &String, op: &EditOp) -> (outcome: Result<
        (),
        EditError,
    >)
        ensures
            final(self)@ == old(self)@.apply_edit_to_file(path@, op@),
            outcome == match old(self)@.edit_fault_at(path@, op@) {
                Some(fault) => Err::<(), EditError>(fault),
                None => Ok(()),
            },
            outcome is Err ==> final(self)@ == old(self)@,
            final(self)@.wf(),
    {
        proof {
            use_type_invariant(&*self);
            self.lemma_sound();
            lemma_position(self@.files, path@);
            lemma_change_file_wf(self@, path@, |f: FileView| f.edit(op@));
        }
        let mut files: Vec<FileData> = Vec::new();
        core::mem::swap(&mut files, &mut self.files);
        let outcome = match find(&files, path) {
            Some(i) => {
                let outcome = apply_edit(&mut files[i].content, op);
                assert(views(files@) =~= old(self)@.files.update(
                    i as int,
                    old(self)@.files[i as int].edit(op@),
                ));
                assert(outcome is Err ==> views(files@) =~= old(self)@.files);
                outcome
            },
            None => Ok(()),
        };
        proof {
            lemma_files_sound(files@);
        }
        self.files = files;
        outcome
    }

    /// Stores a cursor in the file under `path`, in place of any cursor of
    /// the same client. Where no file is stored there, the cursor is dropped.
    pub fn upsert_cursor(&mut self, path: &String, cursor: RemoteCursor)
        ensures
            final(self)@ == old(self)@.upsert_cursor(path@, cursor@),
            final(self)@.wf(),
    {
        proof {
            use_type_invariant(&*self);
            self.lemma_sound();
            lemma_position(self@.files, path@);
            if position(self@.files, path@) is Some {
                lemma_upsert(self@.files[position(self@.files, path@)->0].cursors, cursor@);
            }
            lemma_change_file_wf(self@, path@, |f: FileView| f.place(cursor@));
        }
        let mut files: Vec<FileData> = Vec::new();
        core::mem::swap(&mut files, &mut self.files);
        match find(&files, path) {
            Some(i) => {
                put(&mut files[i].current_cursors, cursor);
                assert(views(files@) =~= old(self)@.files.update(
                    i as int,
                    old(self)@.files[i as int].place(cursor@),
                ));
            },
            None => {},
        }
        proof {
            lemma_files_sound(files@);
        }
        self.files = files;
    }

    /// Forgets client `id`: its connection, its user entry, and its cursor
    /// in every file. Hands back the connection's handle, if one was
    /// registered.
    pub fn remove_client(&mut self, id: &String) -> (writer: Option<W>)
        ensures
            final(self)@ == old(self)@.remove_client(id@),
            final(self)@.wf(),
            match writer {
                Some(w) => lookup(old(self)@.clients, id@) == Some(ClientView { id: id@, writer: w }),
                None => !old(self)@.is_registered(id@),
            },
    {
        proof {
            use_type_invariant(&*self);
            self.lemma_sound();
            lemma_remove_client_wf(self@, id@);
        }
        let mut clients = ClientTable::new();
        let mut users: Vec<UserInfo> = Vec::new();
        let mut files: Vec<FileData> = Vec::new();
        core::mem::swap(&mut clients, &mut self.clients);
        core::mem::swap(&mut users, &mut self.users);
        core::mem::swap(&mut files, &mut self.files);
        let writer = clients.remove(id);
        let _ = take_out(&mut users, id);
        let mut i: usize = 0;
        while i < files.len()
            invariant
                i <= files@.len(),
                files@.len() == old(self).files@.len(),
                forall|j: int|
                    0 <= j < i ==> (#[trigger] files@[j])@ == old(self).files@[j]@.purge(id@),
                forall|j: int| i <= j < files@.len() ==> files@[j] == old(self).files@[j],
            decreases files@.len() - i,
        {
            let _ = take_out(&mut files[i].current_cursors, id);
            i += 1;
        }
        assert(views(files@) =~= old(self)@.remove_client(id@).files);
        self.clients = clients;
        self.users = users;
        proof {
            lemma_files_sound(files@);
        }
        self.files = files;
        writer
    }

    /// The ids of the registered connections, in the order of their
    /// registration.
    pub fn client_ids(&self) -> (ids: &Vec<String>)
        ensures
            views(ids@) == keys(self@.clients),
    {
        proof {
            use_type_invariant(self);
            self.clients.lemma_model();
        }
        &self.clients.ids
    }

    /// The users, in the order in which they first came.
    pub fn users(&self) -> (users: &Vec<UserInfo>)
        ensures
            views(users@) == self@.users,
    {
        &self.users
    }

    /// The files, in the order in which their paths first came.
    pub fn files(&self) -> (files: &Vec<FileData>)
        ensures
            views(files@) == self@.files,
    {
        &self.files
    }

    /// True when a connection is registered under `id`.
    pub fn is_registered(&self, id: &String) -> (registered: bool)
        ensures
            registered == self@.is_registered(id@),
    {
        proof {
            use_type_invariant(self);
            lemma_position(self@.clients, id@);
        }
        self.clients.find(id).is_some()
    }

    /// True when client `id` is a user.
    pub fn has_user(&self, id: &String) -> (present: bool)
        ensures
            present == has_key(self@.users, id@),
    {
        proof {
            lemma_position(self@.users, id@);
        }
        find(&self.users, id).is_some()
    }

    /// The handle of the connection registered under `id`.
    pub fn writer(&self, id: &String) -> (writer: Option<&W>)
        ensures
            match writer {
                Some(w) => lookup(self@.clients, id@) == Some(ClientView { id: id@, writer: *w }),
                None => !self@.is_registered(id@),
            },
    {
        proof {
            use_type_invariant(self);
            lemma_position(self@.clients, id@);
        }
        match self.clients.find(id) {
            Some(i) => Some(&self.clients.writers[i]),
            None => None,
        }
    }

    /// The handle of the connection registered under `id`, to write through.
    /// Whatever is done to the handle, the rest of the state stays as it is.
    pub fn writer_mut(&mut self, id: &String) -> (writer: Option<&mut W>)
        ensures
            match writer {
                Some(w) => {
                    &&& position(old(self)@.clients, id@) matches Some(i)
                    &&& *w == old(self)@.clients[i].writer
                    &&& final(self)@.clients =~= old(self)@.clients.update(
                        i,
                        ClientView { id: id@, writer: *final(w) },
                    )
                    &&& final(self)@.users == old(self)@.users
                    &&& final(self)@.files == old(self)@.files
                },
                None => !old(self)@.is_registered(id@) && final(self)@ == old(self)@,
            },
    {
        proof {
            use_type_invariant(&*self);
            lemma_position(self@.clients, id@);
        }
        match self.clients.find(id) {
            Some(i) => Some(&mut self.clients.writers[i]),
            None => None,
        }
    }
}

} // verus!
