use vstd::prelude::*;
use crate::delivery::{Delivery, DeliveryView};
use crate::dispatch::{fault, handle_message, handled_at_some_time, needs_time, HandleError};
use crate::model::{opt_text, views};
use crate::store::{AppState, AppStateView};
use crate::types::{MessageContent, WebSocketMessage};

verus! {

/// Where a connection stands.
#[derive(Debug, Clone, Copy, PartialEq, Eq, Structural)]
pub enum Phase {
    /// No message has come yet.
    Unregistered,
    /// A message has come, and with it the id of the client.
    Registered,
    /// The client has ended its session. No further message is handled.
    Closed,
}

/// What the server keeps for one connection: the id of its client, known
/// from the first message on; the write handle, held until a join or a
/// session start hands it to the shared state; and whether the client has
/// ended its session.
pub struct Connection<W> {
    pub client_id: Option<String>,
    pub socket_writer: Option<W>,
    pub ended: bool,
}

/// The model of [`Connection`].
pub struct ConnectionView<W> {
    pub client_id: Option<Seq<char>>,
    pub socket_writer: Option<W>,
    pub ended: bool,
}

impl<W> View for Connection<W> {
    type V = ConnectionView<W>;

    open spec fn view(&self) -> ConnectionView<W> {
        ConnectionView {
            client_id: opt_text(self.client_id),
            socket_writer: self.socket_writer,
            ended: self.ended,
        }
    }
}

impl<W> ConnectionView<W> {
    /// Where the connection stands.
    pub open spec fn phase(self) -> Phase {
        if self.ended {
            Phase::Closed
        } else if self.client_id is None {
            Phase::Unregistered
        } else {
            Phase::Registered
        }
    }
}

/// The id that a connection goes by after a message from `sender`: the one
/// it had, or, where it had none, the sender's.
pub open spec fn captured(known: Option<Seq<char>>, sender: Seq<char>) -> Option<Seq<char>> {
    match known {
        Some(id) => Some(id),
        None => Some(sender),
    }
}

/// The state after a connection has gone: the client that it went by is
/// forgotten.
pub open spec fn cleaned_up<W>(s: AppStateView<W>, known: Option<Seq<char>>) -> AppStateView<W> {
    match known {
        Some(id) => s.remove_client(id),
        None => s,
    }
}

impl<W> Connection<W> {
    /// A connection on which no message has come yet.
    pub fn new(writer: W) -> (connection: Self)
        ensures
            connection@ == (ConnectionView {
                client_id: None,
                socket_writer: Some(writer),
                ended: false,
            }),
            connection@.phase() == Phase::Unregistered,
    {
        Connection { client_id: None, socket_writer: Some(writer), ended: false }
    }

    /// Where the connection stands.
    pub fn phase(&self) -> (phase: Phase)
        ensures
            phase == self@.phase(),
    {
        if self.ended {
            Phase::Closed
        } else if self.client_id.is_none() {
            Phase::Unregistered
        } else {
            Phase::Registered
        }
    }

    /// Takes one message that came on this connection.
    ///
    /// The first message gives the connection its client id, whatever its
    /// kind. Every message is handled as [`handle_message`] says, with the
    /// write handle that this connection holds. The end of the session, once
    /// handled, closes the connection; on a closed connection a message
    /// changes nothing and is answered by nothing.
    pub fn receive(&mut self, msg: WebSocketMessage, state: &mut AppState<W>) -> (out: Result<
        Vec<Delivery>,
        HandleError,
    >)
        ensures
            final(state)@.wf(),
            old(self)@.ended ==> {
                &&& final(self)@ == old(self)@
                &&& final(state)@ == old(state)@
                &&& out matches Ok(sent) && views(sent@) == Seq::<DeliveryView>::empty()
            },
            !old(self)@.ended ==> {
                &&& final(self)@.client_id == captured(old(self)@.client_id, msg@.client_id)
                &&& final(self)@.ended == (out is Ok && msg@.content is EndSession)
                &&& match out {
                    Ok(sent) => handled_at_some_time(
                        old(state)@,
                        msg@,
                        old(self)@.socket_writer,
                        final(state)@,
                        final(self)@.socket_writer,
                        views(sent@),
                    ),
                    Err(HandleError::Edit(e)) => {
                        &&& fault(old(state)@, msg@) == Some(e)
                        &&& final(state)@ == old(state)@
                        &&& final(self)@.socket_writer == old(self)@.socket_writer
                    },
                    Err(HandleError::ClockBeforeEpoch) => {
                        &&& needs_time(old(state)@, msg@)
                        &&& final(state)@ == old(state)@
                        &&& final(self)@.socket_writer == old(self)@.socket_writer
                    },
                }
            },
    {
        proof {
            use_type_invariant(&*state);
            state.lemma_sound();
        }
        if self.ended {
            let sent: Vec<Delivery> = Vec::new();
            assert(views(sent@) =~= Seq::<DeliveryView>::empty());
            return Ok(sent);
        }
        if self.client_id.is_none() {
            self.client_id = Some(msg.client_id.clone());
        }
        let ends = match &msg.content {
            MessageContent::EndSession(_) => true,
            _ => false,
        };
        let out = handle_message(msg, state, &mut self.socket_writer);
        if ends && out.is_ok() {
            self.ended = true;
        }
        out
    }

    /// Gives the connection up: the client that it went by is forgotten,
    /// with its user entry and its cursors. A connection on which no message
    /// came leaves the state as it is.
    pub fn close(self, state: &mut AppState<W>)
        ensures
            final(state)@.wf(),
            final(state)@ == cleaned_up(old(state)@, self@.client_id),
    {
        proof {
            use_type_invariant(&*state);
            state.lemma_sound();
        }
        if let Some(id) = self.client_id {
            let _ = state.remove_client(&id);
        }
    }
}

} // verus!
