use vstd::prelude::*;
use vstd::string::*;
use crate::model::views;
use crate::registry::{find, keys, lemma_keys, lemma_position};
use crate::types::{WebSocketMessage, WebSocketMessageView};

verus! {

/// A message together with the clients that are to receive it, in the order
/// in which it is to be written to them. The message is serialised once,
/// whatever the number of recipients.
#[derive(Debug, PartialEq, Eq)]
pub struct Delivery {
    pub recipients: Vec<String>,
    pub message: WebSocketMessage,
}

/// The model of [`Delivery`].
pub struct DeliveryView {
    pub recipients: Seq<Seq<char>>,
    pub message: WebSocketMessageView,
}

impl View for Delivery {
    type V = DeliveryView;

    open spec fn view(&self) -> DeliveryView {
        DeliveryView { recipients: views(self.recipients@), message: self.message@ }
    }
}

/// The delivery of `message` to the one client `target`, where `clients`
/// are the ids of the registered connections: there is none where `target`
/// is not among them.
pub open spec fn unicast(
    clients: Seq<Seq<char>>,
    target: Seq<char>,
    message: WebSocketMessageView,
) -> Option<DeliveryView> {
    if clients.contains(target) {
        Some(DeliveryView { recipients: seq![target], message })
    } else {
        None
    }
}

/// The ids but `skip`, in order.
pub open spec fn others(ids: Seq<Seq<char>>, skip: Seq<char>) -> Seq<Seq<char>> {
    ids.filter(|id: Seq<char>| id != skip)
}

/// The delivery of `message` to every registered client but `skip`, in the
/// order of registration, where `clients` are the ids of the registered
/// connections.
pub open spec fn broadcast(
    clients: Seq<Seq<char>>,
    skip: Seq<char>,
    message: WebSocketMessageView,
) -> DeliveryView {
    DeliveryView { recipients: others(clients, skip), message }
}

/// Leaving one id out of a list without repetitions gives a list without
/// repetitions that holds every other id of the list, and no more.
pub proof fn lemma_others(ids: Seq<Seq<char>>, skip: Seq<char>)
    requires
        ids.no_duplicates(),
    ensures
        others(ids, skip).no_duplicates(),
        !others(ids, skip).contains(skip),
        forall|id: Seq<char>|
            #[trigger] others(ids, skip).contains(id) <==> id != skip && ids.contains(id),
        !ids.contains(skip) ==> others(ids, skip) == ids,
    decreases ids.len(),
{
    reveal(Seq::filter);
    if ids.len() > 0 {
        let front = ids.drop_last();
        let last = ids.last();
        lemma_others(front, skip);
        let kept = others(front, skip);
        let all = others(ids, skip);
        assert forall|id: Seq<char>| #[trigger]
            all.contains(id) <==> id != skip && ids.contains(id) by {
            if all.contains(id) {
                let i = choose|i: int| 0 <= i < all.len() && all[i] == id;
                if i < kept.len() {
                    assert(kept[i] == id);
                    assert(kept.contains(id));
                    let j = choose|j: int| 0 <= j < front.len() && front[j] == id;
                    assert(ids[j] == id);
                } else {
                    assert(ids[ids.len() - 1] == id);
                }
            }
            if id != skip && ids.contains(id) {
                let j = choose|j: int| 0 <= j < ids.len() && ids[j] == id;
                if j < front.len() {
                    assert(front[j] == id);
                    assert(kept.contains(id));
                    let i = choose|i: int| 0 <= i < kept.len() && kept[i] == id;
                    assert(all[i] == id);
                } else {
                    assert(all[all.len() - 1] == id);
                }
            }
        }
        assert forall|i: int, j: int| 0 <= i < all.len() && 0 <= j < all.len() && i != j implies all[i]
            != all[j] by {
            if i < kept.len() && j < kept.len() {
                assert(kept[i] != kept[j]);
            } else {
                let low = if i < j {
                    i
                } else {
                    j
                };
                assert(kept[low] == all[low]);
                assert(kept.contains(all[low]));
                let k = choose|k: int| 0 <= k < front.len() && front[k] == all[low];
                assert(ids[k] != ids[ids.len() - 1]);
            }
        }
        if !ids.contains(skip) {
            assert(!front.contains(skip)) by {
                if front.contains(skip) {
                    let j = choose|j: int| 0 <= j < front.len() && front[j] == skip;
                    assert(ids[j] == skip);
                }
            }
            assert(ids[ids.len() - 1] != skip);
            assert(all =~= ids);
        }
    } else {
        assert(others(ids, skip) =~= ids);
    }
}

/// An optional delivery as a list of none or one.
pub open spec fn listed(delivery: Option<DeliveryView>) -> Seq<DeliveryView> {
    match delivery {
        Some(d) => seq![d],
        None => Seq::empty(),
    }
}

/// Addresses `msg` to the client `client_id`. Where no connection is
/// registered under that id the message is dropped: there is nothing to
/// deliver.
pub fn send_message(client_id: &String, msg: WebSocketMessage, clients: &Vec<String>) -> (delivery:
    Option<Delivery>)
    ensures
        match delivery {
            Some(d) => unicast(views(clients@), client_id@, msg@) == Some(d@),
            None => unicast(views(clients@), client_id@, msg@) is None,
        },
{
    proof {
        lemma_position(views(clients@), client_id@);
        lemma_keys(views(clients@), client_id@);
        assert(keys(views(clients@)) =~= views(clients@));
    }
    match find(clients, client_id) {
        Some(_) => {
            let mut recipients: Vec<String> = Vec::new();
            recipients.push(client_id.clone());
            assert(views(recipients@) =~= seq![client_id@]);
            Some(Delivery { recipients, message: msg })
        },
        None => None,
    }
}

/// Addresses `msg` to every registered client but `skip_client_id`.
pub fn broadcast_message(skip_client_id: &String, msg: WebSocketMessage, clients: &Vec<String>) -> (
    delivery: Delivery)
    ensures
        delivery@ == broadcast(views(clients@), skip_client_id@, msg@),
{
    let ghost ids = views(clients@);
    let ghost wanted = |id: Seq<char>| id != skip_client_id@;
    assert(others(ids, skip_client_id@) == ids.filter(wanted));
    let mut recipients: Vec<String> = Vec::new();
    let mut i: usize = 0;
    proof {
        reveal(Seq::filter);
        assert(ids.take(0) =~= Seq::<Seq<char>>::empty());
    }
    while i < clients.len()
        invariant
            i <= clients@.len(),
            ids == views(clients@),
            wanted == |id: Seq<char>| id != skip_client_id@,
            views(recipients@) == ids.take(i as int).filter(wanted),
        decreases clients@.len() - i,
    {
        let ghost before = views(recipients@);
        if clients[i] != *skip_client_id {
            recipients.push(clients[i].clone());
        }
        proof {
            reveal(Seq::filter);
            let next = ids.take(i + 1);
            assert(next.drop_last() =~= ids.take(i as int));
            assert(next.last() == clients@[i as int]@);
            if wanted(next.last()) {
                assert(views(recipients@) =~= before.push(next.last()));
            }
        }
        i += 1;
    }
    assert(ids.take(i as int) =~= ids);
    Delivery { recipients, message: msg }
}

/// Ends a serialised message with the newline that terminates it on the
/// wire.
pub fn frame(json: String) -> (line: String)
    ensures
        line@ == json@.push('\n'),
{
    let mut line = json;
    proof {
        reveal_strlit("\n");
    }
    line.append("\n");
    assert(line@ =~= json@.push('\n'));
    line
}

} // verus!
