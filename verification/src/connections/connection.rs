use crate::ids::{all_lower_hex, is_lower_hex, is_simple_uuid};
use crate::sockets::SocketType;
use vstd::prelude::*;

verus! {

/// One attached socket, as the router knows it: its role and its identifier.
/// The outbound half of the socket stays with the caller, filed under `uuid`.
#[derive(Debug, Clone, PartialEq, Eq)]
pub struct Connection {
    pub sock_type: SocketType,
    pub uuid: String,
}

/// A connection as a value: its role and the characters of its identifier.
pub struct ConnectionView {
    pub sock_type: SocketType,
    pub uuid: Seq<char>,
}

impl View for Connection {
    type V = ConnectionView;

    open spec fn view(&self) -> ConnectionView {
        ConnectionView { sock_type: self.sock_type, uuid: self.uuid@ }
    }
}

impl ConnectionView {
    /// Whether this connection receives what the connection of role
    /// `sender_role` and identifier `sender_id` sends: its role is the
    /// audience of the sender's role, and it is not the sender.
    pub open spec fn receives(self, sender_role: SocketType, sender_id: Seq<char>) -> bool {
        self.sock_type == sender_role.audience() && self.uuid != sender_id
    }
}

/// Whether no two connections of `conns` share an identifier.
pub open spec fn distinct_ids(conns: Seq<ConnectionView>) -> bool {
    forall|i: int, j: int|
        #![trigger conns[i], conns[j]]
        0 <= i < j < conns.len() ==> conns[i].uuid != conns[j].uuid
}

/// Whether a connection with identifier `id` is among `conns`.
pub open spec fn attached(conns: Seq<ConnectionView>, id: Seq<char>) -> bool {
    exists|i: int| 0 <= i < conns.len() && (#[trigger] conns[i]).uuid == id
}

/// The place of the connection with identifier `id` in `conns`, where one is attached.
pub open spec fn position(conns: Seq<ConnectionView>, id: Seq<char>) -> int {
    choose|i: int| 0 <= i < conns.len() && (#[trigger] conns[i]).uuid == id
}

/// `conns` without the connection of identifier `id`.
pub open spec fn detached(conns: Seq<ConnectionView>, id: Seq<char>) -> Seq<ConnectionView> {
    if attached(conns, id) {
        conns.remove(position(conns, id))
    } else {
        conns
    }
}

/// The identifiers of the connections of `conns` that receive a frame from
/// the connection of role `sender_role` and identifier `sender_id`, in the
/// order of `conns`.
pub open spec fn recipients_of(
    conns: Seq<ConnectionView>,
    sender_role: SocketType,
    sender_id: Seq<char>,
) -> Seq<Seq<char>> {
    conns.filter(|c: ConnectionView| c.receives(sender_role, sender_id)).map_values(
        |c: ConnectionView| c.uuid,
    )
}

/// Among connections with distinct identifiers, the place of an identifier
/// is the one place that holds it.
pub proof fn lemma_position_unique(conns: Seq<ConnectionView>, id: Seq<char>, i: int)
    requires
        distinct_ids(conns),
        0 <= i < conns.len(),
        conns[i].uuid == id,
    ensures
        attached(conns, id),
        position(conns, id) == i,
{
    let p = position(conns, id);
    if p < i {
        assert(conns[p].uuid != conns[i].uuid);
    } else if i < p {
        assert(conns[i].uuid != conns[p].uuid);
    }
}

/// The length of the longest identifier among `conns`, 0 where there is none.
pub open spec fn longest(conns: Seq<ConnectionView>) -> nat
    decreases conns.len(),
{
    if conns.len() == 0 {
        0
    } else if conns.last().uuid.len() > longest(conns.drop_last()) {
        conns.last().uuid.len()
    } else {
        longest(conns.drop_last())
    }
}

/// `drawn`, followed by as many zeros as bring it to the length `len`.
pub open spec fn padded(drawn: Seq<char>, len: nat) -> Seq<char> {
    drawn + Seq::new((len - drawn.len()) as nat, |i: int| '0')
}

/// The identifier that is minted from the drawn identifier `drawn` for a
/// new connection among `conns`: `drawn` itself where it is not attached,
/// else `drawn` padded with zeros to one character more than the longest
/// identifier attached, so that it differs from every one of them.
pub open spec fn minted(conns: Seq<ConnectionView>, drawn: Seq<char>) -> Seq<char> {
    if !attached(conns, drawn) {
        drawn
    } else {
        padded(drawn, longest(conns) + 1)
    }
}

/// Whether `id` is an identifier minted for a new connection among
/// `conns`: its first 32 characters are a drawn identifier in simple form,
/// and it is what [`minted`] makes of them.
pub open spec fn is_minted(conns: Seq<ConnectionView>, id: Seq<char>) -> bool {
    &&& id.len() >= 32
    &&& is_simple_uuid(id.subrange(0, 32))
    &&& id == minted(conns, id.subrange(0, 32))
}

/// No identifier among `conns` is longer than [`longest`] says.
pub proof fn lemma_longest_bounds(conns: Seq<ConnectionView>, i: int)
    requires
        0 <= i < conns.len(),
    ensures
        conns[i].uuid.len() <= longest(conns),
    decreases conns.len(),
{
    if i < conns.len() - 1 {
        lemma_longest_bounds(conns.drop_last(), i);
        assert(conns.drop_last()[i] == conns[i]);
    }
}

/// A minted identifier is fresh: it begins with the drawn one and is not
/// attached.
pub proof fn lemma_minted_is_fresh(conns: Seq<ConnectionView>, drawn: Seq<char>)
    ensures
        !attached(conns, minted(conns, drawn)),
        minted(conns, drawn).len() >= drawn.len(),
        minted(conns, drawn).subrange(0, drawn.len() as int) == drawn,
{
    let id = minted(conns, drawn);
    if attached(conns, drawn) {
        let j = position(conns, drawn);
        lemma_longest_bounds(conns, j);
        assert(id.len() == longest(conns) + 1);
        if attached(conns, id) {
            let k = position(conns, id);
            lemma_longest_bounds(conns, k);
        }
        assert(id.subrange(0, drawn.len() as int) =~= drawn);
    } else {
        assert(id.subrange(0, drawn.len() as int) =~= drawn);
    }
}

/// An identifier minted from a drawn one in simple form is minted: it is
/// made of lower-case hexadecimal digits, at least 32 of them.
pub proof fn lemma_minted_from_simple(conns: Seq<ConnectionView>, drawn: Seq<char>)
    requires
        is_simple_uuid(drawn),
    ensures
        is_minted(conns, minted(conns, drawn)),
        all_lower_hex(minted(conns, drawn)),
{
    let id = minted(conns, drawn);
    lemma_minted_is_fresh(conns, drawn);
    assert(id.subrange(0, 32) =~= drawn);
    assert forall|i: int| 0 <= i < id.len() implies is_lower_hex(#[trigger] id[i]) by {
        if i < 32 {
            assert(id[i] == drawn[i]);
        }
    }
}

/// An identifier is among the recipients of a frame exactly if a
/// connection holds it that receives the frame.
pub proof fn lemma_recipient(
    conns: Seq<ConnectionView>,
    sender_role: SocketType,
    sender_id: Seq<char>,
    id: Seq<char>,
)
    ensures
        recipients_of(conns, sender_role, sender_id).contains(id) <==> exists|k: int|
            0 <= k < conns.len() && (#[trigger] conns[k]).uuid == id && conns[k].receives(
                sender_role,
                sender_id,
            ),
{
    let pred = |c: ConnectionView| c.receives(sender_role, sender_id);
    let name = |c: ConnectionView| c.uuid;
    let kept = conns.filter(pred);
    let ids = kept.map_values(name);
    if ids.contains(id) {
        let j = choose|j: int| 0 <= j < ids.len() && ids[j] == id;
        conns.lemma_filter_pred(pred, j);
        assert(kept.contains(kept[j]));
        conns.lemma_filter_contains_rev(pred, kept[j]);
        let k = choose|k: int| 0 <= k < conns.len() && conns[k] == kept[j];
        assert(conns[k].uuid == id && conns[k].receives(sender_role, sender_id));
    }
    if exists|k: int|
        0 <= k < conns.len() && (#[trigger] conns[k]).uuid == id && conns[k].receives(
            sender_role,
            sender_id,
        ) {
        let k = choose|k: int|
            0 <= k < conns.len() && (#[trigger] conns[k]).uuid == id && conns[k].receives(
                sender_role,
                sender_id,
            );
        conns.lemma_filter_contains(pred, k);
        let j = choose|j: int| 0 <= j < kept.len() && kept[j] == conns[k];
        assert(ids[j] == id);
    }
}

/// No connection receives a frame that it sent itself: the sender's
/// identifier is never among the recipients.
pub proof fn lemma_no_self_delivery(
    conns: Seq<ConnectionView>,
    sender_role: SocketType,
    sender_id: Seq<char>,
)
    ensures
        !recipients_of(conns, sender_role, sender_id).contains(sender_id),
{
    lemma_recipient(conns, sender_role, sender_id, sender_id);
}

/// Among connections with distinct identifiers, no recipient of a frame is
/// named twice: each receives the frame once.
pub proof fn lemma_recipients_once(
    conns: Seq<ConnectionView>,
    sender_role: SocketType,
    sender_id: Seq<char>,
)
    requires
        distinct_ids(conns),
    ensures
        recipients_of(conns, sender_role, sender_id).no_duplicates(),
    decreases conns.len(),
{
    let pred = |c: ConnectionView| c.receives(sender_role, sender_id);
    let name = |c: ConnectionView| c.uuid;
    reveal(Seq::filter);
    if conns.len() > 0 {
        let rest = conns.drop_last();
        let last = conns.last();
        assert(distinct_ids(rest)) by {
            assert forall|i: int, j: int| 0 <= i < j < rest.len() implies (#[trigger] rest[i]).uuid
                != (#[trigger] rest[j]).uuid by {
                assert(conns[i].uuid != conns[j].uuid);
            }
        }
        lemma_recipients_once(rest, sender_role, sender_id);
        let before = recipients_of(rest, sender_role, sender_id);
        if pred(last) {
            assert(recipients_of(conns, sender_role, sender_id) =~= before.push(last.uuid));
            lemma_recipient(rest, sender_role, sender_id, last.uuid);
            if before.contains(last.uuid) {
                let k = choose|k: int|
                    0 <= k < rest.len() && (#[trigger] rest[k]).uuid == last.uuid
                        && rest[k].receives(sender_role, sender_id);
                assert(conns[k].uuid != conns[conns.len() - 1].uuid);
            }
            let after = before.push(last.uuid);
            assert forall|i: int, j: int|
                0 <= i < after.len() && 0 <= j < after.len() && i != j implies after[i]
                != after[j] by {
                if i < before.len() && j < before.len() {
                    assert(before[i] != before[j]);
                } else if i < before.len() {
                    assert(before.contains(before[i]));
                } else {
                    assert(before.contains(before[j]));
                }
            }
        } else {
            assert(recipients_of(conns, sender_role, sender_id) =~= before);
        }
    }
}

/// The views of a vector of connections, in order.
pub open spec fn views(conns: Seq<Connection>) -> Seq<ConnectionView> {
    conns.map_values(|c: Connection| c@)
}

} // verus!
