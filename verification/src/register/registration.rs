use crate::connections::connection::{
    attached, detached, distinct_ids, is_minted, lemma_longest_bounds, lemma_minted_from_simple,
    lemma_minted_is_fresh, lemma_position_unique, lemma_recipient, longest, minted, position,
    recipients_of, views,
};
use crate::connections::{Connection, ConnectionView};
use crate::config::Config;
use crate::credentials::{
    argon2_hash_encoded, has_default_cost, hash, hashable, verifies, verify,
};
use crate::forwarder::{Forwarder, ForwarderState, ForwarderView};
use crate::ids::{all_lower_hex, draw_connection_id, is_short_id, ID_LEN};
use crate::register::identifier::{
    choose_id, every_draw_is_free, id_rejection, settled_id, MAX_ID_DRAWS,
};
use crate::register::{RegisterRequest, Rejections, RemoveRequest};
use crate::registry::{after_removal, has_id, removal_answer, Registry};
use crate::sockets::SocketType;
use crate::text::{same_text, text_of};
use vstd::prelude::*;
use vstd::string::{StrSliceExecFns, StringExecFns};

verus! {

/// The topology of a registration.
#[derive(Debug, Clone, Copy, PartialEq, Eq, Structural)]
pub enum RegistrationType {
    /// Hosts talk to clients and clients to hosts.
    HostClient,
    /// Every peer talks to every other peer.
    Lobby,
}

impl RegistrationType {
    /// Whether a connection of role `role` belongs in a registration of this type.
    pub open spec fn admits(self, role: SocketType) -> bool {
        match self {
            RegistrationType::Lobby => role == SocketType::Socket,
            RegistrationType::HostClient => role == SocketType::Host || role
                == SocketType::Client,
        }
    }

    /// Computes [`RegistrationType::admits`].
    pub fn accepts(self, role: SocketType) -> (b: bool)
        ensures
            b == self.admits(role),
    {
        match self {
            RegistrationType::Lobby => role == SocketType::Socket,
            RegistrationType::HostClient => role == SocketType::Host || role
                == SocketType::Client,
        }
    }

    /// The type that a register request names, if it names one.
    pub open spec fn named(name: Seq<char>) -> Option<RegistrationType> {
        if name == "hostclient"@ {
            Some(RegistrationType::HostClient)
        } else if name == "lobby"@ {
            Some(RegistrationType::Lobby)
        } else {
            None
        }
    }

    /// Reads the registration type of a register request.
    pub fn from_name(name: &str) -> (t: Option<RegistrationType>)
        ensures
            t == Self::named(name@),
    {
        if same_text(name, "hostclient") {
            Some(RegistrationType::HostClient)
        } else if same_text(name, "lobby") {
            Some(RegistrationType::Lobby)
        } else {
            None
        }
    }

    /// The name of the type as it appears in the statistics.
    pub open spec fn label(self) -> Seq<char> {
        match self {
            RegistrationType::HostClient => "HostClient"@,
            RegistrationType::Lobby => "Lobby"@,
        }
    }

    /// Computes [`RegistrationType::label`].
    pub fn name(self) -> (n: &'static str)
        ensures
            n@ == self.label(),
    {
        match self {
            RegistrationType::HostClient => "HostClient",
            RegistrationType::Lobby => "Lobby",
        }
    }
}

/// One routing group: its identifier, the hashes of its two credentials, its
/// type, the connections attached to it and its destroy flag.
#[derive(Debug)]
pub struct Registration {
    pub uuid: String,
    pub key: String,
    pub host_key: String,
    pub reg_type: RegistrationType,
    pub connections: Vec<Connection>,
    pub destroy: bool,
}

/// A registration as a value.
pub struct RegistrationView {
    pub uuid: Seq<char>,
    pub key: Seq<char>,
    pub host_key: Seq<char>,
    pub reg_type: RegistrationType,
    pub connections: Seq<ConnectionView>,
    pub destroy: bool,
}

impl View for Registration {
    type V = RegistrationView;

    open spec fn view(&self) -> RegistrationView {
        RegistrationView {
            uuid: self.uuid@,
            key: self.key@,
            host_key: self.host_key@,
            reg_type: self.reg_type,
            connections: views(self.connections@),
            destroy: self.destroy,
        }
    }
}

impl RegistrationView {
    /// The invariant of a registration: its identifier has eight characters
    /// and its connections have distinct identifiers.
    pub open spec fn wf(self) -> bool {
        &&& self.uuid.len() == ID_LEN
        &&& distinct_ids(self.connections)
    }

    /// Whether every connection has a role that the registration's type
    /// admits: sockets in a lobby, hosts and clients in a host-client
    /// session. Admission grants no other role, so this holds of every
    /// registration whose connections were all admitted.
    pub open spec fn roles_fit(self) -> bool {
        forall|i: int|
            0 <= i < self.connections.len() ==> self.reg_type.admits(
                (#[trigger] self.connections[i]).sock_type,
            )
    }

    /// The registration with `c` attached behind its other connections.
    pub open spec fn attach(self, c: ConnectionView) -> RegistrationView {
        RegistrationView { connections: self.connections.push(c), ..self }
    }

    /// The registration without the connection of identifier `id`.
    pub open spec fn detach(self, id: Seq<char>) -> RegistrationView {
        RegistrationView { connections: detached(self.connections, id), ..self }
    }

    /// The registration with its destroy flag set.
    pub open spec fn destroyed(self) -> RegistrationView {
        RegistrationView { destroy: true, ..self }
    }
}

/// The rejection that the arguments of a creation decide, if any: a
/// credential that cannot be hashed, else what [`id_rejection`] says.
pub open spec fn creation_rejection(
    key: Seq<char>,
    host_key: Seq<char>,
    secret: Seq<char>,
    id_req: Option<Seq<char>>,
    reject: bool,
    regs: Seq<RegistrationView>,
) -> Option<Rejections> {
    if !hashable(key, secret) || !hashable(host_key, secret) {
        Some(Rejections::UnhashableKey)
    } else {
        id_rejection(id_req, reject, regs)
    }
}

/// Whether `reg` is what a creation with these arguments makes: a
/// registration of the given type, without connections and not destroyed,
/// that holds the hashes of the two credentials, each under the default
/// costs and verified by its credential, under an identifier that is free
/// in `regs`: the settled one, or else eight drawn hexadecimal digits.
pub open spec fn created(
    reg: RegistrationView,
    key: Seq<char>,
    host_key: Seq<char>,
    secret: Seq<char>,
    reg_type: RegistrationType,
    id_req: Option<Seq<char>>,
    regs: Seq<RegistrationView>,
) -> bool {
    &&& reg.uuid.len() == ID_LEN
    &&& !has_id(regs, reg.uuid)
    &&& match settled_id(id_req, regs) {
        Some(q) => reg.uuid == q,
        None => is_short_id(reg.uuid),
    }
    &&& argon2_hash_encoded(key, secret) == Some(reg.key)
    &&& argon2_hash_encoded(host_key, secret) == Some(reg.host_key)
    &&& has_default_cost(reg.key)
    &&& has_default_cost(reg.host_key)
    &&& verifies(reg.key, key)
    &&& verifies(reg.host_key, host_key)
    &&& reg.reg_type == reg_type
    &&& reg.connections == Seq::<ConnectionView>::empty()
    &&& !reg.destroy
}

/// Whether `after` and `outcome` are what creating a registration in
/// `before` gives: the rejection that the arguments decide, with nothing
/// changed; else the registration that [`created`] describes, filed behind
/// the others, and its identifier; or, where the identifier had to be drawn
/// and every draw was taken, `NoFreeID` with nothing changed. That last
/// end is closed where no identifier that can be drawn is taken.
pub open spec fn creates(
    before: Seq<RegistrationView>,
    after: Seq<RegistrationView>,
    outcome: Result<String, Rejections>,
    key: Seq<char>,
    host_key: Seq<char>,
    secret: Seq<char>,
    reg_type: RegistrationType,
    id_req: Option<Seq<char>>,
    reject: bool,
) -> bool {
    match creation_rejection(key, host_key, secret, id_req, reject, before) {
        Some(e) => outcome == Err::<String, Rejections>(e) && after == before,
        None => match outcome {
            Ok(id) => {
                &&& after.len() == before.len() + 1
                &&& after.drop_last() == before
                &&& after.last().uuid == id@
                &&& created(after.last(), key, host_key, secret, reg_type, id_req, before)
            },
            Err(e) => {
                &&& e == Rejections::NoFreeID
                &&& settled_id(id_req, before) is None
                &&& !every_draw_is_free(before)
                &&& after == before
            },
        },
    }
}

/// In a lobby whose peers were all admitted, a frame reaches every peer
/// but the one that sent it.
pub proof fn lemma_lobby_routing(reg: RegistrationView, sender: int, peer: int)
    requires
        reg.wf(),
        reg.roles_fit(),
        reg.reg_type == RegistrationType::Lobby,
        0 <= sender < reg.connections.len(),
        0 <= peer < reg.connections.len(),
    ensures
        recipients_of(
            reg.connections,
            reg.connections[sender].sock_type,
            reg.connections[sender].uuid,
        ).contains(reg.connections[peer].uuid) <==> peer != sender,
{
    let conns = reg.connections;
    let from = conns[sender];
    lemma_recipient(conns, from.sock_type, from.uuid, conns[peer].uuid);
    assert(reg.reg_type.admits(conns[peer].sock_type));
    assert(reg.reg_type.admits(conns[sender].sock_type));
    if peer < sender {
        assert(conns[peer].uuid != conns[sender].uuid);
    } else if sender < peer {
        assert(conns[sender].uuid != conns[peer].uuid);
    }
    if recipients_of(conns, from.sock_type, from.uuid).contains(conns[peer].uuid) {
        let k = choose|k: int|
            0 <= k < conns.len() && (#[trigger] conns[k]).uuid == conns[peer].uuid
                && conns[k].receives(from.sock_type, from.uuid);
        assert(conns[k].uuid != from.uuid);
    }
}

/// In a host-client session, a frame from a host reaches the clients, all
/// of them and nobody else, and a frame from a client reaches the hosts,
/// all of them and nobody else.
pub proof fn lemma_host_client_routing(reg: RegistrationView, sender: int, peer: int)
    requires
        reg.wf(),
        reg.roles_fit(),
        reg.reg_type == RegistrationType::HostClient,
        0 <= sender < reg.connections.len(),
        0 <= peer < reg.connections.len(),
    ensures
        reg.connections[sender].sock_type == SocketType::Host ==> (recipients_of(
            reg.connections,
            SocketType::Host,
            reg.connections[sender].uuid,
        ).contains(reg.connections[peer].uuid) <==> reg.connections[peer].sock_type
            == SocketType::Client),
        reg.connections[sender].sock_type == SocketType::Client ==> (recipients_of(
            reg.connections,
            SocketType::Client,
            reg.connections[sender].uuid,
        ).contains(reg.connections[peer].uuid) <==> reg.connections[peer].sock_type
            == SocketType::Host),
{
    let conns = reg.connections;
    let from = conns[sender];
    lemma_recipient(conns, from.sock_type, from.uuid, conns[peer].uuid);
    assert(reg.reg_type.admits(conns[sender].sock_type));
    if peer < sender {
        assert(conns[peer].uuid != conns[sender].uuid);
    } else if sender < peer {
        assert(conns[sender].uuid != conns[peer].uuid);
    }
    if recipients_of(conns, from.sock_type, from.uuid).contains(conns[peer].uuid) {
        let k = choose|k: int|
            0 <= k < conns.len() && (#[trigger] conns[k]).uuid == conns[peer].uuid
                && conns[k].receives(from.sock_type, from.uuid);
        if k < peer {
            assert(conns[k].uuid != conns[peer].uuid);
        } else if peer < k {
            assert(conns[peer].uuid != conns[k].uuid);
        }
    }
}

/// Attaching a connection whose role the type admits keeps the roles
/// fitting, and so does detaching any connection.
pub proof fn lemma_roles_stay_fitting(reg: RegistrationView, c: ConnectionView, id: Seq<char>)
    requires
        reg.roles_fit(),
    ensures
        reg.reg_type.admits(c.sock_type) ==> reg.attach(c).roles_fit(),
        reg.detach(id).roles_fit(),
{
    if reg.reg_type.admits(c.sock_type) {
        let after = reg.attach(c);
        assert forall|i: int| 0 <= i < after.connections.len() implies reg.reg_type.admits(
            (#[trigger] after.connections[i]).sock_type,
        ) by {
            if i < reg.connections.len() {
                assert(after.connections[i] == reg.connections[i]);
            }
        }
    }
    let left = reg.detach(id);
    if attached(reg.connections, id) {
        let p = position(reg.connections, id);
        assert forall|i: int| 0 <= i < left.connections.len() implies reg.reg_type.admits(
            (#[trigger] left.connections[i]).sock_type,
        ) by {
            if i < p {
                assert(left.connections[i] == reg.connections[i]);
            } else {
                assert(left.connections[i] == reg.connections[i + 1]);
            }
        }
    }
}

/// The destroy flag is never cleared, and the type never changes:
/// attaching and detaching a connection leave both as they are, and
/// destroying sets the flag and leaves the type.
pub proof fn lemma_flag_and_type_are_kept(reg: RegistrationView, c: ConnectionView, id: Seq<char>)
    ensures
        reg.attach(c).destroy == reg.destroy,
        reg.detach(id).destroy == reg.destroy,
        reg.destroyed().destroy,
        reg.attach(c).reg_type == reg.reg_type,
        reg.detach(id).reg_type == reg.reg_type,
        reg.destroyed().reg_type == reg.reg_type,
{
}

impl Registration {
    /// The invariant of a registration, see [`RegistrationView::wf`].
    pub open spec fn wf(&self) -> bool {
        self@.wf()
    }

    /// Makes a registration for the registry `registrations`: hashes the two
    /// credentials under the secret of `config`, then chooses the identifier
    /// as [`choose_id`] does. The registration is not filed yet.
    pub fn new(
        unhashed_key: &str,
        unhashed_host_key: &str,
        reg_type: RegistrationType,
        id_req: Option<String>,
        registrations: &Registry,
        config: &Config,
    ) -> (r: Result<Registration, Rejections>)
        ensures
            match creation_rejection(
                unhashed_key@,
                unhashed_host_key@,
                config@.secret_key,
                text_of(id_req),
                config@.reject_no_id,
                registrations@,
            ) {
                Some(e) => r == Err::<Registration, Rejections>(e),
                None => match r {
                    Ok(reg) => reg.wf() && created(
                        reg@,
                        unhashed_key@,
                        unhashed_host_key@,
                        config@.secret_key,
                        reg_type,
                        text_of(id_req),
                        registrations@,
                    ),
                    Err(e) => {
                        &&& e == Rejections::NoFreeID
                        &&& settled_id(text_of(id_req), registrations@) is None
                        &&& !every_draw_is_free(registrations@)
                    },
                },
            },
    {
        let key = match hash(unhashed_key, config.secret_key.as_str()) {
            Ok(h) => h,
            Err(e) => {
                return Err(e);
            },
        };
        let host_key = match hash(unhashed_host_key, config.secret_key.as_str()) {
            Ok(h) => h,
            Err(e) => {
                return Err(e);
            },
        };
        let uuid = match choose_id(id_req, config.reject_no_id, registrations, MAX_ID_DRAWS) {
            Ok(id) => id,
            Err(e) => {
                return Err(e);
            },
        };
        let reg = Registration {
            uuid,
            key,
            host_key,
            reg_type,
            connections: Vec::new(),
            destroy: false,
        };
        proof {
            assert(reg@.connections =~= Seq::<ConnectionView>::empty());
        }
        Ok(reg)
    }

    /// Handles a register request: reads the registration type, then creates
    /// the registration in `rgs` and answers with its identifier. A type
    /// that is not recognised fails the request before anything is hashed.
    pub fn new_handler(body: RegisterRequest, rgs: &mut Registry, config: &Config) -> (r: Result<
        String,
        Rejections,
    >)
        requires
            old(rgs).wf(),
        ensures
            final(rgs).wf(),
            match RegistrationType::named(body@.reg_type) {
                Some(reg_type) => creates(
                    old(rgs)@,
                    final(rgs)@,
                    r,
                    body@.key,
                    body@.host_key,
                    config@.secret_key,
                    reg_type,
                    body@.id_req,
                    config@.reject_no_id,
                ),
                None => r == Err::<String, Rejections>(Rejections::MissingRegistrationType)
                    && final(rgs)@ == old(rgs)@,
            },
    {
        match RegistrationType::from_name(body.reg_type.as_str()) {
            Some(reg_type) => rgs.create(
                body.key.as_str(),
                body.host_key.as_str(),
                reg_type,
                body.id_req,
                config,
            ),
            None => Err(Rejections::MissingRegistrationType),
        }
    }

    /// Handles a remove request: the registration is removed where it
    /// exists and both keys verify against its hashes.
    pub fn remove_handler(body: RemoveRequest, rgs: &mut Registry) -> (r: Result<(), Rejections>)
        requires
            old(rgs).wf(),
        ensures
            final(rgs).wf(),
            r == removal_answer(old(rgs)@, body@.id, body@.key, body@.host_key),
            final(rgs)@ == after_removal(old(rgs)@, body@.id, body@.key, body@.host_key),
    {
        let verified = match rgs.lookup(body.id.as_str()) {
            Some(reg) => {
                let key_ver = reg.verify_key(body.key.as_str());
                let host_ver = reg.verify_host_key(body.host_key.as_str());
                key_ver && host_ver
            },
            None => {
                return Err(Rejections::NotFound);
            },
        };
        if !verified {
            return Err(Rejections::InvalidKey);
        }
        match rgs.remove(body.id.as_str()) {
            Ok(_) => Ok(()),
            Err(_) => Err(Rejections::NotFound),
        }
    }

    /// Verifies a participant key against the registration's hash.
    pub fn verify_key(&self, key: &str) -> (b: bool)
        ensures
            b == verifies(self@.key, key@),
    {
        verify(self.key.as_str(), key)
    }

    /// Verifies a host key against the registration's hash.
    pub fn verify_host_key(&self, key: &str) -> (b: bool)
        ensures
            b == verifies(self@.host_key, key@),
    {
        verify(self.host_key.as_str(), key)
    }

    /// Finds the connection with identifier `id`.
    pub fn find_connection(&self, id: &str) -> (r: Option<usize>)
        ensures
            r is Some <==> attached(self@.connections, id@),
            r matches Some(i) ==> i < self@.connections.len() && self@.connections[i as int].uuid
                == id@,
            r matches Some(i) ==> forall|j: int|
                0 <= j < i ==> (#[trigger] self@.connections[j]).uuid != id@,
            r matches Some(i) ==> distinct_ids(self@.connections) ==> i == position(
                self@.connections,
                id@,
            ),
    {
        let want = id.to_owned();
        let mut i: usize = 0;
        while i < self.connections.len()
            invariant
                i <= self.connections@.len(),
                want@ == id@,
                forall|j: int| 0 <= j < i ==> (#[trigger] self@.connections[j]).uuid != id@,
            decreases self.connections@.len() - i,
        {
            if self.connections[i].uuid == want {
                proof {
                    if distinct_ids(self@.connections) {
                        lemma_position_unique(self@.connections, id@, i as int);
                    }
                    assert(self@.connections[i as int].uuid == id@);
                }
                return Some(i);
            }
            i += 1;
        }
        None
    }

    /// Attaches a connection with the identifier `uuid` and the role
    /// `sock_type` behind the others, unless the identifier is already
    /// attached. Says whether it did.
    pub fn insert_connection(&mut self, uuid: String, sock_type: SocketType) -> (done: bool)
        requires
            old(self).wf(),
        ensures
            final(self).wf(),
            done == !attached(old(self)@.connections, uuid@),
            done ==> final(self)@ == old(self)@.attach((ConnectionView { sock_type, uuid: uuid@ })),
            !done ==> final(self)@ == old(self)@,
    {
        if self.find_connection(uuid.as_str()).is_some() {
            return false;
        }
        let ghost c = ConnectionView { sock_type, uuid: uuid@ };
        self.connections.push(Connection { sock_type, uuid });
        proof {
            assert(views(self.connections@) =~= views(old(self).connections@).push(c));
        }
        true
    }

    /// The length of the longest identifier attached, 0 where none is.
    pub fn longest_id(&self) -> (n: usize)
        ensures
            n == longest(self@.connections),
    {
        let ghost conns = self@.connections;
        let mut best: usize = 0;
        let mut i: usize = 0;
        while i < self.connections.len()
            invariant
                i <= self.connections@.len(),
                conns == self@.connections,
                best == longest(conns.take(i as int)),
            decreases self.connections@.len() - i,
        {
            let n = self.connections[i].uuid.as_str().unicode_len();
            proof {
                assert(conns.take(i + 1).drop_last() =~= conns.take(i as int));
                assert(conns.take(i + 1).last() == conns[i as int]);
                assert(conns[i as int].uuid == self.connections@[i as int].uuid@);
            }
            if n > best {
                best = n;
            }
            i += 1;
        }
        proof {
            assert(conns.take(i as int) =~= conns);
        }
        best
    }

    /// Mints the identifier of a new connection from a drawn one: the
    /// drawn one where it is not attached, else the drawn one padded with
    /// zeros until it is longer than every identifier attached.
    pub fn mint(&self, drawn: String) -> (id: String)
        ensures
            id@ == minted(self@.connections, drawn@),
    {
        if self.find_connection(drawn.as_str()).is_none() {
            return drawn;
        }
        let ghost d = drawn@;
        let ghost zero = |i: int| '0';
        let target = self.longest_id();
        let n = drawn.as_str().unicode_len();
        proof {
            lemma_longest_bounds(self@.connections, position(self@.connections, d));
            reveal_strlit("0");
        }
        let mut id = drawn;
        id.append("0");
        let mut left: usize = target - n;
        proof {
            assert(id@ =~= d + Seq::new(1, zero));
        }
        while left > 0
            invariant
                n == d.len(),
                n <= target,
                left <= target - n,
                zero == (|i: int| '0'),
                "0"@.len() == 1,
                "0"@[0] == '0',
                id@ == d + Seq::new((target - n - left + 1) as nat, zero),
            decreases left,
        {
            id.append("0");
            left -= 1;
            proof {
                assert(id@ =~= d + Seq::new((target - n - left + 1) as nat, zero));
            }
        }
        id
    }

    /// Attaches a connection of role `sock_type` behind the others, under a
    /// freshly minted identifier, and returns the identifier:
    /// [`Registration::mint`] of an identifier drawn at random. Nothing else
    /// of the registration changes.
    pub fn add_connection(&mut self, sock_type: SocketType) -> (uuid: String)
        requires
            old(self).wf(),
        ensures
            final(self).wf(),
            final(self)@ == old(self)@.attach((ConnectionView { sock_type, uuid: uuid@ })),
            is_minted(old(self)@.connections, uuid@),
            all_lower_hex(uuid@),
            !attached(old(self)@.connections, uuid@),
    {
        let drawn = draw_connection_id();
        proof {
            lemma_minted_from_simple(self@.connections, drawn@);
            lemma_minted_is_fresh(self@.connections, drawn@);
        }
        let uuid = self.mint(drawn);
        let kept = uuid.clone();
        self.connections.push(Connection { sock_type, uuid });
        proof {
            assert(views(self.connections@) =~= views(old(self).connections@).push(
                (ConnectionView { sock_type, uuid: kept@ }),
            ));
        }
        kept
    }

    /// Detaches the connection with identifier `id` and returns it, if it is attached.
    pub fn remove_connection(&mut self, id: &str) -> (gone: Option<Connection>)
        requires
            old(self).wf(),
        ensures
            final(self).wf(),
            final(self)@ == old(self)@.detach(id@),
            match gone {
                Some(c) => attached(old(self)@.connections, id@) && c@ == old(
                    self,
                )@.connections[position(old(self)@.connections, id@)],
                None => !attached(old(self)@.connections, id@),
            },
    {
        match self.find_connection(id) {
            Some(i) => {
                let c = self.connections.remove(i);
                proof {
                    assert(views(self.connections@) =~= views(old(self).connections@).remove(
                        i as int,
                    ));
                }
                Some(c)
            },
            None => None,
        }
    }

    /// Starts the forwarder of the connection `con_uuid` of this
    /// registration, of role `sock_type`: it is handed out running, and the
    /// caller feeds it the events of the socket.
    pub fn spawn_sending(&self, sock_type: SocketType, con_uuid: String) -> (forwarder: Forwarder)
        ensures
            forwarder@ == (ForwarderView {
                reg_uuid: self@.uuid,
                con_uuid: con_uuid@,
                sock_type,
                state: ForwarderState::Running,
            }),
    {
        Forwarder {
            reg_uuid: self.uuid.clone(),
            con_uuid,
            sock_type,
            state: ForwarderState::Running,
        }
    }

    /// The identifiers of the connections that receive a frame sent by the
    /// connection of role `sock_type` and identifier `con_uuid`.
    pub fn recipients(&self, sock_type: SocketType, con_uuid: &str) -> (ids: Vec<String>)
        ensures
            ids.deep_view() == recipients_of(self@.connections, sock_type, con_uuid@),
    {
        let sender = con_uuid.to_owned();
        let audience = sock_type.recipient_role();
        let ghost conns = self@.connections;
        let ghost pred = |c: ConnectionView| c.receives(sock_type, con_uuid@);
        let ghost name = |c: ConnectionView| c.uuid;
        let mut ids: Vec<String> = Vec::new();
        let mut i: usize = 0;
        proof {
            reveal(Seq::filter);
            assert(conns.take(0).filter(pred) =~= Seq::<ConnectionView>::empty());
            assert(ids.deep_view() =~= conns.take(0).filter(pred).map_values(name));
        }
        while i < self.connections.len()
            invariant
                i <= self.connections@.len(),
                conns == self@.connections,
                sender@ == con_uuid@,
                audience == sock_type.audience(),
                pred == (|c: ConnectionView| c.receives(sock_type, con_uuid@)),
                name == (|c: ConnectionView| c.uuid),
                ids.deep_view() == conns.take(i as int).filter(pred).map_values(name),
            decreases self.connections@.len() - i,
        {
            let c = &self.connections[i];
            proof {
                reveal(Seq::filter);
                assert(conns.take(i + 1).drop_last() =~= conns.take(i as int));
                assert(conns.take(i + 1).last() == conns[i as int]);
                assert(conns[i as int] == c@);
            }
            let ghost before = ids.deep_view();
            if c.sock_type == audience && c.uuid != sender {
                ids.push(c.uuid.clone());
                assert(ids.deep_view() =~= before.push(c.uuid@));
                assert(conns.take(i + 1).filter(pred).map_values(name) =~= conns.take(
                    i as int,
                ).filter(pred).map_values(name).push(c.uuid@));
            }
            i += 1;
        }
        assert(conns.take(i as int) =~= conns);
        ids
    }
}

} // verus!
