use crate::credentials::verifies;
use crate::forwarder::{Forwarder, ForwarderState, ForwarderView};
use crate::connections::ConnectionView;
use crate::connections::connection::{attached, is_minted};
use crate::ids::all_lower_hex;
use crate::register::registration::{creates, lemma_roles_stay_fitting, RegistrationView};
use crate::register::RegistrationType;
use crate::registry::{distinct_regs, has_id, index_of, lemma_created_is_found, Registry};
use crate::sockets::{Rejections, SocketRequest};
use crate::text::{same_text, text_of};
use vstd::prelude::*;
use vstd::string::StrSliceExecFns;

verus! {

/// The role of a connection within its registration.
#[derive(Debug, Clone, Copy, PartialEq, Eq, Structural)]
pub enum SocketType {
    /// A peer of a lobby.
    Socket,
    /// The host side of a host-client session.
    Host,
    /// The client side of a host-client session.
    Client,
}

/// `s` without one trailing slash, where it ends in one.
pub open spec fn without_trailing_slash(s: Seq<char>) -> Seq<char> {
    if s.len() > 0 && s.last() == '/' {
        s.drop_last()
    } else {
        s
    }
}

/// The role that a socket type names once one trailing slash is taken off:
/// `host` or `client`.
pub open spec fn role_named(sock_type: Option<Seq<char>>) -> Option<SocketType> {
    match sock_type {
        Some(st) => if without_trailing_slash(st) == "host"@ {
            Some(SocketType::Host)
        } else if without_trailing_slash(st) == "client"@ {
            Some(SocketType::Client)
        } else {
            None
        },
        None => None,
    }
}

/// The role of a socket that a registration of type `reg_type` admits: a
/// lobby makes every socket a peer, whatever socket type it names; a
/// host-client session needs the socket type to name a role.
pub open spec fn role_for(reg_type: RegistrationType, sock_type: Option<Seq<char>>) -> Result<
    SocketType,
    Rejections,
> {
    match reg_type {
        RegistrationType::Lobby => Ok(SocketType::Socket),
        RegistrationType::HostClient => match role_named(sock_type) {
            Some(role) => Ok(role),
            None => Err(Rejections::InvalidSockType),
        },
    }
}

/// The answer to a connect request, once it is known whether the key
/// verifies: `IncorrectKey` where it does not, else what [`role_for`] says.
pub open spec fn classified(
    reg_type: RegistrationType,
    key_ok: bool,
    sock_type: Option<Seq<char>>,
) -> Result<SocketType, Rejections> {
    if !key_ok {
        Err(Rejections::IncorrectKey)
    } else {
        role_for(reg_type, sock_type)
    }
}

/// The answer to a request to connect to the registration `id` with the
/// key `key`: `NonexistentId` where there is no such registration, else
/// what [`classified`] says of its type and of the key's verification.
pub open spec fn admission(
    regs: Seq<RegistrationView>,
    id: Seq<char>,
    key: Seq<char>,
    sock_type: Option<Seq<char>>,
) -> Result<SocketType, Rejections> {
    if !has_id(regs, id) {
        Err(Rejections::NonexistentId)
    } else {
        let reg = regs[index_of(regs, id)];
        classified(reg.reg_type, verifies(reg.key, key), sock_type)
    }
}

/// A connect request with a key that does not verify is refused with
/// `IncorrectKey`, whatever socket type it names.
pub proof fn lemma_wrong_key_is_refused(
    regs: Seq<RegistrationView>,
    id: Seq<char>,
    key: Seq<char>,
    sock_type: Option<Seq<char>>,
)
    requires
        has_id(regs, id),
        !verifies(regs[index_of(regs, id)].key, key),
    ensures
        admission(regs, id, key, sock_type) == Err::<SocketType, Rejections>(
            Rejections::IncorrectKey,
        ),
{
}

/// The role that an admission grants is one that the registration's type
/// admits, so attaching the admitted socket keeps the roles of the
/// registration fitting.
pub proof fn lemma_admitted_role_fits(
    regs: Seq<RegistrationView>,
    id: Seq<char>,
    key: Seq<char>,
    sock_type: Option<Seq<char>>,
    uuid: Seq<char>,
)
    requires
        admission(regs, id, key, sock_type) is Ok,
    ensures
        has_id(regs, id),
        regs[index_of(regs, id)].reg_type.admits(admission(regs, id, key, sock_type)->Ok_0),
        regs[index_of(regs, id)].roles_fit() ==> regs[index_of(regs, id)].attach(
            (ConnectionView { sock_type: admission(regs, id, key, sock_type)->Ok_0, uuid }),
        ).roles_fit(),
{
    let reg = regs[index_of(regs, id)];
    let role = admission(regs, id, key, sock_type)->Ok_0;
    if reg.roles_fit() {
        lemma_roles_stay_fitting(reg, ConnectionView { sock_type: role, uuid }, uuid);
    }
}

/// Whoever created a registration is admitted to it: a connect request
/// with the identifier that the creation returned and the participant key
/// that it was given is answered by the role alone.
pub proof fn lemma_creator_is_admitted(
    before: Seq<RegistrationView>,
    after: Seq<RegistrationView>,
    outcome: Result<String, crate::register::Rejections>,
    key: Seq<char>,
    host_key: Seq<char>,
    secret: Seq<char>,
    reg_type: RegistrationType,
    id_req: Option<Seq<char>>,
    reject: bool,
    sock_type: Option<Seq<char>>,
)
    requires
        distinct_regs(before),
        creates(before, after, outcome, key, host_key, secret, reg_type, id_req, reject),
        outcome is Ok,
    ensures
        admission(after, outcome->Ok_0@, key, sock_type) == role_for(reg_type, sock_type),
{
    lemma_created_is_found(before, after, outcome, key, host_key, secret, reg_type, id_req, reject);
}

impl SocketType {
    /// The role whose connections receive what a connection of role `self` sends.
    pub open spec fn audience(self) -> SocketType {
        match self {
            SocketType::Socket => SocketType::Socket,
            SocketType::Client => SocketType::Host,
            SocketType::Host => SocketType::Client,
        }
    }

    /// Computes [`SocketType::audience`].
    pub fn recipient_role(self) -> (r: SocketType)
        ensures
            r == self.audience(),
    {
        match self {
            SocketType::Socket => SocketType::Socket,
            SocketType::Client => SocketType::Host,
            SocketType::Host => SocketType::Client,
        }
    }

    /// Reads the role that a socket type names.
    pub fn from_name(sock_type: &Option<String>) -> (r: Option<SocketType>)
        ensures
            r == role_named(text_of(*sock_type)),
    {
        match sock_type {
            Some(st) => {
                let name = strip_trailing_slash(st.as_str());
                if same_text(name, "host") {
                    Some(SocketType::Host)
                } else if same_text(name, "client") {
                    Some(SocketType::Client)
                } else {
                    None
                }
            },
            None => None,
        }
    }
}

/// Takes one trailing slash off `s`.
pub fn strip_trailing_slash(s: &str) -> (r: &str)
    ensures
        r@ == without_trailing_slash(s@),
{
    let n = s.unicode_len();
    if n > 0 && s.get_char(n - 1) == '/' {
        let r = s.substring_char(0, n - 1);
        proof {
            assert(r@ =~= s@.drop_last());
        }
        r
    } else {
        s
    }
}

/// The namespace of the socket handlers.
#[derive(Debug)]
pub struct Socket;

impl Socket {
    /// Answers a connect request whose key has been verified or not against
    /// a registration of type `reg_type`.
    pub fn classify(reg_type: RegistrationType, key_ok: bool, sock_type: &Option<String>) -> (r:
        Result<SocketType, Rejections>)
        ensures
            r == classified(reg_type, key_ok, text_of(*sock_type)),
    {
        if !key_ok {
            return Err(Rejections::IncorrectKey);
        }
        match reg_type {
            RegistrationType::Lobby => Ok(SocketType::Socket),
            RegistrationType::HostClient => match SocketType::from_name(sock_type) {
                Some(role) => Ok(role),
                None => Err(Rejections::InvalidSockType),
            },
        }
    }

    /// Handles a connect request up to the upgrade: looks the registration
    /// up, verifies the key and derives the role. The registry is only read.
    pub fn connect_handler(req: &SocketRequest, registrations: &Registry) -> (r: Result<
        SocketType,
        Rejections,
    >)
        requires
            registrations.wf(),
        ensures
            r == admission(registrations@, req@.id, req@.key, req@.sock_type),
    {
        match registrations.lookup(req.id.as_str()) {
            Some(reg) => Socket::classify(
                reg.reg_type,
                reg.verify_key(req.key.as_str()),
                &req.sock_type,
            ),
            None => Err(Rejections::NonexistentId),
        }
    }

    /// Attaches an upgraded socket of role `sock_type` to the registration
    /// `id`, behind its other connections and under a freshly minted
    /// identifier, and hands out its forwarder, running. Nothing changes,
    /// and `None` is returned, exactly where there is no such registration.
    pub fn spawn_forwarding(id: String, registrations: &mut Registry, sock_type: SocketType) -> (r:
        Option<Forwarder>)
        requires
            old(registrations).wf(),
        ensures
            final(registrations).wf(),
            r is Some <==> has_id(old(registrations)@, id@),
            match r {
                Some(forwarder) => {
                    let i = index_of(old(registrations)@, id@);
                    let c = ConnectionView { sock_type, uuid: forwarder@.con_uuid };
                    &&& is_minted(old(registrations)@[i].connections, forwarder@.con_uuid)
                    &&& all_lower_hex(forwarder@.con_uuid)
                    &&& !attached(old(registrations)@[i].connections, forwarder@.con_uuid)
                    &&& final(registrations)@ == old(registrations)@.update(
                        i,
                        old(registrations)@[i].attach(c),
                    )
                    &&& forwarder@ == (ForwarderView {
                        reg_uuid: id@,
                        con_uuid: forwarder@.con_uuid,
                        sock_type,
                        state: ForwarderState::Running,
                    })
                },
                None => final(registrations)@ == old(registrations)@,
            },
    {
        let con_uuid = match registrations.add_connection(id.as_str(), sock_type) {
            Some(con_uuid) => con_uuid,
            None => {
                return None;
            },
        };
        proof {
            let i = index_of(old(registrations)@, id@);
            assert(registrations@[i].uuid == id@);
        }
        match registrations.lookup(id.as_str()) {
            Some(reg) => Some(reg.spawn_sending(sock_type, con_uuid)),
            None => None,
        }
    }
}

} // verus!
