//! The registry: every registration, under its identifier.

use crate::connections::connection::{attached, detached, is_minted};
use crate::connections::ConnectionView;
use crate::ids::{all_lower_hex, ID_LEN};
use crate::config::Config;
use crate::credentials::verifies;
use crate::register::registration::{created, creates, RegistrationType, RegistrationView};
use crate::register::{Registration, Rejections};
use crate::text::text_of;
use crate::sockets::SocketType;
use vstd::prelude::*;

verus! {

/// Whether no two registrations of `regs` share an identifier.
pub open spec fn distinct_regs(regs: Seq<RegistrationView>) -> bool {
    forall|i: int, j: int|
        #![trigger regs[i], regs[j]]
        0 <= i < j < regs.len() ==> regs[i].uuid != regs[j].uuid
}

/// Whether a registration with identifier `id` is among `regs`.
pub open spec fn has_id(regs: Seq<RegistrationView>, id: Seq<char>) -> bool {
    exists|i: int| 0 <= i < regs.len() && (#[trigger] regs[i]).uuid == id
}

/// The place of the registration with identifier `id` in `regs`, where there is one.
pub open spec fn index_of(regs: Seq<RegistrationView>, id: Seq<char>) -> int {
    choose|i: int| 0 <= i < regs.len() && (#[trigger] regs[i]).uuid == id
}

/// The invariant of a registry: its registrations have distinct
/// identifiers, and each of them is well formed.
pub open spec fn registry_wf(regs: Seq<RegistrationView>) -> bool {
    &&& distinct_regs(regs)
    &&& forall|i: int| 0 <= i < regs.len() ==> (#[trigger] regs[i]).wf()
}

/// Among registrations with distinct identifiers, the place of an
/// identifier is the one place that holds it.
pub proof fn lemma_index_unique(regs: Seq<RegistrationView>, id: Seq<char>, i: int)
    requires
        distinct_regs(regs),
        0 <= i < regs.len(),
        regs[i].uuid == id,
    ensures
        has_id(regs, id),
        index_of(regs, id) == i,
{
    let p = index_of(regs, id);
    if p < i {
        assert(regs[p].uuid != regs[i].uuid);
    } else if i < p {
        assert(regs[i].uuid != regs[p].uuid);
    }
}

/// The registrations after the connection `con_id` of the registration
/// `reg_id` has drained: the connection is detached, and the registration
/// is removed where that leaves it without connections and `auto_remove`
/// is on.
pub open spec fn drained(
    regs: Seq<RegistrationView>,
    reg_id: Seq<char>,
    con_id: Seq<char>,
    auto_remove: bool,
) -> Seq<RegistrationView> {
    if !has_id(regs, reg_id) {
        regs
    } else {
        let i = index_of(regs, reg_id);
        let left = regs[i].detach(con_id);
        if auto_remove && left.connections.len() == 0 {
            regs.remove(i)
        } else {
            regs.update(i, left)
        }
    }
}

/// The answer to a request to remove the registration `id` with the keys
/// `key` and `host_key`: `NotFound` where there is no such registration,
/// `InvalidKey` unless both keys verify against its hashes.
pub open spec fn removal_answer(
    regs: Seq<RegistrationView>,
    id: Seq<char>,
    key: Seq<char>,
    host_key: Seq<char>,
) -> Result<(), Rejections> {
    if !has_id(regs, id) {
        Err(Rejections::NotFound)
    } else {
        let reg = regs[index_of(regs, id)];
        if verifies(reg.key, key) && verifies(reg.host_key, host_key) {
            Ok(())
        } else {
            Err(Rejections::InvalidKey)
        }
    }
}

/// The registrations after that request: without the registration where
/// the request is granted, unchanged where it is not.
pub open spec fn after_removal(
    regs: Seq<RegistrationView>,
    id: Seq<char>,
    key: Seq<char>,
    host_key: Seq<char>,
) -> Seq<RegistrationView> {
    if removal_answer(regs, id, key, host_key) is Ok {
        regs.remove(index_of(regs, id))
    } else {
        regs
    }
}

/// What a drain did.
#[derive(Debug, Clone, Copy, PartialEq, Eq, Structural)]
pub struct DrainReport {
    /// The connection was attached, and has been detached.
    pub detached: bool,
    /// The connections that the registration is left with.
    pub remaining: usize,
    /// The registration was removed from the registry.
    pub removed: bool,
}

/// The report of the drain that [`drained`] describes.
pub open spec fn drain_report(
    regs: Seq<RegistrationView>,
    reg_id: Seq<char>,
    con_id: Seq<char>,
    auto_remove: bool,
) -> DrainReport {
    if !has_id(regs, reg_id) {
        DrainReport { detached: false, remaining: 0, removed: false }
    } else {
        let reg = regs[index_of(regs, reg_id)];
        let left = reg.detach(con_id);
        DrainReport {
            detached: attached(reg.connections, con_id),
            remaining: left.connections.len() as usize,
            removed: auto_remove && left.connections.len() == 0,
        }
    }
}

/// In a well-formed registry no two registrations share an identifier,
/// and every identifier is eight characters long.
pub proof fn lemma_ids_unique(regs: Seq<RegistrationView>, i: int, j: int)
    requires
        registry_wf(regs),
        0 <= i < regs.len(),
        0 <= j < regs.len(),
        i != j,
    ensures
        regs[i].uuid != regs[j].uuid,
        regs[i].uuid.len() == ID_LEN,
{
    assert(regs[i].wf());
    if i < j {
        assert(regs[i].uuid != regs[j].uuid);
    } else {
        assert(regs[j].uuid != regs[i].uuid);
    }
}

/// Once a registration is taken out of a well-formed registry, no
/// registration has its identifier.
pub proof fn lemma_removed_is_gone(regs: Seq<RegistrationView>, id: Seq<char>)
    requires
        distinct_regs(regs),
        has_id(regs, id),
    ensures
        !has_id(regs.remove(index_of(regs, id)), id),
{
    let i = index_of(regs, id);
    let after = regs.remove(i);
    if has_id(after, id) {
        let k = index_of(after, id);
        if k < i {
            assert(after[k] == regs[k]);
            assert(regs[k].uuid != regs[i].uuid);
        } else {
            assert(after[k] == regs[k + 1]);
            assert(regs[i].uuid != regs[k + 1].uuid);
        }
    }
}

/// A remove request with a key that does not verify is refused with
/// `InvalidKey` and leaves every registration as it was.
pub proof fn lemma_wrong_key_removes_nothing(
    regs: Seq<RegistrationView>,
    id: Seq<char>,
    key: Seq<char>,
    host_key: Seq<char>,
)
    requires
        has_id(regs, id),
        !verifies(regs[index_of(regs, id)].key, key) || !verifies(
            regs[index_of(regs, id)].host_key,
            host_key,
        ),
    ensures
        removal_answer(regs, id, key, host_key) == Err::<(), Rejections>(Rejections::InvalidKey),
        after_removal(regs, id, key, host_key) == regs,
{
}

/// Of two remove requests with the same identifier and keys, where the
/// first is granted the second finds nothing to remove.
pub proof fn lemma_second_removal_finds_nothing(
    regs: Seq<RegistrationView>,
    id: Seq<char>,
    key: Seq<char>,
    host_key: Seq<char>,
)
    requires
        registry_wf(regs),
        removal_answer(regs, id, key, host_key) is Ok,
    ensures
        removal_answer(after_removal(regs, id, key, host_key), id, key, host_key) == Err::<
            (),
            Rejections,
        >(Rejections::NotFound),
{
    lemma_removed_is_gone(regs, id);
}

/// With automatic removal on, when the last connection of a registration
/// drains, no registration has its identifier any more.
pub proof fn lemma_last_drain_removes(
    regs: Seq<RegistrationView>,
    reg_id: Seq<char>,
    con_id: Seq<char>,
)
    requires
        registry_wf(regs),
        has_id(regs, reg_id),
        regs[index_of(regs, reg_id)].connections.len() == 1,
        regs[index_of(regs, reg_id)].connections[0].uuid == con_id,
    ensures
        !has_id(drained(regs, reg_id, con_id, true), reg_id),
{
    let reg = regs[index_of(regs, reg_id)];
    assert(attached(reg.connections, con_id));
    lemma_removed_is_gone(regs, reg_id);
}

/// Taking one registration out of a registry leaves the others where
/// they can be found, as they were.
pub proof fn lemma_remove_keeps_others(regs: Seq<RegistrationView>, i: int, other: Seq<char>)
    requires
        distinct_regs(regs),
        0 <= i < regs.len(),
        regs[i].uuid != other,
    ensures
        distinct_regs(regs.remove(i)),
        has_id(regs.remove(i), other) == has_id(regs, other),
        has_id(regs, other) ==> regs.remove(i)[index_of(regs.remove(i), other)] == regs[index_of(
            regs,
            other,
        )],
{
    let after = regs.remove(i);
    assert(distinct_regs(after)) by {
        assert forall|a: int, b: int| 0 <= a < b < after.len() implies (#[trigger] after[a]).uuid
            != (#[trigger] after[b]).uuid by {
            let x = if a < i {
                a
            } else {
                a + 1
            };
            let y = if b < i {
                b
            } else {
                b + 1
            };
            assert(regs[x].uuid != regs[y].uuid);
        }
    }
    if has_id(regs, other) {
        let k = index_of(regs, other);
        let m = if k < i {
            k
        } else {
            k - 1
        };
        assert(after[m] == regs[k]);
        lemma_index_unique(after, other, m);
    }
    if has_id(after, other) {
        let m = index_of(after, other);
        let k = if m < i {
            m
        } else {
            m + 1
        };
        assert(after[m] == regs[k]);
        lemma_index_unique(regs, other, k);
    }
}

/// Changing one registration of a registry, but not its identifier, leaves
/// the others where they can be found, as they were.
pub proof fn lemma_update_keeps_others(
    regs: Seq<RegistrationView>,
    i: int,
    changed: RegistrationView,
    other: Seq<char>,
)
    requires
        distinct_regs(regs),
        0 <= i < regs.len(),
        changed.uuid == regs[i].uuid,
        regs[i].uuid != other,
    ensures
        distinct_regs(regs.update(i, changed)),
        has_id(regs.update(i, changed), other) == has_id(regs, other),
        has_id(regs, other) ==> regs.update(i, changed)[index_of(regs.update(i, changed), other)]
            == regs[index_of(regs, other)],
{
    let after = regs.update(i, changed);
    assert(distinct_regs(after)) by {
        assert forall|a: int, b: int| 0 <= a < b < after.len() implies (#[trigger] after[a]).uuid
            != (#[trigger] after[b]).uuid by {
            assert(regs[a].uuid != regs[b].uuid);
        }
    }
    if has_id(regs, other) {
        let k = index_of(regs, other);
        assert(after[k] == regs[k]);
        lemma_index_unique(after, other, k);
    }
    if has_id(after, other) {
        let m = index_of(after, other);
        assert(after[m] == regs[m]);
        lemma_index_unique(regs, other, m);
    }
}

/// A drain changes no registration but the one it names.
pub proof fn lemma_drain_is_local(
    regs: Seq<RegistrationView>,
    reg_id: Seq<char>,
    con_id: Seq<char>,
    auto_remove: bool,
    other: Seq<char>,
)
    requires
        distinct_regs(regs),
        other != reg_id,
    ensures
        has_id(drained(regs, reg_id, con_id, auto_remove), other) == has_id(regs, other),
        has_id(regs, other) ==> drained(regs, reg_id, con_id, auto_remove)[index_of(
            drained(regs, reg_id, con_id, auto_remove),
            other,
        )] == regs[index_of(regs, other)],
{
    if has_id(regs, reg_id) {
        let i = index_of(regs, reg_id);
        let left = regs[i].detach(con_id);
        if auto_remove && left.connections.len() == 0 {
            lemma_remove_keeps_others(regs, i, other);
        } else {
            lemma_update_keeps_others(regs, i, left, other);
        }
    }
}

/// A registration that was just created is found under its identifier, at
/// the end of the registry, and the registry is still well formed.
pub proof fn lemma_created_is_found(
    before: Seq<RegistrationView>,
    after: Seq<RegistrationView>,
    outcome: Result<String, Rejections>,
    key: Seq<char>,
    host_key: Seq<char>,
    secret: Seq<char>,
    reg_type: RegistrationType,
    id_req: Option<Seq<char>>,
    reject: bool,
)
    requires
        distinct_regs(before),
        creates(before, after, outcome, key, host_key, secret, reg_type, id_req, reject),
        outcome is Ok,
    ensures
        distinct_regs(after),
        has_id(after, outcome->Ok_0@),
        index_of(after, outcome->Ok_0@) == after.len() - 1,
        created(after.last(), key, host_key, secret, reg_type, id_req, before),
{
    let id = outcome->Ok_0@;
    let last = after.len() - 1;
    assert forall|i: int, j: int| 0 <= i < j < after.len() implies (#[trigger] after[i]).uuid != (
    #[trigger] after[j]).uuid by {
        assert(after[i] == after.drop_last()[i]);
        if j < last {
            assert(after[j] == after.drop_last()[j]);
            assert(before[i].uuid != before[j].uuid);
        } else {
            assert(before[i].uuid != id);
        }
    }
    lemma_index_unique(after, id, last);
}

/// Whoever created a registration can remove it: a remove request with
/// the identifier that the creation returned and the two credentials that
/// it was given is granted.
pub proof fn lemma_creator_can_remove(
    before: Seq<RegistrationView>,
    after: Seq<RegistrationView>,
    outcome: Result<String, Rejections>,
    key: Seq<char>,
    host_key: Seq<char>,
    secret: Seq<char>,
    reg_type: RegistrationType,
    id_req: Option<Seq<char>>,
    reject: bool,
)
    requires
        distinct_regs(before),
        creates(before, after, outcome, key, host_key, secret, reg_type, id_req, reject),
        outcome is Ok,
    ensures
        removal_answer(after, outcome->Ok_0@, key, host_key) is Ok,
        after_removal(after, outcome->Ok_0@, key, host_key) == before,
{
    lemma_created_is_found(before, after, outcome, key, host_key, secret, reg_type, id_req, reject);
    assert(after.remove(after.len() - 1) =~= after.drop_last());
}

/// The registrations of a router, each under its identifier. They are
/// held in the order in which they were created.
#[derive(Debug)]
pub struct Registry {
    entries: Vec<Registration>,
}

impl View for Registry {
    type V = Seq<RegistrationView>;

    closed spec fn view(&self) -> Seq<RegistrationView> {
        self.entries@.map_values(|r: Registration| r@)
    }
}

impl Registry {
    /// The invariant of the registry, see [`registry_wf`].
    pub open spec fn wf(&self) -> bool {
        registry_wf(self@)
    }

    /// An empty registry.
    pub fn new() -> (r: Registry)
        ensures
            r@ == Seq::<RegistrationView>::empty(),
            r.wf(),
    {
        let r = Registry { entries: Vec::new() };
        assert(r@ =~= Seq::<RegistrationView>::empty());
        r
    }

    /// The number of registrations.
    pub fn len(&self) -> (n: usize)
        ensures
            n == self@.len(),
    {
        self.entries.len()
    }

    /// The place of the registration with identifier `id`.
    fn find(&self, id: &str) -> (r: Option<usize>)
        ensures
            r is Some <==> has_id(self@, id@),
            r matches Some(i) ==> i < self@.len() && self@[i as int].uuid == id@
                && self.entries@[i as int]@ == self@[i as int],
            r matches Some(i) ==> distinct_regs(self@) ==> i == index_of(self@, id@),
    {
        let want = id.to_owned();
        let mut i: usize = 0;
        while i < self.entries.len()
            invariant
                i <= self.entries@.len(),
                self.entries@.len() == self@.len(),
                want@ == id@,
                forall|j: int| 0 <= j < i ==> (#[trigger] self@[j]).uuid != id@,
            decreases self.entries@.len() - i,
        {
            if self.entries[i].uuid == want {
                proof {
                    assert(self@[i as int].uuid == id@);
                    if distinct_regs(self@) {
                        lemma_index_unique(self@, id@, i as int);
                    }
                }
                return Some(i);
            }
            i += 1;
        }
        None
    }

    /// Whether a registration has the identifier `id`.
    pub fn contains(&self, id: &str) -> (b: bool)
        ensures
            b == has_id(self@, id@),
    {
        self.find(id).is_some()
    }

    /// The registration with identifier `id`.
    pub fn lookup(&self, id: &str) -> (r: Option<&Registration>)
        ensures
            r is Some <==> has_id(self@, id@),
            r matches Some(reg) ==> reg@.uuid == id@ && (self.wf() ==> reg@ == self@[index_of(
                self@,
                id@,
            )]),
    {
        match self.find(id) {
            Some(i) => Some(&self.entries[i]),
            None => None,
        }
    }

    /// The registration at place `i`.
    pub fn entry(&self, i: usize) -> (reg: &Registration)
        requires
            i < self@.len(),
        ensures
            reg@ == self@[i as int],
    {
        &self.entries[i]
    }

    /// Attaches a connection of role `sock_type` to the registration with
    /// identifier `id`, behind its other connections and under a freshly
    /// minted identifier, and returns that identifier. Nothing changes, and
    /// `None` is returned, exactly where there is no such registration.
    pub fn add_connection(&mut self, id: &str, sock_type: SocketType) -> (r: Option<String>)
        requires
            old(self).wf(),
        ensures
            final(self).wf(),
            r is Some <==> has_id(old(self)@, id@),
            match r {
                Some(uuid) => {
                    let i = index_of(old(self)@, id@);
                    let c = ConnectionView { sock_type, uuid: uuid@ };
                    &&& is_minted(old(self)@[i].connections, uuid@)
                    &&& all_lower_hex(uuid@)
                    &&& !attached(old(self)@[i].connections, uuid@)
                    &&& final(self)@ == old(self)@.update(i, old(self)@[i].attach(c))
                },
                None => final(self)@ == old(self)@,
            },
    {
        match self.find(id) {
            Some(i) => {
                let uuid = self.entries[i].add_connection(sock_type);
                proof {
                    let c = ConnectionView { sock_type, uuid: uuid@ };
                    assert(self@ =~= old(self)@.update(i as int, old(self)@[i as int].attach(c)));
                }
                Some(uuid)
            },
            None => None,
        }
    }

    /// Files `reg` under its identifier, unless that identifier is taken: the
    /// check is made here, at the moment of insertion, whatever was checked
    /// when the identifier was chosen. A registration that cannot be filed
    /// is handed back.
    pub fn insert(&mut self, reg: Registration) -> (r: Result<(), Registration>)
        requires
            old(self).wf(),
            reg.wf(),
        ensures
            final(self).wf(),
            match r {
                Ok(_) => !has_id(old(self)@, reg@.uuid) && final(self)@ == old(self)@.push(reg@),
                Err(back) => has_id(old(self)@, reg@.uuid) && back == reg && final(self)@ == old(
                    self,
                )@,
            },
    {
        if self.find(reg.uuid.as_str()).is_some() {
            return Err(reg);
        }
        let ghost added = reg@;
        self.entries.push(reg);
        proof {
            assert(self@ =~= old(self)@.push(added));
        }
        Ok(())
    }

    /// Creates a registration and files it: hashes the two credentials under
    /// the secret of `config`, chooses the identifier, and inserts the
    /// registration in the same step, so that the identifier is still free
    /// when it is filed. Returns the identifier.
    pub fn create(
        &mut self,
        unhashed_key: &str,
        unhashed_host_key: &str,
        reg_type: RegistrationType,
        id_req: Option<String>,
        config: &Config,
    ) -> (r: Result<String, Rejections>)
        requires
            old(self).wf(),
        ensures
            final(self).wf(),
            creates(
                old(self)@,
                final(self)@,
                r,
                unhashed_key@,
                unhashed_host_key@,
                config@.secret_key,
                reg_type,
                text_of(id_req),
                config@.reject_no_id,
            ),
    {
        let reg = match Registration::new(
            unhashed_key,
            unhashed_host_key,
            reg_type,
            id_req,
            self,
            config,
        ) {
            Ok(reg) => reg,
            Err(e) => {
                return Err(e);
            },
        };
        let uuid = reg.uuid.clone();
        let ghost added = reg@;
        self.entries.push(reg);
        proof {
            assert(self@ =~= old(self)@.push(added));
            assert(self@.drop_last() =~= old(self)@);
        }
        Ok(uuid)
    }

    /// Removes the registration with identifier `id` and returns it with its
    /// destroy flag set, so that whoever still holds it sees the shutdown.
    /// The caller has verified the credentials. Where no registration has
    /// the identifier, nothing changes and the rejection is `NotFound`.
    pub fn remove(&mut self, id: &str) -> (r: Result<Registration, Rejections>)
        requires
            old(self).wf(),
        ensures
            final(self).wf(),
            match r {
                Ok(reg) => {
                    let i = index_of(old(self)@, id@);
                    &&& has_id(old(self)@, id@)
                    &&& reg@ == old(self)@[i].destroyed()
                    &&& final(self)@ == old(self)@.remove(i)
                },
                Err(e) => e == Rejections::NotFound && !has_id(old(self)@, id@) && final(self)@
                    == old(self)@,
            },
    {
        match self.find(id) {
            Some(i) => {
                self.entries[i].destroy = true;
                let reg = self.entries.remove(i);
                proof {
                    assert(self@ =~= old(self)@.remove(i as int));
                }
                Ok(reg)
            },
            None => Err(Rejections::NotFound),
        }
    }

    /// Drains the connection `con_id` of the registration `reg_id`: detaches
    /// it, and removes the registration where that leaves it without
    /// connections and `auto_remove` is on.
    pub fn drain(&mut self, reg_id: &str, con_id: &str, auto_remove: bool) -> (report: DrainReport)
        requires
            old(self).wf(),
        ensures
            final(self).wf(),
            final(self)@ == drained(old(self)@, reg_id@, con_id@, auto_remove),
            report == drain_report(old(self)@, reg_id@, con_id@, auto_remove),
    {
        match self.find(reg_id) {
            Some(i) => {
                let gone = self.entries[i].remove_connection(con_id);
                let remaining = self.entries[i].connections.len();
                let removed = auto_remove && remaining == 0;
                proof {
                    assert(self@ =~= old(self)@.update(
                        i as int,
                        old(self)@[i as int].detach(con_id@),
                    ));
                }
                if removed {
                    let _ = self.entries.remove(i);
                    proof {
                        assert(self@ =~= old(self)@.remove(i as int));
                    }
                }
                DrainReport { detached: gone.is_some(), remaining, removed }
            },
            None => DrainReport { detached: false, remaining: 0, removed: false },
        }
    }
}

} // verus!
