//! The client registry: the configuration each client ID last pushed, and
//! the rules for sharing a client ID between one main client and its
//! followers, with at most one active workorder per client ID.
use vstd::prelude::*;

use crate::auth::ClientRole;
use crate::blob_store::{hex_lower, sha256_hex, sha256_of};

verus! {

/// What the server keeps about a client ID.
#[derive(Debug, Clone, PartialEq, Eq)]
pub struct ClientState {
    pub client_id: u128,
    /// SHA-256 (hex) of the portage configuration's JSON.
    pub config_hash: String,
    /// SHA-256 (hex) of the system identity's JSON.
    pub system_hash: String,
    /// Last time the client was seen, in milliseconds since the Unix epoch.
    pub last_seen_millis: i64,
    pub active_workorder: Option<u128>,
}

/// What changed since a client's last submission.
#[derive(Debug, Clone, Copy, PartialEq, Eq, Structural)]
pub struct ConfigDiff {
    pub portage_changed: bool,
    pub system_changed: bool,
}

impl ConfigDiff {
    /// Nothing changed.
    pub fn is_empty(&self) -> (r: bool)
        ensures
            r == (!self.portage_changed && !self.system_changed),
    {
        !self.portage_changed && !self.system_changed
    }
}

/// Why a workorder cannot be accepted.
#[derive(Debug, Clone, Copy, PartialEq, Eq, Structural)]
pub enum RegistryError {
    /// A workorder for this client ID is already in progress.
    ActiveWorkorder(u128),
    /// A follower submitted before any main client registered the ID.
    NoMainClient,
    /// A follower's configuration differs from the main client's.
    ConfigMismatch,
}

/// The message of a refused submission.
pub open spec fn registry_error_text(e: RegistryError) -> Seq<char> {
    match e {
        RegistryError::ActiveWorkorder(id) => "workorder "@ + crate::ids::uuid_text(id)
            + " is already active for this client ID"@,
        RegistryError::NoMainClient => "no main client has registered for this client ID yet"@,
        RegistryError::ConfigMismatch => "follower config differs from main client \u{2014} followers cannot change config"@,
    }
}

impl RegistryError {
    /// The message sent with the refusal.
    pub fn message(&self) -> (r: String)
        ensures
            r@ == registry_error_text(*self),
    {
        match self {
            RegistryError::ActiveWorkorder(id) => {
                let mut out = crate::text::chars_of("workorder ");
                let idt = crate::ids::uuid_hyphenated(*id);
                crate::text::append_chars(&mut out, crate::text::chars_of(idt.as_str()).as_slice());
                crate::text::append_chars(
                    &mut out,
                    crate::text::chars_of(" is already active for this client ID").as_slice(),
                );
                crate::text::string_of(out.as_slice())
            },
            RegistryError::NoMainClient => "no main client has registered for this client ID yet".to_string(),
            RegistryError::ConfigMismatch => "follower config differs from main client \u{2014} followers cannot change config".to_string(),
        }
    }
}

/// The abstract state of a client: hashes, last sighting and active
/// workorder.
pub struct ClientModel {
    pub config_hash: Seq<char>,
    pub system_hash: Seq<char>,
    pub last_seen_millis: i64,
    pub active_workorder: Option<u128>,
}

pub open spec fn model_of(s: ClientState) -> ClientModel {
    ClientModel {
        config_hash: s.config_hash@,
        system_hash: s.system_hash@,
        last_seen_millis: s.last_seen_millis,
        active_workorder: s.active_workorder,
    }
}

/// Known clients by client ID.
pub struct ClientRegistry {
    clients: Vec<ClientState>,
}

/// The outcome of an update on the registry's model: the answer, and the
/// registry after it.
pub open spec fn update_outcome(
    m: Map<u128, ClientModel>,
    client_id: u128,
    role: ClientRole,
    config_hash: Seq<char>,
    system_hash: Seq<char>,
    now_millis: i64,
) -> (Result<ConfigDiff, RegistryError>, Map<u128, ClientModel>) {
    if m.contains_key(client_id) && m[client_id].active_workorder is Some {
        (Err(RegistryError::ActiveWorkorder(m[client_id].active_workorder->0)), m)
    } else if m.contains_key(client_id) {
        let diff = ConfigDiff {
            portage_changed: m[client_id].config_hash != config_hash,
            system_changed: m[client_id].system_hash != system_hash,
        };
        if role == ClientRole::Follower && (diff.portage_changed || diff.system_changed) {
            (Err(RegistryError::ConfigMismatch), m)
        } else if role == ClientRole::Main {
            (
                Ok(diff),
                m.insert(
                    client_id,
                    ClientModel {
                        config_hash,
                        system_hash,
                        last_seen_millis: now_millis,
                        active_workorder: None,
                    },
                ),
            )
        } else {
            (
                Ok(diff),
                m.insert(client_id, ClientModel { last_seen_millis: now_millis, ..m[client_id] }),
            )
        }
    } else if role == ClientRole::Follower {
        (Err(RegistryError::NoMainClient), m)
    } else {
        (
            Ok(ConfigDiff { portage_changed: true, system_changed: true }),
            m.insert(
                client_id,
                ClientModel {
                    config_hash,
                    system_hash,
                    last_seen_millis: now_millis,
                    active_workorder: None,
                },
            ),
        )
    }
}

/// The hash under which a JSON text is compared.
pub open spec fn json_hash(json: Seq<u8>) -> Seq<char> {
    hex_lower(sha256_of(json))
}

/// The clients of a list by ID.
pub open spec fn map_of(v: Seq<ClientState>) -> Map<u128, ClientModel> {
    Map::new(
        |id: u128| exists|i: int| 0 <= i < v.len() && v[i].client_id == id,
        |id: u128| model_of(v[choose|i: int| 0 <= i < v.len() && v[i].client_id == id]),
    )
}

/// Each client ID occurs once in the list.
pub open spec fn unique_ids(v: Seq<ClientState>) -> bool {
    forall|i: int, j: int|
        0 <= i < j < v.len() ==> (#[trigger] v[i]).client_id != (#[trigger] v[j]).client_id
}

proof fn lemma_map_of_at(v: Seq<ClientState>, i: int)
    requires
        unique_ids(v),
        0 <= i < v.len(),
    ensures
        map_of(v).contains_key(v[i].client_id),
        map_of(v)[v[i].client_id] == model_of(v[i]),
{
    let id = v[i].client_id;
    assert(exists|k: int| 0 <= k < v.len() && v[k].client_id == id);
    let k = choose|k: int| 0 <= k < v.len() && v[k].client_id == id;
    if k != i {
        if k < i {
            assert(v[k].client_id != v[i].client_id);
        } else {
            assert(v[i].client_id != v[k].client_id);
        }
    }
}

proof fn lemma_map_of_set(v: Seq<ClientState>, i: int, x: ClientState)
    requires
        unique_ids(v),
        0 <= i < v.len(),
        x.client_id == v[i].client_id,
    ensures
        unique_ids(v.update(i, x)),
        map_of(v.update(i, x)) == map_of(v).insert(x.client_id, model_of(x)),
{
    let w = v.update(i, x);
    assert forall|a: int, b: int| 0 <= a < b < w.len() implies (#[trigger] w[a]).client_id
        != (#[trigger] w[b]).client_id by {
        assert(w[a].client_id == v[a].client_id);
        assert(w[b].client_id == v[b].client_id);
    }
    assert forall|id: u128| #[trigger] map_of(w).contains_key(id) == map_of(v).insert(
        x.client_id,
        model_of(x),
    ).contains_key(id) by {
        if map_of(v).contains_key(id) {
            let k = choose|k: int| 0 <= k < v.len() && v[k].client_id == id;
            assert(w[k].client_id == id);
        }
        if map_of(w).contains_key(id) {
            let k = choose|k: int| 0 <= k < w.len() && w[k].client_id == id;
            assert(v[k].client_id == id);
        }
    }
    assert forall|id: u128| #[trigger] map_of(w).contains_key(id) implies map_of(w)[id]
        == map_of(v).insert(x.client_id, model_of(x))[id] by {
        let k = choose|k: int| 0 <= k < w.len() && w[k].client_id == id;
        lemma_map_of_at(w, k);
        if k != i {
            lemma_map_of_at(v, k);
        }
    }
    assert(map_of(w) =~= map_of(v).insert(x.client_id, model_of(x)));
}

proof fn lemma_map_of_push(v: Seq<ClientState>, x: ClientState)
    requires
        unique_ids(v),
        !map_of(v).contains_key(x.client_id),
    ensures
        unique_ids(v.push(x)),
        map_of(v.push(x)) == map_of(v).insert(x.client_id, model_of(x)),
{
    let w = v.push(x);
    assert forall|a: int, b: int| 0 <= a < b < w.len() implies (#[trigger] w[a]).client_id
        != (#[trigger] w[b]).client_id by {
        if b == v.len() {
            assert(w[a] == v[a]);
            if v[a].client_id == x.client_id {
                assert(map_of(v).contains_key(x.client_id));
            }
        }
    }
    assert forall|id: u128| #[trigger] map_of(w).contains_key(id) == map_of(v).insert(
        x.client_id,
        model_of(x),
    ).contains_key(id) by {
        if map_of(v).contains_key(id) {
            let k = choose|k: int| 0 <= k < v.len() && v[k].client_id == id;
            assert(w[k].client_id == id);
        }
        if id == x.client_id {
            assert(w[v.len() as int].client_id == id);
        }
        if map_of(w).contains_key(id) {
            let k = choose|k: int| 0 <= k < w.len() && w[k].client_id == id;
            if k < v.len() {
                assert(v[k].client_id == id);
            }
        }
    }
    assert forall|id: u128| #[trigger] map_of(w).contains_key(id) implies map_of(w)[id]
        == map_of(v).insert(x.client_id, model_of(x))[id] by {
        let k = choose|k: int| 0 <= k < w.len() && w[k].client_id == id;
        lemma_map_of_at(w, k);
        if k < v.len() {
            lemma_map_of_at(v, k);
        }
    }
    assert(map_of(w) =~= map_of(v).insert(x.client_id, model_of(x)));
}

impl ClientRegistry {
    /// The known clients by ID.
    pub closed spec fn view_map(&self) -> Map<u128, ClientModel> {
        map_of(self.clients@)
    }

    /// Each client ID occurs once.
    pub closed spec fn wf(&self) -> bool {
        unique_ids(self.clients@)
    }

    /// An empty registry.
    pub fn new() -> (r: Self)
        ensures
            r.wf(),
            r.view_map() == Map::<u128, ClientModel>::empty(),
    {
        let r = ClientRegistry { clients: Vec::new() };
        assert(r.view_map() =~= Map::<u128, ClientModel>::empty());
        r
    }

    fn position(&self, client_id: u128) -> (r: Option<usize>)
        requires
            self.wf(),
        ensures
            match r {
                Some(i) => i < self.clients.len() && self.clients@[i as int].client_id == client_id
                    && self.view_map().contains_key(client_id) && self.view_map()[client_id]
                    == model_of(self.clients@[i as int]),
                None => !self.view_map().contains_key(client_id),
            },
    {
        let mut i: usize = 0;
        while i < self.clients.len()
            invariant
                i <= self.clients.len(),
                self.wf(),
                forall|j: int| 0 <= j < i ==> self.clients@[j].client_id != client_id,
            decreases self.clients.len() - i,
        {
            if self.clients[i].client_id == client_id {
                proof {
                    lemma_map_of_at(self.clients@, i as int);
                }
                return Some(i);
            }
            i += 1;
        }
        None
    }

    fn copy_state(c: &ClientState) -> (r: ClientState)
        ensures
            r == *c,
    {
        ClientState {
            client_id: c.client_id,
            config_hash: c.config_hash.clone(),
            system_hash: c.system_hash.clone(),
            last_seen_millis: c.last_seen_millis,
            active_workorder: c.active_workorder,
        }
    }

    /// A registry holding persisted client states; a later state for the
    /// same client ID replaces an earlier one.
    pub fn from_persisted(clients: Vec<ClientState>) -> (r: Self)
        ensures
            r.wf(),
            forall|id: u128| #[trigger] r.view_map().contains_key(id) <==> exists|i: int|
                0 <= i < clients.len() && clients@[i].client_id == id,
    {
        let mut reg = ClientRegistry::new();
        let mut k: usize = 0;
        while k < clients.len()
            invariant
                k <= clients.len(),
                reg.wf(),
                forall|id: u128| #[trigger] reg.view_map().contains_key(id) <==> exists|i: int|
                    0 <= i < k && clients@[i].client_id == id,
            decreases clients.len() - k,
        {
            let c = Self::copy_state(&clients[k]);
            let ghost before = reg.clients@;
            match reg.position(c.client_id) {
                Some(i) => {
                    proof {
                        lemma_map_of_set(before, i as int, c);
                    }
                    reg.clients.set(i, c);
                },
                None => {
                    proof {
                        lemma_map_of_push(before, c);
                    }
                    reg.clients.push(c);
                },
            }
            k += 1;
        }
        reg
    }

    /// Marks a workorder active for a known client ID; unknown IDs are left
    /// alone.
    pub fn set_active_workorder(&mut self, client_id: u128, workorder_id: u128)
        requires
            old(self).wf(),
        ensures
            final(self).wf(),
            final(self).view_map() == (if old(self).view_map().contains_key(client_id) {
                old(self).view_map().insert(
                    client_id,
                    ClientModel {
                        active_workorder: Some(workorder_id),
                        ..old(self).view_map()[client_id]
                    },
                )
            } else {
                old(self).view_map()
            }),
    {
        match self.position(client_id) {
            Some(i) => {
                let mut c = Self::copy_state(&self.clients[i]);
                c.active_workorder = Some(workorder_id);
                let ghost before = self.clients@;
                proof {
                    lemma_map_of_set(before, i as int, c);
                }
                self.clients.set(i, c);
            },
            None => {},
        }
    }

    /// Clears the active workorder of a client ID (on completion or
    /// cancellation).
    pub fn clear_active_workorder(&mut self, client_id: u128)
        requires
            old(self).wf(),
        ensures
            final(self).wf(),
            final(self).view_map() == (if old(self).view_map().contains_key(client_id) {
                old(self).view_map().insert(
                    client_id,
                    ClientModel { active_workorder: None, ..old(self).view_map()[client_id] },
                )
            } else {
                old(self).view_map()
            }),
    {
        match self.position(client_id) {
            Some(i) => {
                let mut c = Self::copy_state(&self.clients[i]);
                c.active_workorder = None;
                let ghost before = self.clients@;
                proof {
                    lemma_map_of_set(before, i as int, c);
                }
                self.clients.set(i, c);
            },
            None => {},
        }
    }

    /// The last known state of a client.
    pub fn get(&self, client_id: u128) -> (r: Option<ClientState>)
        requires
            self.wf(),
        ensures
            match r {
                Some(c) => self.view_map().contains_key(client_id) && c.client_id == client_id
                    && model_of(c) == self.view_map()[client_id],
                None => !self.view_map().contains_key(client_id),
            },
    {
        match self.position(client_id) {
            Some(i) => Some(Self::copy_state(&self.clients[i])),
            None => None,
        }
    }

    /// All known clients.
    pub fn list_all(&self) -> (r: Vec<ClientState>)
        requires
            self.wf(),
        ensures
            unique_ids(r@),
            map_of(r@) == self.view_map(),
    {
        let mut out: Vec<ClientState> = Vec::new();
        let mut i: usize = 0;
        while i < self.clients.len()
            invariant
                i <= self.clients.len(),
                out@ == self.clients@.take(i as int),
            decreases self.clients.len() - i,
        {
            out.push(Self::copy_state(&self.clients[i]));
            assert(out@ =~= self.clients@.take(i + 1));
            i += 1;
        }
        assert(out@ =~= self.clients@);
        out
    }

    /// Registers or updates a client from the JSON of its portage
    /// configuration and system identity, and says what changed:
    /// - a client ID with an active workorder is refused;
    /// - a new ID is registered by a main client (everything changed), and
    ///   refused for a follower;
    /// - a known ID compares hashes; a follower may not change them and
    ///   only refreshes the sighting, a main client replaces them.
    pub fn update(
        &mut self,
        client_id: u128,
        role: ClientRole,
        portage_config_json: &[u8],
        system_id_json: &[u8],
        now_millis: i64,
    ) -> (r: Result<ConfigDiff, RegistryError>)
        requires
            old(self).wf(),
        ensures
            final(self).wf(),
            (r, final(self).view_map()) == update_outcome(
                old(self).view_map(),
                client_id,
                role,
                json_hash(portage_config_json@),
                json_hash(system_id_json@),
                now_millis,
            ),
    {
        let config_hash = sha256_hex(portage_config_json);
        let system_hash = sha256_hex(system_id_json);
        let ghost m = self.view_map();
        match self.position(client_id) {
            Some(i) => {
                if let Some(active) = self.clients[i].active_workorder {
                    return Err(RegistryError::ActiveWorkorder(active));
                }
                let portage_changed = !crate::text::eq_chars(
                    crate::text::chars_of(self.clients[i].config_hash.as_str()).as_slice(),
                    crate::text::chars_of(config_hash.as_str()).as_slice(),
                );
                let system_changed = !crate::text::eq_chars(
                    crate::text::chars_of(self.clients[i].system_hash.as_str()).as_slice(),
                    crate::text::chars_of(system_hash.as_str()).as_slice(),
                );
                let diff = ConfigDiff { portage_changed, system_changed };
                if role == ClientRole::Follower && (portage_changed || system_changed) {
                    return Err(RegistryError::ConfigMismatch);
                }
                let ghost before = self.clients@;
                let updated = if role == ClientRole::Main {
                    ClientState {
                        client_id,
                        config_hash,
                        system_hash,
                        last_seen_millis: now_millis,
                        active_workorder: None,
                    }
                } else {
                    ClientState {
                        client_id,
                        config_hash: self.clients[i].config_hash.clone(),
                        system_hash: self.clients[i].system_hash.clone(),
                        last_seen_millis: now_millis,
                        active_workorder: self.clients[i].active_workorder,
                    }
                };
                proof {
                    lemma_map_of_set(before, i as int, updated);
                }
                self.clients.set(i, updated);
                Ok(diff)
            },
            None => {
                if role == ClientRole::Follower {
                    return Err(RegistryError::NoMainClient);
                }
                let ghost before = self.clients@;
                let fresh = ClientState {
                    client_id,
                    config_hash,
                    system_hash,
                    last_seen_millis: now_millis,
                    active_workorder: None,
                };
                proof {
                    lemma_map_of_push(before, fresh);
                }
                self.clients.push(fresh);
                Ok(ConfigDiff { portage_changed: true, system_changed: true })
            },
        }
    }
}

/// A client ID with an active workorder accepts no other submission, and
/// the registry is left as it was.
pub proof fn law_active_workorder_blocks_submission(
    m: Map<u128, ClientModel>,
    client_id: u128,
    role: ClientRole,
    config_hash: Seq<char>,
    system_hash: Seq<char>,
    now_millis: i64,
)
    requires
        m.contains_key(client_id),
        m[client_id].active_workorder is Some,
    ensures
        update_outcome(m, client_id, role, config_hash, system_hash, now_millis) == (Err::<
            ConfigDiff,
            RegistryError,
        >(RegistryError::ActiveWorkorder(m[client_id].active_workorder->0)), m),
{
}

/// A follower cannot change the configuration that the main client
/// registered: a submission with other hashes is refused and changes
/// nothing.
pub proof fn law_follower_cannot_change_config(
    m: Map<u128, ClientModel>,
    client_id: u128,
    config_hash: Seq<char>,
    system_hash: Seq<char>,
    now_millis: i64,
)
    requires
        m.contains_key(client_id),
        m[client_id].active_workorder is None,
        m[client_id].config_hash != config_hash || m[client_id].system_hash != system_hash,
    ensures
        update_outcome(m, client_id, ClientRole::Follower, config_hash, system_hash, now_millis)
            == (Err::<ConfigDiff, RegistryError>(RegistryError::ConfigMismatch), m),
{
}

/// A follower cannot register a client ID that no main client registered.
pub proof fn law_follower_requires_main(
    m: Map<u128, ClientModel>,
    client_id: u128,
    config_hash: Seq<char>,
    system_hash: Seq<char>,
    now_millis: i64,
)
    requires
        !m.contains_key(client_id),
    ensures
        update_outcome(m, client_id, ClientRole::Follower, config_hash, system_hash, now_millis)
            == (Err::<ConfigDiff, RegistryError>(RegistryError::NoMainClient), m),
{
}

/// After a main client's accepted submission, the same configuration
/// submitted again (by the main client or a follower) is accepted with
/// nothing changed.
pub proof fn law_resubmission_reports_no_change(
    m: Map<u128, ClientModel>,
    client_id: u128,
    role: ClientRole,
    config_hash: Seq<char>,
    system_hash: Seq<char>,
    t1: i64,
    t2: i64,
)
    requires
        update_outcome(m, client_id, ClientRole::Main, config_hash, system_hash, t1).0 is Ok,
    ensures
        ({
            let m1 = update_outcome(m, client_id, ClientRole::Main, config_hash, system_hash, t1).1;
            update_outcome(m1, client_id, role, config_hash, system_hash, t2).0 == Ok::<
                ConfigDiff,
                RegistryError,
            >(ConfigDiff { portage_changed: false, system_changed: false })
        }),
{
}

/// Setting and then clearing the active workorder leaves a client ID
/// accepting submissions again, with the hashes it had.
pub proof fn law_cleared_workorder_unblocks(m: Map<u128, ClientModel>, client_id: u128, w: u128)
    requires
        m.contains_key(client_id),
    ensures
        ({
            let set = m.insert(
                client_id,
                ClientModel { active_workorder: Some(w), ..m[client_id] },
            );
            let cleared = set.insert(
                client_id,
                ClientModel { active_workorder: None, ..set[client_id] },
            );
            cleared[client_id].active_workorder is None && cleared[client_id].config_hash
                == m[client_id].config_hash && cleared[client_id].system_hash
                == m[client_id].system_hash
        }),
{
}

} // verus!
