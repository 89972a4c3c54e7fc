//! Session registry for the UDP echo service.
//!
//! The registry is the single source of truth for who is currently talking to
//! the service: a table from username to [`ClientInfo`], together with a
//! timeout after which a silent sender is swept out. The table itself is a
//! `dashmap::DashMap`, so a host program can drive the receive loop and a
//! periodic sweep from separate tasks; here its operations are specified over
//! the mathematical map of its contents.
//!
//! Time is injected: every operation that reads the clock takes the current
//! instant as a plain millisecond count, so its effect is a function of its
//! arguments.

use vstd::prelude::*;
use vstd::set_lib::lemma_len_subset;

verus! {

/// An IP address, with the address octets packed big-endian into one
/// integer.
#[derive(Debug, Clone, Copy, PartialEq, Eq, Structural)]
pub enum IpAddress {
    V4(u32),
    V6(u128),
}

/// A transport endpoint: an IP address and a port.
#[derive(Debug, Clone, Copy, PartialEq, Eq, Structural)]
pub struct Endpoint {
    pub ip: IpAddress,
    pub port: u16,
}

/// One sender's registry entry: identity, where to reach them, and when they
/// were last heard from (milliseconds on the injected clock).
#[derive(Debug, Clone)]
pub struct ClientInfo {
    pub user_name: String,
    pub socket_addr: Endpoint,
    pub last_message_time: u64,
}

/// The registry's errors.
#[derive(Debug, Clone, PartialEq, Eq)]
pub enum RegistryError {
    /// The named client has no entry in the table.
    NotFound(String),
}

/// What the table remembers about one sender, as mathematical values.
pub ghost struct SessionView {
    pub user_name: Seq<char>,
    pub socket_addr: Endpoint,
    pub last_message_time: u64,
}

impl ClientInfo {
    /// The entry this client record stands for.
    pub open spec fn view_spec(&self) -> SessionView {
        SessionView {
            user_name: self.user_name@,
            socket_addr: self.socket_addr,
            last_message_time: self.last_message_time,
        }
    }
}

/// A session stays in the table while the time since it was last heard from
/// is strictly below the timeout. A clock reading earlier than the entry's
/// own timestamp counts as no elapsed time at all.
pub open spec fn session_live(last_message_time: u64, now: u64, timeout: u64) -> bool {
    (if now >= last_message_time {
        now - last_message_time
    } else {
        0
    }) < timeout
}

/// The table after one sweep at instant `now`: every live entry, unchanged,
/// and nothing else.
pub open spec fn sweep_spec(
    m: Map<Seq<char>, SessionView>,
    now: u64,
    timeout: u64,
) -> Map<Seq<char>, SessionView> {
    Map::new(
        |k: Seq<char>| m.contains_key(k) && session_live(m[k].last_message_time, now, timeout),
        |k: Seq<char>| m[k],
    )
}

/// The client table itself: a `dashmap::DashMap` from username to
/// [`ClientInfo`], hidden behind trusted operations that are specified over
/// the mathematical map of its contents.
#[verifier::external_body]
pub struct ClientTable {
    inner: dashmap::DashMap<String, ClientInfo>,
}

/// The contents of the client table, keyed by the username's characters.
pub uninterp spec fn table_view(t: ClientTable) -> Map<Seq<char>, SessionView>;

/// A table with no entries at all.
pub open spec fn empty_sessions() -> Map<Seq<char>, SessionView> {
    Map::empty()
}

impl View for ClientTable {
    type V = Map<Seq<char>, SessionView>;

    open spec fn view(&self) -> Map<Seq<char>, SessionView> {
        table_view(*self)
    }
}

impl ClientTable {
    /// Relies on `dashmap::DashMap::new`: creates an empty map.
    #[verifier::external_body]
    fn new() -> (r: ClientTable)
        ensures
            table_view(r) == empty_sessions(),
    {
        ClientTable { inner: dashmap::DashMap::new() }
    }

    /// Relies on `dashmap::DashMap::insert`: maps the key to the new value,
    /// replacing the old entry for that key if there was one.
    #[verifier::external_body]
    fn insert(&mut self, client: ClientInfo)
        ensures
            final(self)@ == old(self)@.insert(client.user_name@, client.view_spec()),
    {
        self.inner.insert(client.user_name.clone(), client);
    }

    /// Relies on `dashmap::DashMap::len`: the number of key-value pairs
    /// stored.
    #[verifier::external_body]
    fn len(&self) -> (n: usize)
        ensures
            n == self@.len(),
    {
        self.inner.len()
    }

    /// Relies on `dashmap::DashMap::get`: returns the entry for the key when
    /// one is present, and nothing otherwise.
    #[verifier::external_body]
    fn get(&self, user_name: &str) -> (r: Option<ClientInfo>)
        ensures
            r is Some <==> self@.contains_key(user_name@),
            r is Some ==> r->0.view_spec() == self@[user_name@],
    {
        match self.inner.get(user_name) {
            Some(entry) => Some(entry.value().clone()),
            None => None,
        }
    }

    /// Relies on `dashmap::DashMap::retain`: keeps exactly the entries for
    /// which the predicate returns true; the predicate handed to it here
    /// leaves every value as it found it.
    #[verifier::external_body]
    fn retain_live(&mut self, now: u64, timeout: u64)
        ensures
            forall|k: Seq<char>|
                final(self)@.contains_key(k) <==> (#[trigger] old(self)@.contains_key(k)
                    && session_live(old(self)@[k].last_message_time, now, timeout)),
            forall|k: Seq<char>|
                #[trigger] final(self)@.contains_key(k) ==> final(self)@[k] == old(self)@[k],
    {
        self.inner.retain(|_, client| client_is_live(client, now, timeout));
    }
}

/// `true` exactly when this client would survive a sweep at instant `now`.
fn client_is_live(client: &ClientInfo, now: u64, timeout: u64) -> (r: bool)
    ensures
        r == session_live(client.last_message_time, now, timeout),
{
    let elapsed = if now >= client.last_message_time {
        now - client.last_message_time
    } else {
        0
    };
    elapsed < timeout
}

/// The session registry: the client table plus the silence timeout
/// (milliseconds) past which the sweep evicts an entry.
pub struct ClientManager {
    clients_table: ClientTable,
    pub timeout_duration: u64,
}

impl ClientManager {
    /// The table's contents as a mathematical map.
    pub closed spec fn sessions(&self) -> Map<Seq<char>, SessionView> {
        self.clients_table@
    }

    /// The configured silence timeout, in milliseconds.
    pub closed spec fn timeout(&self) -> u64 {
        self.timeout_duration
    }

    /// The table is finite and each entry records the username it is keyed
    /// by.
    pub open spec fn wf(&self) -> bool {
        &&& self.sessions().dom().finite()
        &&& forall|k: Seq<char>|
            #[trigger] self.sessions().contains_key(k) ==> self.sessions()[k].user_name == k
    }

    /// An empty registry with the given timeout.
    pub fn new(timeout_duration: u64) -> (r: Self)
        ensures
            r.wf(),
            r.sessions() == Map::<Seq<char>, SessionView>::empty(),
            r.timeout() == timeout_duration,
    {
        let r = ClientManager { clients_table: ClientTable::new(), timeout_duration };
        proof {
            assert(r.sessions().dom() =~= Set::<Seq<char>>::empty());
        }
        r
    }

    /// Insert or replace the entry for `client.user_name`. Never fails; the
    /// last writer wins.
    pub fn upsert_client(&mut self, client: ClientInfo)
        requires
            old(self).wf(),
        ensures
            final(self).wf(),
            final(self).timeout() == old(self).timeout(),
            final(self).sessions() == old(self).sessions().insert(
                client.user_name@,
                client.view_spec(),
            ),
    {
        self.clients_table.insert(client);
    }

    /// How many senders the table currently remembers.
    pub fn active_client_count(&self) -> (n: usize)
        requires
            self.wf(),
        ensures
            n == self.sessions().len(),
    {
        self.clients_table.len()
    }

    /// The entry for `user_name`, when one is present.
    pub fn get_client(&self, user_name: &str) -> (r: Option<ClientInfo>)
        requires
            self.wf(),
        ensures
            r is Some <==> self.sessions().contains_key(user_name@),
            r is Some ==> r->0.view_spec() == self.sessions()[user_name@],
    {
        self.clients_table.get(user_name)
    }

    /// Whether `user_name` currently has an entry.
    pub fn contains_user(&self, user_name: &str) -> (r: bool)
        requires
            self.wf(),
        ensures
            r == self.sessions().contains_key(user_name@),
    {
        match self.get_client(user_name) {
            Some(_) => true,
            None => false,
        }
    }

    /// Refresh the named client's `last_message_time` to `now`. Fails with
    /// `NotFound` (and changes nothing) exactly when the client has no entry.
    pub fn update_client_activity(&mut self, user_name: &str, now: u64) -> (r: Result<
        (),
        RegistryError,
    >)
        requires
            old(self).wf(),
        ensures
            final(self).wf(),
            final(self).timeout() == old(self).timeout(),
            old(self).sessions().contains_key(user_name@) ==> r is Ok && final(self).sessions()
                == old(self).sessions().insert(
                user_name@,
                (SessionView {
                    user_name: user_name@,
                    socket_addr: old(self).sessions()[user_name@].socket_addr,
                    last_message_time: now,
                }),
            ),
            !old(self).sessions().contains_key(user_name@) ==> (r matches Err(
                RegistryError::NotFound(missing),
            ) && missing@ == user_name@) && final(self).sessions() == old(self).sessions(),
    {
        match self.clients_table.get(user_name) {
            Some(client) => {
                let updated = ClientInfo {
                    user_name: client.user_name,
                    socket_addr: client.socket_addr,
                    last_message_time: now,
                };
                self.clients_table.insert(updated);
                Ok(())
            },
            None => Err(RegistryError::NotFound(user_name.to_owned())),
        }
    }

    /// Remove every entry that has been silent for `timeout_duration` or
    /// longer, measured against the injected instant `now`. Live entries are
    /// left untouched.
    pub fn cleanup_inactive_clients(&mut self, now: u64)
        requires
            old(self).wf(),
        ensures
            final(self).wf(),
            final(self).timeout() == old(self).timeout(),
            final(self).sessions() == sweep_spec(
                old(self).sessions(),
                now,
                old(self).timeout(),
            ),
    {
        let timeout = self.timeout_duration;
        self.clients_table.retain_live(now, timeout);
        proof {
            let swept = sweep_spec(old(self).sessions(), now, timeout);
            assert forall|k: Seq<char>| #[trigger] self.sessions().contains_key(k) implies
                swept.contains_key(k) && self.sessions()[k] == swept[k] by {
                assert(old(self).sessions().contains_key(k));
            }
            assert forall|k: Seq<char>| #[trigger] swept.contains_key(k) implies
                self.sessions().contains_key(k) by {
                assert(old(self).sessions().contains_key(k));
            }
            assert(self.sessions() =~= swept);
            lemma_len_subset(swept.dom(), old(self).sessions().dom());
        }
    }
}

/// The table after upserting each of `clients`, in order.
pub open spec fn upsert_all(
    m: Map<Seq<char>, SessionView>,
    clients: Seq<SessionView>,
) -> Map<Seq<char>, SessionView>
    decreases clients.len(),
{
    if clients.len() == 0 {
        m
    } else {
        upsert_all(m, clients.drop_last()).insert(clients.last().user_name, clients.last())
    }
}

/// Concurrent upserts apply one at a time, in some order; this says that no
/// order loses anything when the usernames are pairwise distinct and none is
/// registered yet: afterwards every client has its own entry, every earlier
/// entry is untouched, and the count has grown by exactly the number of
/// clients.
pub proof fn lemma_distinct_upserts(m: Map<Seq<char>, SessionView>, clients: Seq<SessionView>)
    requires
        m.dom().finite(),
        forall|a: int, b: int|
            0 <= a < b < clients.len() ==> clients[a].user_name != clients[b].user_name,
        forall|a: int| 0 <= a < clients.len() ==> !m.contains_key(#[trigger] clients[a].user_name),
    ensures
        upsert_all(m, clients).dom().finite(),
        upsert_all(m, clients).len() == m.len() + clients.len(),
        forall|a: int|
            0 <= a < clients.len() ==> upsert_all(m, clients).contains_key(
                #[trigger] clients[a].user_name,
            ) && upsert_all(m, clients)[clients[a].user_name] == clients[a],
        forall|k: Seq<char>|
            #[trigger] upsert_all(m, clients).contains_key(k) <==> m.contains_key(k) || (exists|
                a: int,
            |
                0 <= a < clients.len() && (#[trigger] clients[a].user_name) == k),
        forall|k: Seq<char>| #[trigger] m.contains_key(k) ==> upsert_all(m, clients)[k] == m[k],
    decreases clients.len(),
{
    if clients.len() > 0 {
        let prefix = clients.drop_last();
        let last = clients.last();
        lemma_distinct_upserts(m, prefix);
        let before = upsert_all(m, prefix);
        assert(!before.contains_key(last.user_name));
        assert(before.insert(last.user_name, last).dom() =~= before.dom().insert(last.user_name));
        vstd::set::axiom_set_insert_len(before.dom(), last.user_name);
        assert forall|a: int| 0 <= a < clients.len() implies upsert_all(
            m,
            clients,
        ).contains_key(#[trigger] clients[a].user_name) && upsert_all(m, clients)[clients[a].user_name]
            == clients[a] by {
            if a < clients.len() - 1 {
                assert(prefix[a] == clients[a]);
                assert(clients[a].user_name != last.user_name);
            }
        }
    }
}

/// Sweeping is idempotent: a second sweep at the same instant, with no new
/// traffic in between, removes nothing.
pub proof fn lemma_sweep_idempotent(m: Map<Seq<char>, SessionView>, now: u64, timeout: u64)
    ensures
        sweep_spec(sweep_spec(m, now, timeout), now, timeout) == sweep_spec(m, now, timeout),
{
    assert(sweep_spec(sweep_spec(m, now, timeout), now, timeout) =~= sweep_spec(m, now, timeout));
}

} // verus!
