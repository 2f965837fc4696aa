//! The address book: every peer the seeder has heard of, with the times it
//! was seen, tried and reached, and the rules that call a peer good, stale
//! or expired.

use vstd::prelude::*;
use crate::clock::{elapsed, elapsed_nanos, now_nanos};
use crate::netaddr::{key_of, node_key, routable, is_routable, IpAddress, NetAddress, NodeKey};
use crate::selection::{dns_candidates, good_addresses_of, polling_choice, select_for_polling};
use crate::text::opt_str_view;
use crate::nodetable::{table_contents, table_entries, table_get, table_insert, table_len, table_new, table_remove, NodeTable};

verus! {

/// A peer that last connected this long ago (in nanoseconds) is no longer good.
pub const STALE_GOOD_TIMEOUT: u64 = 3_600_000_000_000;
/// A reached peer not tried for this long (in nanoseconds) is stale again.
pub const STALE_BAD_TIMEOUT: u64 = 7_200_000_000_000;
/// A peer not seen for this long (in nanoseconds) is pruned.
pub const PRUNE_EXPIRE_TIMEOUT: u64 = 28_800_000_000_000;
/// A peer never reached is tried again after this long (in nanoseconds).
pub const NEW_NODE_POLL_INTERVAL: u64 = 5_000_000_000;
/// A day, in nanoseconds.
pub const ONE_DAY: u64 = 86_400_000_000_000;

/// What the address book knows of one peer. Times are nanoseconds since
/// the Unix epoch; a `last_success` of 0 means never reached.
#[derive(Clone, Debug)]
pub struct Node {
    pub address: NetAddress,
    pub last_seen: u64,
    pub last_attempt: u64,
    pub last_success: u64,
    pub user_agent: Option<String>,
    pub subnetwork_id: Option<String>,
    pub services: u64,
    pub connection_attempts: u32,
    pub successful_connections: u32,
    pub last_error: Option<String>,
}

/// A peer first heard of at `now`.
pub open spec fn fresh_node(address: NetAddress, now: u64) -> Node {
    Node {
        address,
        last_seen: now,
        last_attempt: now,
        last_success: 0,
        user_agent: None,
        subnetwork_id: None,
        services: 0,
        connection_attempts: 0,
        successful_connections: 0,
        last_error: None,
    }
}

/// A counter after one more event; it wraps at the top as the release build does.
pub open spec fn bump(c: u32) -> u32 {
    if c < u32::MAX {
        (c + 1) as u32
    } else {
        0
    }
}

/// A peer after one connection attempt at `now`.
pub open spec fn after_attempt(n: Node, success: bool, error: Option<String>, now: u64) -> Node {
    Node {
        connection_attempts: bump(n.connection_attempts),
        last_attempt: now,
        successful_connections: if success {
            bump(n.successful_connections)
        } else {
            n.successful_connections
        },
        last_success: if success {
            now
        } else {
            n.last_success
        },
        last_error: if success {
            None
        } else {
            error
        },
        ..n
    }
}

/// A peer is good when it listens on the network's default port and
/// connected successfully less than an hour ago.
pub open spec fn node_good(n: Node, now: u64, default_port: u16) -> bool {
    n.address.port == default_port && elapsed(now, n.last_success) < STALE_GOOD_TIMEOUT
}

/// A peer is stale, and due to be polled, when it was never reached and
/// either was never tried or was tried more than five seconds ago; or when
/// it was reached before and its last try is older than two hours (one hour
/// once the last try is more than a day old).
pub open spec fn node_stale(n: Node, now: u64) -> bool {
    let since = elapsed(now, n.last_attempt);
    if n.last_success == 0 {
        n.last_attempt == n.last_seen || since > NEW_NODE_POLL_INTERVAL
    } else {
        since > (if since > ONE_DAY {
            STALE_GOOD_TIMEOUT
        } else {
            STALE_BAD_TIMEOUT
        })
    }
}

/// A peer expires when it was last seen more than eight hours ago.
pub open spec fn node_expired(n: Node, now: u64) -> bool {
    elapsed(now, n.last_seen) > PRUNE_EXPIRE_TIMEOUT
}

/// Copies an optional string.
fn copy_opt_string(s: &Option<String>) -> (r: Option<String>)
    ensures
        r == *s,
{
    match s {
        Some(x) => Some(x.clone()),
        None => None,
    }
}

/// Copies an optional string slice into an owned string.
fn own_opt_str(s: Option<&str>) -> (r: Option<String>)
    ensures
        r is Some == s is Some,
        r is Some ==> r->0@ == s->0@,
{
    match s {
        Some(x) => Some(x.to_owned()),
        None => None,
    }
}

impl Node {
    /// A peer first heard of now.
    pub fn new(address: NetAddress) -> (r: Node)
        ensures
            exists|now: u64| r == fresh_node(address, now),
    {
        Node::new_at(address, now_nanos())
    }

    /// A peer first heard of at `now`.
    pub fn new_at(address: NetAddress, now: u64) -> (r: Node)
        ensures
            r == fresh_node(address, now),
    {
        Node {
            address,
            last_seen: now,
            last_attempt: now,
            last_success: 0,
            user_agent: None,
            subnetwork_id: None,
            services: 0,
            connection_attempts: 0,
            successful_connections: 0,
            last_error: None,
        }
    }

    /// An exact copy of this record.
    pub fn duplicate(&self) -> (r: Node)
        ensures
            r == *self,
    {
        Node {
            address: self.address,
            last_seen: self.last_seen,
            last_attempt: self.last_attempt,
            last_success: self.last_success,
            user_agent: copy_opt_string(&self.user_agent),
            subnetwork_id: copy_opt_string(&self.subnetwork_id),
            services: self.services,
            connection_attempts: self.connection_attempts,
            successful_connections: self.successful_connections,
            last_error: copy_opt_string(&self.last_error),
        }
    }

    /// The key under which the address book files this peer.
    pub fn key(&self) -> (r: NodeKey)
        ensures
            r == key_of(self.address),
    {
        node_key(&self.address)
    }

    /// Records one connection attempt made now.
    pub fn record_connection_attempt(&mut self, success: bool, error: Option<String>)
        ensures
            exists|now: u64| *final(self) == after_attempt(*old(self), success, error, now),
    {
        let now = now_nanos();
        self.record_connection_attempt_at(success, error, now);
    }

    /// Records one connection attempt made at `now`: one more attempt, one
    /// more success when it succeeded, and the error it failed with.
    pub fn record_connection_attempt_at(&mut self, success: bool, error: Option<String>, now: u64)
        ensures
            *final(self) == after_attempt(*old(self), success, error, now),
    {
        self.connection_attempts = if self.connection_attempts < u32::MAX {
            self.connection_attempts + 1
        } else {
            0
        };
        self.last_attempt = now;
        if success {
            self.successful_connections = if self.successful_connections < u32::MAX {
                self.successful_connections + 1
            } else {
                0
            };
            self.last_success = now;
            self.last_error = None;
        } else {
            self.last_error = error;
        }
    }

    /// Whether this peer is good at `now`.
    pub fn is_good_at(&self, now: u64, default_port: u16) -> (r: bool)
        ensures
            r == node_good(*self, now, default_port),
    {
        if self.address.port != default_port {
            return false;
        }
        elapsed_nanos(now, self.last_success) < STALE_GOOD_TIMEOUT
    }

    /// Whether this peer is stale at `now`.
    pub fn is_stale_at(&self, now: u64) -> (r: bool)
        ensures
            r == node_stale(*self, now),
    {
        let since = elapsed_nanos(now, self.last_attempt);
        if self.last_success == 0 {
            if self.last_attempt == self.last_seen {
                return true;
            }
            return since > NEW_NODE_POLL_INTERVAL;
        }
        let stale_timeout = if since > ONE_DAY {
            STALE_GOOD_TIMEOUT
        } else {
            STALE_BAD_TIMEOUT
        };
        since > stale_timeout
    }

    /// Whether this peer has expired at `now`.
    pub fn is_expired_at(&self, now: u64) -> (r: bool)
        ensures
            r == node_expired(*self, now),
    {
        elapsed_nanos(now, self.last_seen) > PRUNE_EXPIRE_TIMEOUT
    }
}


/// Whether `add_addresses` takes an address: a non-zero port, and a
/// routable IP unless unroutable addresses are accepted.
pub open spec fn accepted(a: NetAddress, accept_unroutable: bool) -> bool {
    a.port != 0 && (accept_unroutable || routable(a))
}

/// The book after hearing of one address at `now`: a known peer is seen
/// again, an unknown one is added.
pub open spec fn add_one(m: Map<NodeKey, Node>, a: NetAddress, accept_unroutable: bool, now: u64) -> Map<
    NodeKey,
    Node,
> {
    if !accepted(a, accept_unroutable) {
        m
    } else if m.contains_key(key_of(a)) {
        m.insert(key_of(a), Node { last_seen: now, ..m[key_of(a)] })
    } else {
        m.insert(key_of(a), fresh_node(a, now))
    }
}

/// The book after hearing of each address of `s`, in order.
pub open spec fn add_all(m: Map<NodeKey, Node>, s: Seq<NetAddress>, accept_unroutable: bool, now: u64) -> Map<
    NodeKey,
    Node,
>
    decreases s.len(),
{
    if s.len() == 0 {
        m
    } else {
        add_one(add_all(m, s.drop_last(), accept_unroutable, now), s.last(), accept_unroutable, now)
    }
}

/// How many addresses of `s` were new to the book.
pub open spec fn count_new(m: Map<NodeKey, Node>, s: Seq<NetAddress>, accept_unroutable: bool, now: u64) -> nat
    decreases s.len(),
{
    if s.len() == 0 {
        0
    } else {
        count_new(m, s.drop_last(), accept_unroutable, now) + if accepted(s.last(), accept_unroutable)
            && !add_all(m, s.drop_last(), accept_unroutable, now).contains_key(key_of(s.last())) {
            1nat
        } else {
            0nat
        }
    }
}

/// A book is well formed when it is finite and files each peer under the
/// key of its own address.
pub open spec fn book_wf(m: Map<NodeKey, Node>) -> bool {
    &&& m.dom().finite()
    &&& forall|k: NodeKey| #[trigger] m.contains_key(k) ==> key_of(m[k].address) == k
}

/// `e` lists every peer of the book exactly once, in some order.
pub open spec fn enumerates(e: Seq<Node>, m: Map<NodeKey, Node>) -> bool {
    &&& e.len() == m.len()
    &&& forall|i: int|
        0 <= i < e.len() ==> m.contains_key(key_of(#[trigger] e[i].address)) && m[key_of(
            e[i].address,
        )] == e[i]
    &&& forall|i: int, j: int|
        0 <= i < j < e.len() ==> key_of(#[trigger] e[i].address) != key_of(#[trigger] e[j].address)
}

/// The book with `f` applied to the peer filed under the key of `a`, if any.
pub open spec fn update_at(m: Map<NodeKey, Node>, a: NetAddress, f: spec_fn(Node) -> Node) -> Map<
    NodeKey,
    Node,
> {
    if m.contains_key(key_of(a)) {
        m.insert(key_of(a), f(m[key_of(a)]))
    } else {
        m
    }
}

/// The book after an attempt at `now` to connect to `a`, if `a` is known.
pub open spec fn book_after_attempt(
    m: Map<NodeKey, Node>,
    a: NetAddress,
    success: bool,
    error: Option<String>,
    now: u64,
) -> Map<NodeKey, Node> {
    update_at(m, a, |n: Node| after_attempt(n, success, error, now))
}

/// The book after `a`, if known, is marked tried at `now`.
pub open spec fn book_after_try(m: Map<NodeKey, Node>, a: NetAddress, now: u64) -> Map<NodeKey, Node> {
    update_at(m, a, |n: Node| Node { last_attempt: now, ..n })
}

/// Adding an address keeps a book well formed.
pub proof fn lemma_add_one_wf(m: Map<NodeKey, Node>, a: NetAddress, acc: bool, now: u64)
    requires
        book_wf(m),
    ensures
        book_wf(add_one(m, a, acc, now)),
        add_one(m, a, acc, now).len() == m.len() + if accepted(a, acc) && !m.contains_key(
            key_of(a),
        ) {
            1int
        } else {
            0int
        },
{
    let r = add_one(m, a, acc, now);
    assert forall|k: NodeKey| #[trigger] r.contains_key(k) implies key_of(r[k].address) == k by {
        if k != key_of(a) {
            assert(m.contains_key(k));
        }
    }
}

/// Adding addresses one by one keeps a book well formed and grows it by
/// exactly the number of new addresses.
pub proof fn lemma_add_all_wf(m: Map<NodeKey, Node>, s: Seq<NetAddress>, acc: bool, now: u64)
    requires
        book_wf(m),
    ensures
        book_wf(add_all(m, s, acc, now)),
        add_all(m, s, acc, now).len() == m.len() + count_new(m, s, acc, now),
    decreases s.len(),
{
    if s.len() > 0 {
        lemma_add_all_wf(m, s.drop_last(), acc, now);
        lemma_add_one_wf(add_all(m, s.drop_last(), acc, now), s.last(), acc, now);
    }
}

/// An empty book is well formed.
proof fn lemma_empty_wf(m: Map<NodeKey, Node>)
    requires
        m.is_empty(),
    ensures
        book_wf(m),
{
    assert(m.dom() =~= Set::<NodeKey>::empty());
}

/// Filing a peer under its own key keeps a book well formed.
proof fn lemma_insert_wf(m: Map<NodeKey, Node>, k: NodeKey, n: Node)
    requires
        book_wf(m),
        key_of(n.address) == k,
    ensures
        book_wf(m.insert(k, n)),
{
}

/// Dropping a key keeps a book well formed.
proof fn lemma_remove_wf(m: Map<NodeKey, Node>, k: NodeKey)
    requires
        book_wf(m),
    ensures
        book_wf(m.remove(k)),
{
}

/// The address book.
pub struct AddressManager {
    nodes: NodeTable,
    peers_file: String,
    default_port: u16,
}

impl AddressManager {
    /// The peers the book holds, by key.
    pub closed spec fn book(&self) -> Map<NodeKey, Node> {
        table_contents(self.nodes)
    }

    /// The book is well formed; every address book is.
    #[verifier::type_invariant]
    pub closed spec fn wf(&self) -> bool {
        book_wf(self.book())
    }

    /// Files `n` under `k`, its address's key. The table is taken out while
    /// it changes, so that the book stays well formed throughout.
    fn insert_node(&mut self, k: NodeKey, n: Node)
        requires
            key_of(n.address) == k,
        ensures
            final(self).book() == old(self).book().insert(k, n),
            final(self).peers_file_spec() == old(self).peers_file_spec(),
            final(self).default_port_spec() == old(self).default_port_spec(),
    {
        proof {
            use_type_invariant(&*self);
            lemma_insert_wf(self.book(), k, n);
        }
        let mut nodes = table_new();
        proof {
            lemma_empty_wf(table_contents(nodes));
        }
        std::mem::swap(&mut self.nodes, &mut nodes);
        table_insert(&mut nodes, k, n);
        std::mem::swap(&mut self.nodes, &mut nodes);
    }

    /// Drops what is filed under `k`. The table is taken out while it
    /// changes, so that the book stays well formed throughout.
    fn remove_node(&mut self, k: &NodeKey)
        ensures
            final(self).book() == old(self).book().remove(*k),
            final(self).peers_file_spec() == old(self).peers_file_spec(),
            final(self).default_port_spec() == old(self).default_port_spec(),
    {
        proof {
            use_type_invariant(&*self);
            lemma_remove_wf(self.book(), *k);
        }
        let mut nodes = table_new();
        proof {
            lemma_empty_wf(table_contents(nodes));
        }
        std::mem::swap(&mut self.nodes, &mut nodes);
        table_remove(&mut nodes, k);
        std::mem::swap(&mut self.nodes, &mut nodes);
    }

    /// The file the book is saved to.
    pub closed spec fn peers_file_spec(&self) -> Seq<char> {
        self.peers_file@
    }

    /// The network's default port.
    pub closed spec fn default_port_spec(&self) -> u16 {
        self.default_port
    }

    /// An empty book, saved to `peers_file`, for a network whose default
    /// port is `default_port`.
    pub fn new(peers_file: String, default_port: u16) -> (r: AddressManager)
        ensures
            r.book() == Map::<NodeKey, Node>::empty(),
            r.peers_file_spec() == peers_file@,
            r.default_port_spec() == default_port,
    {
        let nodes = table_new();
        let r = AddressManager { nodes, peers_file, default_port };
        assert(r.book() =~= Map::<NodeKey, Node>::empty());
        r
    }

    /// The file the book is saved to.
    pub fn peers_file(&self) -> (r: &String)
        ensures
            r@ == self.peers_file_spec(),
    {
        &self.peers_file
    }

    /// The network's default port.
    pub fn default_port(&self) -> (r: u16)
        ensures
            r == self.default_port_spec(),
    {
        self.default_port
    }

    /// Files each loaded peer under the key of its address; a later peer
    /// replaces an earlier one with the same key.
    pub fn load_nodes(&mut self, nodes: Vec<Node>)
        ensures
            final(self).peers_file_spec() == old(self).peers_file_spec(),
            final(self).default_port_spec() == old(self).default_port_spec(),
            forall|k: NodeKey|
                #[trigger] final(self).book().contains_key(k) <==> (old(self).book().contains_key(k)
                    || exists|i: int| 0 <= i < nodes@.len() && key_of(nodes@[i].address) == k),
            forall|i: int|
                0 <= i < nodes@.len() && (forall|j: int|
                    i < j < nodes@.len() ==> key_of(nodes@[j].address) != key_of(
                        #[trigger] nodes@[i].address,
                    )) ==> final(self).book()[key_of(nodes@[i].address)] == nodes@[i],
    {
        proof {
            use_type_invariant(&*self);
        }
        let mut i: usize = 0;
        while i < nodes.len()
            invariant
                self.wf(),
                i <= nodes@.len(),
                self.peers_file_spec() == old(self).peers_file_spec(),
                self.default_port_spec() == old(self).default_port_spec(),
                forall|k: NodeKey|
                    #[trigger] self.book().contains_key(k) <==> (old(self).book().contains_key(k)
                        || exists|j: int| 0 <= j < i && key_of(nodes@[j].address) == k),
                forall|j: int|
                    0 <= j < i && (forall|l: int|
                        j < l < i ==> key_of(nodes@[l].address) != key_of(
                            #[trigger] nodes@[j].address,
                        )) ==> self.book()[key_of(nodes@[j].address)] == nodes@[j],
            decreases nodes@.len() - i,
        {
            let n = nodes[i].duplicate();
            let k = n.key();
            let ghost before = self.book();
            self.insert_node(k, n);
            proof {
                let b = self.book();
                assert(b == before.insert(k, nodes@[i as int]));
                assert forall|kk: NodeKey| #[trigger] b.contains_key(kk) implies key_of(
                    b[kk].address,
                ) == kk by {
                    if kk != k {
                        assert(before.contains_key(kk));
                    }
                }
                assert forall|kk: NodeKey|
                    old(self).book().contains_key(kk) || exists|j: int|
                        0 <= j < i + 1 && key_of(nodes@[j].address) == kk implies #[trigger] b.contains_key(kk) by {
                    if kk != k && (exists|j: int| 0 <= j < i + 1 && key_of(nodes@[j].address) == kk) {
                        let j = choose|j: int| 0 <= j < i + 1 && key_of(nodes@[j].address) == kk;
                        assert(j != i);
                        assert(before.contains_key(kk));
                    }
                }
                assert forall|kk: NodeKey| #[trigger] b.contains_key(kk) implies (old(
                    self,
                ).book().contains_key(kk) || exists|j: int|
                    0 <= j < i + 1 && key_of(nodes@[j].address) == kk) by {
                    if kk == k {
                        assert(key_of(nodes@[i as int].address) == kk);
                    } else {
                        assert(before.contains_key(kk));
                    }
                }
                assert forall|j: int|
                    0 <= j < i + 1 && (forall|l: int|
                        j < l < i + 1 ==> key_of(nodes@[l].address) != key_of(
                            #[trigger] nodes@[j].address,
                        )) implies b[key_of(nodes@[j].address)] == nodes@[j] by {
                    if j < i {
                        assert(key_of(nodes@[i as int].address) != key_of(nodes@[j].address));
                    }
                }
            }
            i = i + 1;
        }
    }

    /// Adds the addresses heard of now; returns how many were new.
    pub fn add_addresses(&mut self, addresses: Vec<NetAddress>, default_port: u16, accept_unroutable: bool) -> (r:
        usize)
        ensures
            final(self).peers_file_spec() == old(self).peers_file_spec(),
            final(self).default_port_spec() == old(self).default_port_spec(),
            exists|now: u64|
                final(self).book() == add_all(old(self).book(), addresses@, accept_unroutable, now)
                    && r == count_new(old(self).book(), addresses@, accept_unroutable, now),
    {
        proof {
            use_type_invariant(&*self);
        }
        let now = now_nanos();
        self.add_addresses_at(addresses, default_port, accept_unroutable, now)
    }

    /// Adds the addresses heard of at `now`, in order: an address with port
    /// 0, or unroutable when unroutable addresses are not accepted, is
    /// skipped; a known peer is marked seen at `now`; an unknown one is added
    /// as never tried. Returns how many were new. `default_port` is not used.
    pub fn add_addresses_at(
        &mut self,
        addresses: Vec<NetAddress>,
        default_port: u16,
        accept_unroutable: bool,
        now: u64,
    ) -> (r: usize)
        ensures
            final(self).peers_file_spec() == old(self).peers_file_spec(),
            final(self).default_port_spec() == old(self).default_port_spec(),
            final(self).book() == add_all(old(self).book(), addresses@, accept_unroutable, now),
            r == count_new(old(self).book(), addresses@, accept_unroutable, now),
    {
        proof {
            use_type_invariant(&*self);
        }
        let _ = default_port;
        let ghost start = self.book();
        let mut count: usize = 0;
        let mut i: usize = 0;
        while i < addresses.len()
            invariant
                book_wf(start),
                i <= addresses@.len(),
                self.wf(),
                self.peers_file_spec() == old(self).peers_file_spec(),
                self.default_port_spec() == old(self).default_port_spec(),
                start == old(self).book(),
                self.book() == add_all(start, addresses@.take(i as int), accept_unroutable, now),
                count == count_new(start, addresses@.take(i as int), accept_unroutable, now),
                count <= i,
            decreases addresses@.len() - i,
        {
            let a = addresses[i];
            let ghost before = self.book();
            assert(addresses@.take(i + 1).drop_last() =~= addresses@.take(i as int));
            assert(addresses@.take(i + 1).last() == a);
            if a.port == 0 || (!accept_unroutable && !is_routable(&a)) {
            } else {
                let k = node_key(&a);
                match table_get(&self.nodes, &k) {
                    Some(mut n) => {
                        n.last_seen = now;
                        self.insert_node(k, n);
                    },
                    None => {
                        self.insert_node(k, Node::new_at(a, now));
                        count = count + 1;
                    },
                }
            }
            proof {
                lemma_add_one_wf(before, a, accept_unroutable, now);
            }
            i = i + 1;
        }
        assert(addresses@.take(addresses@.len() as int) =~= addresses@);
        count
    }

    /// The number of peers in the book.
    pub fn address_count(&self) -> (r: usize)
        ensures
            r == self.book().len(),
    {
        table_len(&self.nodes)
    }

    /// Every peer in the book, each once, in an order that is not stated.
    pub fn get_all_nodes(&self) -> (r: Vec<Node>)
        ensures
            enumerates(r@, self.book()),
    {
        proof {
            use_type_invariant(&*self);
        }
        let entries = table_entries(&self.nodes);
        let mut r: Vec<Node> = Vec::new();
        let mut i: usize = 0;
        while i < entries.len()
            invariant
                self.wf(),
                i <= entries@.len(),
                entries@.len() == self.book().len(),
                forall|j: int|
                    0 <= j < entries@.len() ==> self.book().contains_key(#[trigger] entries@[j].0)
                        && self.book()[entries@[j].0] == entries@[j].1,
                forall|j: int, l: int| 0 <= j < l < entries@.len() ==> entries@[j].0 != entries@[l].0,
                r@.len() == i,
                forall|j: int| 0 <= j < i ==> #[trigger] r@[j] == entries@[j].1,
            decreases entries@.len() - i,
        {
            let n = entries[i].1.duplicate();
            r.push(n);
            i = i + 1;
        }
        proof {
            assert forall|j: int| 0 <= j < r@.len() implies self.book().contains_key(
                key_of(#[trigger] r@[j].address),
            ) && self.book()[key_of(r@[j].address)] == r@[j] by {
                assert(self.book().contains_key(entries@[j].0));
            }
            assert forall|j: int, l: int| 0 <= j < l < r@.len() implies key_of(
                #[trigger] r@[j].address,
            ) != key_of(#[trigger] r@[l].address) by {
                assert(self.book().contains_key(entries@[j].0));
                assert(self.book().contains_key(entries@[l].0));
            }
        }
        r
    }

    /// Replaces the peer filed under `k` by `n`, which keeps its address.
    fn replace_node(&mut self, k: NodeKey, n: Node)
        requires
            old(self).book().contains_key(k),
            n.address == old(self).book()[k].address,
        ensures
            final(self).peers_file_spec() == old(self).peers_file_spec(),
            final(self).default_port_spec() == old(self).default_port_spec(),
            final(self).book() == old(self).book().insert(k, n),
    {
        proof {
            use_type_invariant(&*self);
        }
        let ghost before = self.book();
        self.insert_node(k, n);
        proof {
            let b = self.book();
            assert forall|kk: NodeKey| #[trigger] b.contains_key(kk) implies key_of(b[kk].address)
                == kk by {
                if kk != k {
                    assert(before.contains_key(kk));
                }
            }
        }
    }

    /// Records a connection attempt made now to `address`, if it is known.
    pub fn record_connection_result(&mut self, address: &NetAddress, success: bool, error: Option<String>)
        ensures
            final(self).peers_file_spec() == old(self).peers_file_spec(),
            final(self).default_port_spec() == old(self).default_port_spec(),
            exists|now: u64|
                final(self).book() == book_after_attempt(old(self).book(), *address, success, error, now),
    {
        proof {
            use_type_invariant(&*self);
        }
        let now = now_nanos();
        self.record_connection_result_at(address, success, error, now);
    }

    /// Records a connection attempt made at `now` to `address`, if it is known.
    pub fn record_connection_result_at(
        &mut self,
        address: &NetAddress,
        success: bool,
        error: Option<String>,
        now: u64,
    )
        ensures
            final(self).peers_file_spec() == old(self).peers_file_spec(),
            final(self).default_port_spec() == old(self).default_port_spec(),
            final(self).book() == book_after_attempt(old(self).book(), *address, success, error, now),
    {
        proof {
            use_type_invariant(&*self);
        }
        let k = node_key(address);
        match table_get(&self.nodes, &k) {
            Some(mut n) => {
                n.record_connection_attempt_at(success, error, now);
                self.replace_node(k, n);
            },
            None => {},
        }
    }

    /// Marks `address`, if known, as tried now.
    pub fn attempt(&mut self, address: &NetAddress)
        ensures
            final(self).peers_file_spec() == old(self).peers_file_spec(),
            final(self).default_port_spec() == old(self).default_port_spec(),
            exists|now: u64|
                final(self).book() == book_after_try(old(self).book(), *address, now),
    {
        proof {
            use_type_invariant(&*self);
        }
        let now = now_nanos();
        self.attempt_at(address, now);
    }

    /// Marks `address`, if known, as tried at `now`.
    pub fn attempt_at(&mut self, address: &NetAddress, now: u64)
        ensures
            final(self).peers_file_spec() == old(self).peers_file_spec(),
            final(self).default_port_spec() == old(self).default_port_spec(),
            final(self).book() == book_after_try(old(self).book(), *address, now),
    {
        proof {
            use_type_invariant(&*self);
        }
        let k = node_key(address);
        match table_get(&self.nodes, &k) {
            Some(mut n) => {
                n.last_attempt = now;
                self.replace_node(k, n);
            },
            None => {},
        }
    }

    /// Marks `address`, if known, as reached now, with the user agent and
    /// subnetwork it reported.
    pub fn good(&mut self, address: &NetAddress, user_agent: Option<&str>, subnetwork_id: Option<&str>)
        ensures
            final(self).peers_file_spec() == old(self).peers_file_spec(),
            final(self).default_port_spec() == old(self).default_port_spec(),
            old(self).book().contains_key(key_of(*address)) ==> exists|now: u64|
                marked_good(old(self).book(), *address, opt_str_view(user_agent), opt_str_view(subnetwork_id), now, final(self).book()),
            !old(self).book().contains_key(key_of(*address)) ==> final(self).book() == old(self).book(),
    {
        proof {
            use_type_invariant(&*self);
        }
        let now = now_nanos();
        self.good_at(address, user_agent, subnetwork_id, now);
    }

    /// Marks `address`, if known, as reached at `now`, with the user agent
    /// and subnetwork it reported.
    pub fn good_at(
        &mut self,
        address: &NetAddress,
        user_agent: Option<&str>,
        subnetwork_id: Option<&str>,
        now: u64,
    )
        ensures
            final(self).peers_file_spec() == old(self).peers_file_spec(),
            final(self).default_port_spec() == old(self).default_port_spec(),
            old(self).book().contains_key(key_of(*address)) ==> marked_good(
                old(self).book(),
                *address,
                opt_str_view(user_agent),
                opt_str_view(subnetwork_id),
                now,
                final(self).book(),
            ),
            !old(self).book().contains_key(key_of(*address)) ==> final(self).book() == old(self).book(),
    {
        proof {
            use_type_invariant(&*self);
        }
        let k = node_key(address);
        match table_get(&self.nodes, &k) {
            Some(mut n) => {
                n.user_agent = own_opt_str(user_agent);
                n.subnetwork_id = own_opt_str(subnetwork_id);
                n.last_success = now;
                self.replace_node(k, n);
                assert(self.book().dom() =~= old(self).book().dom());
            },
            None => {},
        }
    }
}

/// The book without its expired peers.
pub open spec fn without_expired(m: Map<NodeKey, Node>, now: u64) -> Map<NodeKey, Node> {
    Map::new(|k: NodeKey| m.contains_key(k) && !node_expired(m[k], now), |k: NodeKey| m[k])
}

/// Tallies of a pruning pass over a listing.
#[derive(Clone, Copy, Debug, PartialEq, Eq, Structural)]
pub struct PruneReport {
    /// Peers removed as expired.
    pub pruned: usize,
    /// Good peers kept.
    pub good: usize,
    /// Good peers kept that are IPv4.
    pub ipv4: usize,
    /// Good peers kept that are IPv6.
    pub ipv6: usize,
    /// Stale peers kept that are not good.
    pub stale: usize,
    /// Peers kept that are neither good nor stale.
    pub bad: usize,
}

/// The tallies of pruning the listing `e` at `now`.
pub open spec fn prune_tally(e: Seq<Node>, now: u64, default_port: u16) -> PruneReport
    decreases e.len(),
{
    if e.len() == 0 {
        PruneReport { pruned: 0, good: 0, ipv4: 0, ipv6: 0, stale: 0, bad: 0 }
    } else {
        let t = prune_tally(e.drop_last(), now, default_port);
        let n = e.last();
        if node_expired(n, now) {
            PruneReport { pruned: (t.pruned + 1) as usize, ..t }
        } else if node_good(n, now, default_port) {
            if n.address.ip is V4 {
                PruneReport { good: (t.good + 1) as usize, ipv4: (t.ipv4 + 1) as usize, ..t }
            } else {
                PruneReport { good: (t.good + 1) as usize, ipv6: (t.ipv6 + 1) as usize, ..t }
            }
        } else if node_stale(n, now) {
            PruneReport { stale: (t.stale + 1) as usize, ..t }
        } else {
            PruneReport { bad: (t.bad + 1) as usize, ..t }
        }
    }
}

/// The tallies never exceed the length of the listing.
pub proof fn lemma_prune_tally_bounded(e: Seq<Node>, now: u64, default_port: u16)
    requires
        e.len() <= usize::MAX,
    ensures
        ({
            let t = prune_tally(e, now, default_port);
            t.pruned + t.good + t.stale + t.bad == e.len() && t.ipv4 + t.ipv6 == t.good
        }),
    decreases e.len(),
{
    if e.len() > 0 {
        lemma_prune_tally_bounded(e.drop_last(), now, default_port);
    }
}

impl AddressManager {
    /// The peers to poll in the next round, chosen now.
    pub fn addresses(&self, threads: u8) -> (r: Vec<NetAddress>)
        ensures
            exists|now: u64, e: Seq<Node>|
                #![trigger polling_choice(e, threads, now, self.default_port_spec(), r@)]
                enumerates(e, self.book()) && polling_choice(e, threads, now, self.default_port_spec(), r@),
    {
        proof {
            use_type_invariant(&*self);
        }
        let now = now_nanos();
        self.addresses_at(threads, now)
    }

    /// The peers to poll in a round at `now`: up to three per crawler
    /// thread, stale peers first and oldest try first, then good peers not
    /// yet taken, oldest try first.
    pub fn addresses_at(&self, threads: u8, now: u64) -> (r: Vec<NetAddress>)
        ensures
            exists|e: Seq<Node>|
                #![trigger enumerates(e, self.book())]
                enumerates(e, self.book()) && polling_choice(e, threads, now, self.default_port_spec(), r@),
    {
        proof {
            use_type_invariant(&*self);
        }
        let entries = self.get_all_nodes();
        select_for_polling(&entries, threads, now, self.default_port)
    }

    /// The addresses that a DNS query of type `qtype` is answered from, chosen now.
    pub fn good_addresses(&self, qtype: u16, include_all_subnetworks: bool, subnetwork_id: Option<&str>) -> (r: Vec<
        NetAddress,
    >)
        ensures
            exists|now: u64, e: Seq<Node>|
                #![trigger dns_candidates(e, qtype, include_all_subnetworks, opt_str_view(subnetwork_id), now, self.default_port_spec())]
                enumerates(e, self.book()) && r@ == dns_candidates(
                    e,
                    qtype,
                    include_all_subnetworks,
                    opt_str_view(subnetwork_id),
                    now,
                    self.default_port_spec(),
                ),
    {
        proof {
            use_type_invariant(&*self);
        }
        let now = now_nanos();
        self.good_addresses_at(qtype, include_all_subnetworks, subnetwork_id, now)
    }

    /// The addresses that a DNS query of type `qtype` is answered from at
    /// `now`: none unless the type is A or AAAA; else every peer of the
    /// requested family and subnetwork that is good or stale.
    pub fn good_addresses_at(
        &self,
        qtype: u16,
        include_all_subnetworks: bool,
        subnetwork_id: Option<&str>,
        now: u64,
    ) -> (r: Vec<NetAddress>)
        ensures
            exists|e: Seq<Node>|
                #![trigger enumerates(e, self.book())]
                enumerates(e, self.book()) && r@ == dns_candidates(
                    e,
                    qtype,
                    include_all_subnetworks,
                    opt_str_view(subnetwork_id),
                    now,
                    self.default_port_spec(),
                ),
    {
        proof {
            use_type_invariant(&*self);
        }
        let entries = self.get_all_nodes();
        good_addresses_of(&entries, qtype, include_all_subnetworks, subnetwork_id, now, self.default_port)
    }

    /// Removes the peers expired now and tallies the rest.
    pub fn prune_peers(&mut self) -> (r: PruneReport)
        ensures
            final(self).peers_file_spec() == old(self).peers_file_spec(),
            final(self).default_port_spec() == old(self).default_port_spec(),
            exists|now: u64, e: Seq<Node>|
                #![trigger prune_tally(e, now, old(self).default_port_spec())]
                enumerates(e, old(self).book()) && r == prune_tally(e, now, old(self).default_port_spec())
                    && final(self).book() == without_expired(old(self).book(), now),
    {
        proof {
            use_type_invariant(&*self);
        }
        let now = now_nanos();
        self.prune_peers_at(now)
    }

    /// Removes the peers expired at `now`, and tallies the listing walked:
    /// the peers removed, and of the rest the good ones (by family), the
    /// stale ones and the others.
    pub fn prune_peers_at(&mut self, now: u64) -> (r: PruneReport)
        ensures
            final(self).peers_file_spec() == old(self).peers_file_spec(),
            final(self).default_port_spec() == old(self).default_port_spec(),
            final(self).book() == without_expired(old(self).book(), now),
            exists|e: Seq<Node>|
                #![trigger enumerates(e, old(self).book())]
                enumerates(e, old(self).book()) && r == prune_tally(e, now, old(self).default_port_spec()),
    {
        proof {
            use_type_invariant(&*self);
        }
        let entries = self.get_all_nodes();
        let ghost start = self.book();
        let mut r = PruneReport { pruned: 0, good: 0, ipv4: 0, ipv6: 0, stale: 0, bad: 0 };
        let mut i: usize = 0;
        proof {
            lemma_prune_tally_bounded(entries@.take(0), now, self.default_port);
        }
        while i < entries.len()
            invariant
                i <= entries@.len(),
                start == old(self).book(),
                enumerates(entries@, start),
                book_wf(start),
                self.wf(),
                self.peers_file_spec() == old(self).peers_file_spec(),
                self.default_port_spec() == old(self).default_port_spec(),
                r == prune_tally(entries@.take(i as int), now, self.default_port),
                forall|k: NodeKey|
                    #[trigger] self.book().contains_key(k) <==> (start.contains_key(k) && !(node_expired(
                        start[k],
                        now,
                    ) && exists|j: int| 0 <= j < i && key_of(entries@[j].address) == k)),
                forall|k: NodeKey| #[trigger] self.book().contains_key(k) ==> self.book()[k] == start[k],
            decreases entries@.len() - i,
        {
            proof {
                lemma_prune_tally_bounded(entries@.take(i as int), now, self.default_port);
            }
            assert(entries@.take(i + 1).drop_last() =~= entries@.take(i as int));
            assert(entries@.take(i + 1).last() == entries@[i as int]);
            let n = &entries[i];
            let ghost before = self.book();
            if n.is_expired_at(now) {
                let k = n.key();
                self.remove_node(&k);
                r.pruned = r.pruned + 1;
                proof {
                    let b = self.book();
                    assert forall|kk: NodeKey| #[trigger] b.contains_key(kk) implies key_of(b[kk].address) == kk by {
                        assert(before.contains_key(kk));
                    }
                    assert forall|kk: NodeKey| #[trigger] b.contains_key(kk) <==> (start.contains_key(kk)
                        && !(node_expired(start[kk], now) && exists|j: int|
                        0 <= j < i + 1 && key_of(entries@[j].address) == kk)) by {
                        if kk == k {
                            assert(key_of(entries@[i as int].address) == kk);
                        } else if exists|j: int| 0 <= j < i + 1 && key_of(entries@[j].address) == kk {
                            let j = choose|j: int| 0 <= j < i + 1 && key_of(entries@[j].address) == kk;
                            assert(j != i);
                        }
                    }
                }
            } else {
                if n.is_good_at(now, self.default_port) {
                    r.good = r.good + 1;
                    if n.address.ip.is_ipv4() {
                        r.ipv4 = r.ipv4 + 1;
                    } else {
                        r.ipv6 = r.ipv6 + 1;
                    }
                } else if n.is_stale_at(now) {
                    r.stale = r.stale + 1;
                } else {
                    r.bad = r.bad + 1;
                }
                proof {
                    assert forall|kk: NodeKey| #[trigger] self.book().contains_key(kk) <==> (start.contains_key(kk)
                        && !(node_expired(start[kk], now) && exists|j: int|
                        0 <= j < i + 1 && key_of(entries@[j].address) == kk)) by {
                        if exists|j: int| 0 <= j < i + 1 && key_of(entries@[j].address) == kk {
                            let j = choose|j: int| 0 <= j < i + 1 && key_of(entries@[j].address) == kk;
                            if j == i {
                                assert(start[kk] == entries@[i as int]);
                            }
                        }
                    }
                }
            }
            i = i + 1;
        }
        proof {
            assert(entries@.take(entries@.len() as int) =~= entries@);
            assert forall|k: NodeKey| #[trigger] start.contains_key(k) implies exists|j: int|
                0 <= j < entries@.len() && key_of(entries@[j].address) == k by {
                lemma_enumeration_covers(entries@, start, k);
            }
            assert(self.book() =~= without_expired(start, now));
        }
        r
    }
}

/// A listing of a well-formed book names every key of the book.
pub proof fn lemma_enumeration_covers(e: Seq<Node>, m: Map<NodeKey, Node>, k: NodeKey)
    requires
        enumerates(e, m),
        book_wf(m),
        m.contains_key(k),
    ensures
        exists|j: int| 0 <= j < e.len() && key_of(e[j].address) == k,
{
    let listed = Set::new(|kk: NodeKey| exists|j: int| 0 <= j < e.len() && key_of(e[j].address) == kk);
    if !(exists|j: int| 0 <= j < e.len() && key_of(e[j].address) == k) {
        let keys = Seq::new(e.len(), |j: int| key_of(e[j].address));
        assert(keys.no_duplicates());
        keys.unique_seq_to_set();
        assert forall|kk: NodeKey| keys.to_set().contains(kk) implies m.dom().remove(k).contains(kk) by {
            let j = choose|j: int| 0 <= j < keys.len() && keys[j] == kk;
            assert(m.contains_key(key_of(e[j].address)));
        }
        vstd::set_lib::lemma_len_subset(keys.to_set(), m.dom().remove(k));
        assert(false);
    }
}

/// `after` is `before` with the peer at `address` marked reached at `now`:
/// its user agent and subnetwork replaced by the reported ones, every other
/// field and every other peer unchanged.
pub open spec fn marked_good(
    before: Map<NodeKey, Node>,
    address: NetAddress,
    user_agent: Option<Seq<char>>,
    subnetwork_id: Option<Seq<char>>,
    now: u64,
    after: Map<NodeKey, Node>,
) -> bool {
    let k = key_of(address);
    let o = before[k];
    let n = after[k];
    &&& after.dom() == before.dom()
    &&& forall|kk: NodeKey| #[trigger] after.contains_key(kk) && kk != k ==> after[kk] == before[kk]
    &&& n.last_success == now
    &&& n.user_agent is Some == user_agent is Some
    &&& (n.user_agent is Some ==> n.user_agent->0@ == user_agent->0)
    &&& n.subnetwork_id is Some == subnetwork_id is Some
    &&& (n.subnetwork_id is Some ==> n.subnetwork_id->0@ == subnetwork_id->0)
    &&& n == Node { last_success: now, user_agent: n.user_agent, subnetwork_id: n.subnetwork_id, ..o }
}

} // verus!
