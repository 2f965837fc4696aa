//! The DNS seed servers the crawler asks for peers, by network.

use vstd::prelude::*;
use std::collections::HashMap;
use crate::tondi_protocol::NetworkChoice;

verus! {

broadcast use vstd::std_specs::hash::group_hash_axioms;

/// The texts of a list of strings.
pub open spec fn views(v: Seq<String>) -> Seq<Seq<char>> {
    v.map_values(|s: String| s@)
}

/// `s` with every occurrence of `x` dropped.
pub open spec fn without(s: Seq<Seq<char>>, x: Seq<char>) -> Seq<Seq<char>>
    decreases s.len(),
{
    if s.len() == 0 {
        s
    } else if s.last() == x {
        without(s.drop_last(), x)
    } else {
        without(s.drop_last(), x).push(s.last())
    }
}

/// `s` after `x` is added: unchanged when it already holds `x`, else `x` appended.
pub open spec fn with_server(s: Seq<Seq<char>>, x: Seq<char>) -> Seq<Seq<char>> {
    if s.contains(x) {
        s
    } else {
        s.push(x)
    }
}

/// The mainnet seed servers of the default configuration.
pub open spec fn default_mainnet() -> Seq<Seq<char>> {
    seq![
        "seeder.tondid.net"@,
        "seeder.tondinet.org"@,
        "seeder1.tondid.net"@,
        "seeder2.tondid.net"@,
        "seeder3.tondid.net"@,
        "seeder4.tondid.net"@,
        "tondidns.tondicalc.net"@,
        "n-mainnet.tondi.ws"@,
    ]
}

/// The testnet seed servers of the default configuration, for testnets 10 and 11.
pub open spec fn default_testnet() -> Seq<Seq<char>> {
    seq!["seed.testnet.tondi.org"@, "seed1-testnet.tondid.net"@]
}

/// DNS seed servers: the mainnet ones, and the testnet ones by network suffix.
#[derive(Clone, Debug)]
pub struct DnsSeedConfig {
    pub mainnet_servers: Vec<String>,
    pub testnet_servers: HashMap<u16, Vec<String>>,
}

/// Whether `v` holds a string with the text of `s`.
fn holds(v: &Vec<String>, s: &str) -> (r: bool)
    ensures
        r == views(v@).contains(s@),
{
    let mut i: usize = 0;
    while i < v.len()
        invariant
            i <= v@.len(),
            forall|j: int| 0 <= j < i ==> v@[j]@ != s@,
        decreases v@.len() - i,
    {
        if crate::text::str_eq(v[i].as_str(), s) {
            assert(views(v@)[i as int] == s@);
            return true;
        }
        i = i + 1;
    }
    proof {
        if views(v@).contains(s@) {
            let j = choose|j: int| 0 <= j < views(v@).len() && views(v@)[j] == s@;
            assert(v@[j]@ == s@);
        }
    }
    false
}

/// The strings of `v` whose text is not that of `s`, in order.
fn dropping(v: &Vec<String>, s: &str) -> (r: Vec<String>)
    ensures
        views(r@) == without(views(v@), s@),
{
    let mut r: Vec<String> = Vec::new();
    let mut i: usize = 0;
    while i < v.len()
        invariant
            i <= v@.len(),
            views(r@) == without(views(v@.take(i as int)), s@),
        decreases v@.len() - i,
    {
        assert(views(v@.take(i + 1)).drop_last() =~= views(v@.take(i as int)));
        assert(views(v@.take(i + 1)).last() == v@[i as int]@);
        if !crate::text::str_eq(v[i].as_str(), s) {
            let ghost before = r@;
            r.push(v[i].clone());
            assert(views(r@) =~= views(before).push(v@[i as int]@));
        }
        i = i + 1;
    }
    assert(v@.take(v@.len() as int) =~= v@);
    r
}

/// Strings of the given literals.
fn owned_list(items: &[&str]) -> (r: Vec<String>)
    ensures
        views(r@) == items@.map_values(|s: &str| s@),
{
    let mut r: Vec<String> = Vec::new();
    let mut i: usize = 0;
    while i < items.len()
        invariant
            i <= items@.len(),
            views(r@) == items@.take(i as int).map_values(|s: &str| s@),
        decreases items@.len() - i,
    {
        let ghost before = r@;
        r.push(items[i].to_owned());
        assert(views(r@) =~= views(before).push(items@[i as int]@));
        assert(items@.take(i + 1).map_values(|s: &str| s@) =~= items@.take(i as int).map_values(|s: &str| s@).push(items@[i as int]@));
        i = i + 1;
    }
    assert(items@.take(items@.len() as int) =~= items@);
    r
}

impl DnsSeedConfig {
    /// The default configuration: eight mainnet servers, and two servers
    /// each for testnets 10 and 11.
    pub fn default() -> (r: DnsSeedConfig)
        ensures
            views(r.mainnet_servers@) == default_mainnet(),
            r.testnet_servers@.dom() == set![10u16, 11u16],
            views(r.testnet_servers@[10u16]@) == default_testnet(),
            views(r.testnet_servers@[11u16]@) == default_testnet(),
    {
        let mainnet = [
            "seeder.tondid.net",
            "seeder.tondinet.org",
            "seeder1.tondid.net",
            "seeder2.tondid.net",
            "seeder3.tondid.net",
            "seeder4.tondid.net",
            "tondidns.tondicalc.net",
            "n-mainnet.tondi.ws",
        ];
        let testnet = ["seed.testnet.tondi.org", "seed1-testnet.tondid.net"];
        let mainnet_servers = owned_list(mainnet.as_slice());
        let t10 = owned_list(testnet.as_slice());
        let t11 = owned_list(testnet.as_slice());
        let mut testnet_servers: HashMap<u16, Vec<String>> = HashMap::new();
        testnet_servers.insert(10, t10);
        testnet_servers.insert(11, t11);
        assert(views(mainnet_servers@) =~= default_mainnet());
        assert(views(t10@) =~= default_testnet());
        assert(testnet_servers@.dom() =~= set![10u16, 11u16]);
        DnsSeedConfig { mainnet_servers, testnet_servers }
    }

    /// The mainnet seed servers.
    pub fn get_mainnet_servers(&self) -> (r: &[String])
        ensures
            r@ == self.mainnet_servers@,
    {
        self.mainnet_servers.as_slice()
    }

    /// The seed servers of testnet `suffix`, if it has any entry.
    pub fn get_testnet_servers(&self, suffix: u16) -> (r: Option<&[String]>)
        ensures
            r is Some <==> self.testnet_servers@.contains_key(suffix),
            r matches Some(s) ==> s@ == self.testnet_servers@[suffix]@,
    {
        match self.testnet_servers.get(&suffix) {
            Some(v) => Some(v.as_slice()),
            None => None,
        }
    }

    /// The seed servers the crawler asks on `network`: the mainnet ones, or
    /// those of the testnet's suffix (none when it has no entry).
    pub fn seed_servers_for(&self, network: NetworkChoice) -> (r: &[String])
        ensures
            r@ == match network {
                NetworkChoice::Mainnet => self.mainnet_servers@,
                NetworkChoice::Testnet(s) => if s <= u16::MAX && self.testnet_servers@.contains_key(s as u16) {
                    self.testnet_servers@[s as u16]@
                } else {
                    Seq::<String>::empty()
                },
            },
    {
        match network {
            NetworkChoice::Mainnet => self.get_mainnet_servers(),
            NetworkChoice::Testnet(s) => {
                if s > 65535 {
                    return &[];
                }
                let suffix: u16 = s as u16;
                match self.get_testnet_servers(suffix) {
                    Some(v) => v,
                    None => &[],
                }
            },
        }
    }

    /// Adds a mainnet seed server, unless it is already listed.
    pub fn add_mainnet_server(&mut self, server: String)
        ensures
            views(final(self).mainnet_servers@) == with_server(views(old(self).mainnet_servers@), server@),
            final(self).testnet_servers@ == old(self).testnet_servers@,
    {
        if !holds(&self.mainnet_servers, server.as_str()) {
            let ghost before = self.mainnet_servers@;
            let ghost text = server@;
            self.mainnet_servers.push(server);
            assert(views(self.mainnet_servers@) =~= views(before).push(text));
        }
    }

    /// Adds a seed server of testnet `suffix`, unless it is already listed
    /// there; a testnet with no entry gets one.
    pub fn add_testnet_server(&mut self, suffix: u16, server: String)
        ensures
            final(self).mainnet_servers@ == old(self).mainnet_servers@,
            final(self).testnet_servers@.dom() == old(self).testnet_servers@.dom().insert(suffix),
            forall|k: u16| k != suffix && #[trigger] old(self).testnet_servers@.contains_key(k) ==> final(self).testnet_servers@[k] == old(self).testnet_servers@[k],
            views(final(self).testnet_servers@[suffix]@) == with_server(
                if old(self).testnet_servers@.contains_key(suffix) { views(old(self).testnet_servers@[suffix]@) } else { Seq::<Seq<char>>::empty() },
                server@,
            ),
    {
        let mut servers = match self.testnet_servers.remove(&suffix) {
            Some(v) => v,
            None => Vec::new(),
        };
        let ghost before = servers@;
        if !holds(&servers, server.as_str()) {
            let ghost text = server@;
            servers.push(server);
            assert(views(servers@) =~= views(before).push(text));
        }
        self.testnet_servers.insert(suffix, servers);
        assert(self.testnet_servers@.dom() =~= old(self).testnet_servers@.dom().insert(suffix));
    }

    /// Removes every mainnet seed server with the text of `server`.
    pub fn remove_mainnet_server(&mut self, server: &str)
        ensures
            views(final(self).mainnet_servers@) == without(views(old(self).mainnet_servers@), server@),
            final(self).testnet_servers@ == old(self).testnet_servers@,
    {
        self.mainnet_servers = dropping(&self.mainnet_servers, server);
    }

    /// Removes every seed server of testnet `suffix` with the text of
    /// `server`; a testnet with no entry is left without one.
    pub fn remove_testnet_server(&mut self, suffix: u16, server: &str)
        ensures
            final(self).mainnet_servers@ == old(self).mainnet_servers@,
            final(self).testnet_servers@.dom() == old(self).testnet_servers@.dom(),
            forall|k: u16| k != suffix && #[trigger] old(self).testnet_servers@.contains_key(k) ==> final(self).testnet_servers@[k] == old(self).testnet_servers@[k],
            old(self).testnet_servers@.contains_key(suffix) ==> views(final(self).testnet_servers@[suffix]@) == without(views(old(self).testnet_servers@[suffix]@), server@),
    {
        match self.testnet_servers.remove(&suffix) {
            Some(v) => {
                let kept = dropping(&v, server);
                self.testnet_servers.insert(suffix, kept);
                assert(self.testnet_servers@.dom() =~= old(self).testnet_servers@.dom());
            },
            None => {
                assert(self.testnet_servers@ =~= old(self).testnet_servers@);
            },
        }
    }
}

/// Dropping a text from a list that does not hold it changes nothing.
pub proof fn lemma_without_absent(s: Seq<Seq<char>>, x: Seq<char>)
    requires
        !s.contains(x),
    ensures
        without(s, x) == s,
    decreases s.len(),
{
    if s.len() > 0 {
        assert(!s.drop_last().contains(x)) by {
            if s.drop_last().contains(x) {
                let j = choose|j: int| 0 <= j < s.drop_last().len() && s.drop_last()[j] == x;
                assert(s[j] == x);
            }
        }
        lemma_without_absent(s.drop_last(), x);
        assert(s.last() != x) by {
            assert(s[s.len() - 1] == s.last());
        }
        assert(s.drop_last().push(s.last()) =~= s);
    }
}

/// Adding a server that was not listed and then removing it gives back the
/// list as it was.
pub proof fn law_add_then_remove(s: Seq<Seq<char>>, x: Seq<char>)
    requires
        !s.contains(x),
    ensures
        without(with_server(s, x), x) == s,
{
    assert(s.push(x).drop_last() =~= s);
    lemma_without_absent(s, x);
}

/// After a server is removed, no listed server has its text.
pub proof fn law_remove_removes_all(s: Seq<Seq<char>>, x: Seq<char>)
    ensures
        !without(s, x).contains(x),
    decreases s.len(),
{
    if s.len() > 0 {
        law_remove_removes_all(s.drop_last(), x);
        let p = without(s.drop_last(), x);
        if s.last() != x {
            assert forall|j: int| 0 <= j < p.push(s.last()).len() implies p.push(s.last())[j] != x by {
                if j < p.len() {
                    assert(p.push(s.last())[j] == p[j]);
                }
            }
        }
    }
}

/// Adding a server twice lists it once.
pub proof fn law_add_idempotent(s: Seq<Seq<char>>, x: Seq<char>)
    ensures
        with_server(with_server(s, x), x) == with_server(s, x),
{
    if !s.contains(x) {
        assert(s.push(x)[s.len() as int] == x);
    }
}

} // verus!
