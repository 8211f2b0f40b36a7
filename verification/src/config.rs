//! The trusted-gateway configuration.
use vstd::prelude::*;

use std::collections::HashSet;

use vstd::std_specs::hash::spec_hash_keys_iter;
use vstd::std_specs::iter::IteratorSpec;

use crate::mac::{
    is_mac_text, law_text_then_parse_round_trips, lemma_key_of_mac_of_key, lemma_mac_key_injective,
    mac_key, mac_of_key, mac_of_text, mac_text, mac_from_text, parsed_canonical, MacAddr,
    MacParseError,
};

verus! {

broadcast use vstd::std_specs::hash::group_hash_axioms;

/// The user's configuration: the gateways whose networks are trusted, each held
/// as the 48-bit key of its MAC address (see `MacAddr::key`).
pub struct Config {
    pub trusted_gateway_macs: HashSet<u64>,
}

/// `items` joined with `sep` between each two neighbours (`slice::join`).
pub open spec fn joined(items: Seq<Seq<char>>, sep: Seq<char>) -> Seq<char>
    decreases items.len(),
{
    if items.len() == 0 {
        Seq::empty()
    } else if items.len() == 1 {
        items[0]
    } else {
        joined(items.drop_last(), sep) + sep + items.last()
    }
}

/// The texts of the addresses of `keys`, in the order of `keys` (what
/// `show_trusted` lists and what saving writes).
pub open spec fn mac_texts(keys: Seq<u64>) -> Seq<Seq<char>> {
    keys.map_values(|k: u64| mac_text(mac_of_key(k)))
}

/// The list that `show_trusted` prints for the keys taken in the order `keys`.
pub open spec fn trusted_listing(keys: Seq<u64>) -> Seq<char> {
    joined(mac_texts(keys), seq![',', ' '])
}

proof fn lemma_listing_push(keys: Seq<u64>, k: u64)
    ensures
        trusted_listing(keys.push(k)) == (if keys.len() == 0 {
            mac_text(mac_of_key(k))
        } else {
            trusted_listing(keys) + seq![',', ' '] + mac_text(mac_of_key(k))
        }),
{
    let next = keys.push(k);
    assert(mac_texts(next) =~= mac_texts(keys).push(mac_text(mac_of_key(k))));
    assert(mac_texts(next).drop_last() =~= mac_texts(keys));
}

/// The views of a list of strings.
pub open spec fn texts_view(v: Seq<String>) -> Seq<Seq<char>> {
    v.map_values(|s: String| s@)
}

/// Every text parses as an address.
pub open spec fn all_texts_parse(texts: Seq<Seq<char>>) -> bool {
    forall|i: int| 0 <= i < texts.len() ==> (#[trigger] mac_from_text(texts[i])) is Ok
}

/// The keys of the addresses that the texts parse as.
pub open spec fn loaded_keys(texts: Seq<Seq<char>>) -> Set<u64> {
    texts.map_values(|t: Seq<char>| mac_key(mac_from_text(t)->Ok_0)).to_set()
}

/// The keys of the addresses whose canonical texts are `texts`.
pub open spec fn canonical_keys(texts: Seq<Seq<char>>) -> Set<u64> {
    texts.map_values(|t: Seq<char>| mac_key(mac_of_text(t))).to_set()
}

impl Default for Config {
    fn default() -> (c: Config)
        ensures
            c.trusted() == Set::<u64>::empty(),
            c.well_formed(),
    {
        Config::new()
    }
}

impl Config {
    /// The set of keys of the trusted gateways.
    pub open spec fn trusted(&self) -> Set<u64> {
        self.trusted_gateway_macs@
    }

    /// Whether the gateway with this address is trusted.
    pub open spec fn trusts(&self, mac: MacAddr) -> bool {
        self.trusted().contains(mac_key(mac))
    }

    /// Every key is the key of an address (below 2^48).
    pub open spec fn well_formed(&self) -> bool {
        forall|k: u64| #[trigger] self.trusted().contains(k) ==> k < 0x1_0000_0000_0000
    }

    /// A configuration that trusts no gateway.
    pub fn new() -> (c: Config)
        ensures
            c.trusted() == Set::<u64>::empty(),
            c.well_formed(),
    {
        Config { trusted_gateway_macs: HashSet::new() }
    }

    /// Trusts the gateway `mac`. Returns whether it was not trusted before.
    pub fn add_trusted_gateway(&mut self, mac: MacAddr) -> (added: bool)
        ensures
            final(self).trusted() == old(self).trusted().insert(mac_key(mac)),
            added == !old(self).trusted().contains(mac_key(mac)),
            old(self).well_formed() ==> final(self).well_formed(),
    {
        let k = mac.key();
        let added = self.trusted_gateway_macs.insert(k);
        proof {
            if old(self).well_formed() {
                assert forall|x: u64| #[trigger] self.trusted().contains(x) implies x
                    < 0x1_0000_0000_0000 by {
                    if x != k {
                        assert(old(self).trusted().contains(x));
                    }
                }
            }
        }
        added
    }

    /// Stops trusting the gateway `mac`. Returns whether it was trusted.
    pub fn remove_trusted_gateway(&mut self, mac: MacAddr) -> (removed: bool)
        ensures
            final(self).trusted() == old(self).trusted().remove(mac_key(mac)),
            removed == old(self).trusted().contains(mac_key(mac)),
            old(self).well_formed() ==> final(self).well_formed(),
    {
        let k = mac.key();
        let removed = self.trusted_gateway_macs.remove(&k);
        proof {
            if old(self).well_formed() {
                assert forall|x: u64| #[trigger] self.trusted().contains(x) implies x
                    < 0x1_0000_0000_0000 by {
                    assert(old(self).trusted().contains(x));
                }
            }
        }
        removed
    }

    /// The trusted gateways' addresses, each once, in the set's iteration order.
    pub fn trusted_macs(&self) -> (v: Vec<MacAddr>)
        ensures
            exists|keys: Seq<u64>|
                {
                    &&& keys.no_duplicates()
                    &&& keys.to_set() == self.trusted()
                    &&& v@ == keys.map_values(|k: u64| mac_of_key(k))
                },
    {
        let mut v: Vec<MacAddr> = Vec::new();
        let ghost keys = spec_hash_keys_iter(&self.trusted_gateway_macs).remaining().unref();
        for k in it: self.trusted_gateway_macs.iter()
            invariant
                keys == spec_hash_keys_iter(&self.trusted_gateway_macs).remaining().unref(),
                it.seq().unref() == keys,
                v@ == keys.take(it.index()).map_values(|k: u64| mac_of_key(k)),
        {
            v.push(MacAddr::from_key(*k));
            assert(keys.take(it.index() + 1).map_values(|k: u64| mac_of_key(k)) =~= keys.take(
                it.index(),
            ).map_values(|k: u64| mac_of_key(k)).push(mac_of_key(*k)));
        }
        assert(keys.take(keys.len() as int) =~= keys);
        v
    }

    /// A configuration that trusts exactly the gateways `macs`.
    pub fn from_macs(macs: &Vec<MacAddr>) -> (c: Config)
        ensures
            c.trusted() == macs@.map_values(|m: MacAddr| mac_key(m)).to_set(),
            c.well_formed(),
    {
        let mut c = Config::new();
        let mut i: usize = 0;
        while i < macs.len()
            invariant
                i <= macs.len(),
                c.trusted() == macs@.take(i as int).map_values(|m: MacAddr| mac_key(m)).to_set(),
                c.well_formed(),
            decreases macs.len() - i,
        {
            c.add_trusted_gateway(macs[i]);
            assert(macs@.take(i + 1).map_values(|m: MacAddr| mac_key(m)) =~= macs@.take(
                i as int,
            ).map_values(|m: MacAddr| mac_key(m)).push(mac_key(macs@[i as int])));
            proof {
                macs@.take(i as int).map_values(|m: MacAddr| mac_key(m)).lemma_push_to_set_commute(
                    mac_key(macs@[i as int]),
                );
            }
            i = i + 1;
        }
        assert(macs@.take(macs.len() as int) =~= macs@);
        c
    }

    /// The trusted gateways' addresses as text (as the configuration file holds
    /// them), each once, in the set's iteration order.
    pub fn to_texts(&self) -> (v: Vec<String>)
        ensures
            exists|keys: Seq<u64>|
                {
                    &&& keys.no_duplicates()
                    &&& keys.to_set() == self.trusted()
                    &&& texts_view(v@) == mac_texts(keys)
                },
            self.well_formed() ==> (forall|i: int|
                0 <= i < v.len() ==> is_mac_text(#[trigger] v@[i]@)),
            self.well_formed() ==> canonical_keys(texts_view(v@)) == self.trusted(),
    {
        let macs = self.trusted_macs();
        let ghost keys = choose|keys: Seq<u64>|
            {
                &&& keys.no_duplicates()
                &&& keys.to_set() == self.trusted()
                &&& macs@ == keys.map_values(|k: u64| mac_of_key(k))
            };
        let mut v: Vec<String> = Vec::new();
        let mut i: usize = 0;
        while i < macs.len()
            invariant
                i <= macs.len(),
                macs@ == keys.map_values(|k: u64| mac_of_key(k)),
                keys.len() == macs.len(),
                texts_view(v@) == mac_texts(keys.take(i as int)),
            decreases macs.len() - i,
        {
            let t = macs[i].to_string();
            let ghost before = v@;
            v.push(t);
            proof {
                assert(macs@[i as int] == mac_of_key(keys[i as int]));
                assert(texts_view(v@) =~= texts_view(before).push(t@));
                assert(mac_texts(keys.take(i + 1)) =~= mac_texts(keys.take(i as int)).push(
                    mac_text(mac_of_key(keys[i as int])),
                ));
            }
            i = i + 1;
        }
        assert(keys.take(macs.len() as int) =~= keys);
        proof {
            if self.well_formed() {
                law_save_then_load_round_trips(*self, keys);
                assert forall|i: int| 0 <= i < v.len() implies is_mac_text(#[trigger] v@[i]@) by {
                    assert(texts_view(v@)[i] == v@[i]@);
                    assert(mac_texts(keys)[i] == v@[i]@);
                }
            }
        }
        v
    }

    /// A configuration from the addresses' texts (as the configuration file
    /// holds them): each text parsed as netdev parses it, the first failure
    /// returned.
    pub fn from_texts(texts: &Vec<String>) -> (r: Result<Config, MacParseError>)
        ensures
            r is Ok <==> all_texts_parse(texts_view(texts@)),
            r matches Ok(c) ==> c.well_formed() && c.trusted() == loaded_keys(texts_view(texts@)),
            r matches Err(e) ==> exists|i: int|
                0 <= i < texts.len() && mac_from_text(texts@[i]@) == Err::<
                    MacAddr,
                    MacParseError,
                >(e) && forall|j: int|
                    0 <= j < i ==> (#[trigger] mac_from_text(texts@[j]@)) is Ok,
            (forall|i: int| 0 <= i < texts.len() ==> is_mac_text(#[trigger] texts@[i]@)) ==> (r matches Ok(c)
                && c.trusted() == canonical_keys(texts_view(texts@))),
    {
        let mut macs: Vec<MacAddr> = Vec::new();
        let mut i: usize = 0;
        while i < texts.len()
            invariant
                i <= texts.len(),
                macs.len() == i,
                forall|j: int|
                    0 <= j < i ==> mac_from_text(texts@[j]@) == Ok::<MacAddr, MacParseError>(
                        #[trigger] macs@[j],
                    ),
                forall|j: int|
                    0 <= j < i && is_mac_text(texts@[j]@) ==> #[trigger] macs@[j] == mac_of_text(
                        texts@[j]@,
                    ),
            decreases texts.len() - i,
        {
            match MacAddr::parse(texts[i].as_str()) {
                Ok(m) => {
                    macs.push(m);
                },
                Err(e) => {
                    assert forall|j: int| 0 <= j < i implies (#[trigger] mac_from_text(
                        texts@[j]@,
                    )) is Ok by {
                        assert(mac_from_text(texts@[j]@) == Ok::<MacAddr, MacParseError>(
                            macs@[j],
                        ));
                    }
                    assert(!all_texts_parse(texts_view(texts@))) by {
                        assert(texts_view(texts@)[i as int] == texts@[i as int]@);
                    }
                    return Err(e);
                },
            }
            i = i + 1;
        }
        let c = Config::from_macs(&macs);
        proof {
            let tv = texts_view(texts@);
            assert forall|j: int| 0 <= j < tv.len() implies (#[trigger] mac_from_text(tv[j])) is Ok by {
                assert(tv[j] == texts@[j]@);
                assert(mac_from_text(texts@[j]@) == Ok::<MacAddr, MacParseError>(macs@[j]));
            }
            assert(macs@.map_values(|m: MacAddr| mac_key(m)) =~= tv.map_values(
                |t: Seq<char>| mac_key(mac_from_text(t)->Ok_0),
            ));
            if forall|j: int| 0 <= j < texts.len() ==> is_mac_text(#[trigger] texts@[j]@) {
                assert(macs@.map_values(|m: MacAddr| mac_key(m)) =~= tv.map_values(
                    |t: Seq<char>| mac_key(mac_of_text(t)),
                ));
            }
        }
        Ok(c)
    }

    /// Whether the gateway `mac` is trusted.
    pub fn is_trusted(&self, mac: MacAddr) -> (r: bool)
        ensures
            r == self.trusted().contains(mac_key(mac)),
    {
        let k = mac.key();
        self.trusted_gateway_macs.contains(&k)
    }

    /// The trusted gateways' addresses, `, `-separated, in the set's iteration
    /// order (which the hash set leaves open).
    pub fn show_trusted(&self) -> (s: String)
        ensures
            exists|keys: Seq<u64>|
                {
                    &&& keys.no_duplicates()
                    &&& keys.to_set() == self.trusted()
                    &&& s@ == trusted_listing(keys)
                },
    {
        let mut s = String::new();
        let mut first = true;
        let ghost mut seen: Seq<u64> = Seq::empty();
        let ghost keys = spec_hash_keys_iter(&self.trusted_gateway_macs).remaining().unref();
        for k in it: self.trusted_gateway_macs.iter()
            invariant
                keys == spec_hash_keys_iter(&self.trusted_gateway_macs).remaining().unref(),
                it.seq().unref() == keys,
                seen == keys.take(it.index()),
                first == (it.index() == 0),
                s@ == trusted_listing(seen),
        {
            let ghost prev = s@;
            if !first {
                proof {
                    reveal_strlit(", ");
                }
                s.append(", ");
                assert(s@ =~= prev + seq![',', ' ']);
            }
            let t = MacAddr::from_key(*k).to_string();
            s.append(t.as_str());
            first = false;
            proof {
                lemma_listing_push(seen, *k);
                assert(seen.len() == it.index());
                assert(keys.take(it.index() + 1) =~= seen.push(*k));
                seen = seen.push(*k);
            }
        }
        assert(seen =~= keys);
        s
    }
}

// ---------------------------------------------------------------------------
// Laws of the trusted set
// ---------------------------------------------------------------------------

/// Trusting a gateway that was not trusted and then distrusting it leaves the
/// trusted set as it was.
pub proof fn law_add_then_remove_restores(trusted: Set<u64>, mac: MacAddr)
    requires
        !trusted.contains(mac_key(mac)),
    ensures
        trusted.insert(mac_key(mac)).remove(mac_key(mac)) == trusted,
{
    assert(trusted.insert(mac_key(mac)).remove(mac_key(mac)) =~= trusted);
}

/// Trusting is idempotent: a second `add_trusted_gateway` of the same gateway
/// reports no novelty and changes nothing; after either, the gateway is
/// trusted.
pub proof fn law_add_is_idempotent(trusted: Set<u64>, mac: MacAddr)
    ensures
        trusted.insert(mac_key(mac)).contains(mac_key(mac)),
        trusted.insert(mac_key(mac)).insert(mac_key(mac)) == trusted.insert(mac_key(mac)),
{
    assert(trusted.insert(mac_key(mac)).insert(mac_key(mac)) =~= trusted.insert(mac_key(mac)));
}

/// Distrusting is idempotent: after `remove_trusted_gateway` the gateway is not
/// trusted, and a second removal reports absence and changes nothing.
pub proof fn law_remove_is_idempotent(trusted: Set<u64>, mac: MacAddr)
    ensures
        !trusted.remove(mac_key(mac)).contains(mac_key(mac)),
        trusted.remove(mac_key(mac)).remove(mac_key(mac)) == trusted.remove(mac_key(mac)),
{
    assert(trusted.remove(mac_key(mac)).remove(mac_key(mac)) =~= trusted.remove(mac_key(mac)));
}

/// Trusting or distrusting one gateway does not change whether any other
/// gateway is trusted.
pub proof fn law_other_gateways_unaffected(trusted: Set<u64>, mac: MacAddr, other: MacAddr)
    requires
        other != mac,
    ensures
        trusted.insert(mac_key(mac)).contains(mac_key(other)) == trusted.contains(mac_key(other)),
        trusted.remove(mac_key(mac)).contains(mac_key(other)) == trusted.contains(mac_key(other)),
{
    lemma_mac_key_injective(mac, other);
}

/// Listing the trusted gateways and building a configuration from the list
/// gives back the same trusted set: what is saved is what is loaded.
pub proof fn law_list_then_rebuild_round_trips(c: Config, keys: Seq<u64>)
    requires
        c.well_formed(),
        keys.to_set() == c.trusted(),
    ensures
        keys.map_values(|k: u64| mac_of_key(k)).map_values(|m: MacAddr| mac_key(m)).to_set()
            == c.trusted(),
{
    let macs = keys.map_values(|k: u64| mac_of_key(k));
    let back = macs.map_values(|m: MacAddr| mac_key(m));
    assert forall|i: int| 0 <= i < keys.len() implies back[i] == keys[i] by {
        assert(keys.to_set().contains(keys[i]));
        lemma_key_of_mac_of_key(keys[i]);
    }
    assert(back =~= keys);
}

/// What saving writes, loading reads back: the texts written for the trusted
/// gateways are canonical address texts (which the parser reads back as those
/// addresses), and the configuration rebuilt from them trusts exactly the same
/// gateways.
pub proof fn law_save_then_load_round_trips(c: Config, keys: Seq<u64>)
    requires
        c.well_formed(),
        keys.to_set() == c.trusted(),
    ensures
        forall|i: int|
            0 <= i < keys.len() ==> is_mac_text(#[trigger] mac_texts(keys)[i])
                && parsed_canonical(mac_texts(keys)[i]) == Ok::<MacAddr, MacParseError>(
                mac_of_key(keys[i]),
            ),
        canonical_keys(mac_texts(keys)) == c.trusted(),
{
    let texts = mac_texts(keys);
    assert forall|i: int| 0 <= i < keys.len() implies is_mac_text(#[trigger] texts[i])
        && parsed_canonical(texts[i]) == Ok::<MacAddr, MacParseError>(mac_of_key(keys[i])) by {
        law_text_then_parse_round_trips(mac_of_key(keys[i]));
    }
    let back = texts.map_values(|t: Seq<char>| mac_key(mac_of_text(t)));
    assert forall|i: int| 0 <= i < keys.len() implies back[i] == keys[i] by {
        law_text_then_parse_round_trips(mac_of_key(keys[i]));
        assert(keys.to_set().contains(keys[i]));
        lemma_key_of_mac_of_key(keys[i]);
    }
    assert(back =~= keys);
}

/// A trusted set names exact addresses: a set holding one gateway trusts that
/// gateway and no other, however many octets another shares with it (the same
/// vendor prefix included). So trusting a second gateway next to the first
/// reports it as new, and asking about it before finds it untrusted.
pub proof fn law_trust_is_per_exact_address(c: Config, trusted_mac: MacAddr, other: MacAddr)
    requires
        c.trusted() == Set::<u64>::empty().insert(mac_key(trusted_mac)),
    ensures
        c.trusts(trusted_mac),
        c.trusts(other) <==> other == trusted_mac,
        other != trusted_mac ==> !c.trusted().contains(mac_key(other)),
        other != trusted_mac ==> c.trusted().insert(mac_key(other)).len() == 2,
{
    lemma_mac_key_injective(trusted_mac, other);
    if other != trusted_mac {
        assert(c.trusted().insert(mac_key(other)) =~= Set::<u64>::empty().insert(mac_key(trusted_mac)).insert(
            mac_key(other),
        ));
    }
}

} // verus!
