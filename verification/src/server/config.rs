//! The server's WireGuard configuration: the addresses it hands out, the
//! peers it has registered, and the rules by which a new peer is added.
use vstd::prelude::*;

use vstd::arithmetic::power2::{lemma2_to64, lemma_pow2_strictly_increases, lemma_pow2_unfold, pow2};

use crate::crypto::{get_public_key, is_private_key_text, public_key_text, try_get_public_key};
use crate::inifile::{
    document_view, find_section, has_name, lemma_find_section_from, section_get, section_view,
    IniDocument, IniSection, SectionView,
};
use crate::ipnet::{
    ipv4_block_size, ipv4_network_from_str, lemma_ipv4_nth_distinct, ipv4_network_nth, ipv4_network_text,
    ipv4_network_to_string, ipv4_nth, ipv6_network_base, ipv6_network_first,
    ipv6_network_from_str, parse_ipv4_network, parse_ipv6_network,
};
use crate::server::backend::memory::MemoryBackend;
use crate::server::backend::StorageBackend;
use crate::text::{
    concat, lemma_trim_idempotent, split_char, split_spec, str_equal, trim, trim_spec, views,
};

verus! {

/// What a registration hands back: the peer's IPv4 address, the IPv6
/// network address if the server has one, and the server's public key.
pub struct RegisterResult {
    pub ipv4_addr: u32,
    pub ipv6_addr: Option<u128>,
    pub public_key: String,
}

/// The server's configuration and the addresses it has handed out.
pub struct WireguardConfig {
    ini: IniDocument,
    filename: String,
    adresses: Vec<String>,
    public_key: String,
    backend: MemoryBackend,
}

/// Whether a section is a peer.
pub open spec fn is_peer(s: SectionView) -> bool {
    has_name(s, "Peer"@)
}

/// Every peer section names its public key.
pub open spec fn peers_have_keys(doc: Seq<SectionView>) -> bool {
    forall|i: int| 0 <= i < doc.len() && is_peer(#[trigger] doc[i]) ==> section_get(doc[i], "PublicKey"@) is Some
}

/// Whether a peer with public key `key` is in the document.
pub open spec fn peer_registered(doc: Seq<SectionView>, key: Seq<char>) -> bool {
    exists|i: int|
        0 <= i < doc.len() && is_peer(#[trigger] doc[i]) && section_get(doc[i], "PublicKey"@)
            == Some(key)
}

/// Every key that has an address stored has a peer section in the document.
pub open spec fn stored_keys_have_peers(doc: Seq<SectionView>, map: Map<Seq<char>, u32>) -> bool {
    forall|k: Seq<char>| #[trigger] map.contains_key(k) ==> peer_registered(doc, k)
}

/// What holds of every configuration: every peer section names its public
/// key, every key with a stored address has a peer section, and the store
/// holds finitely many keys.
pub open spec fn config_well_formed(doc: Seq<SectionView>, map: Map<Seq<char>, u32>) -> bool {
    &&& peers_have_keys(doc)
    &&& stored_keys_have_peers(doc, map)
    &&& map.dom().finite()
}

/// A peer stays registered when a section is appended.
proof fn lemma_registered_after_push(doc: Seq<SectionView>, s: SectionView, key: Seq<char>)
    requires
        peer_registered(doc, key),
    ensures
        peer_registered(doc.push(s), key),
{
    let i = choose|i: int|
        0 <= i < doc.len() && is_peer(#[trigger] doc[i]) && section_get(doc[i], "PublicKey"@)
            == Some(key);
    assert(doc.push(s)[i] == doc[i]);
}

/// Every key of the addresses read from the peers among the first `n`
/// sections belongs to one of those peers.
proof fn lemma_peers_map_keys(doc: Seq<SectionView>, n: int, key: Seq<char>)
    requires
        peers_have_keys(doc),
        0 <= n <= doc.len(),
        peers_map(doc, n).contains_key(key),
    ensures
        peer_registered(doc, key),
    decreases n,
{
    if is_peer(doc[n - 1]) && section_get(doc[n - 1], "PublicKey"@)->Some_0 == key {
        assert(section_get(doc[n - 1], "PublicKey"@) is Some);
    } else {
        lemma_peers_map_keys(doc, n - 1, key);
    }
}

/// The peer section that a registration adds: the key and the single
/// address it may use.
pub open spec fn new_peer_view(key: Seq<char>, ip: u32) -> SectionView {
    (Some("Peer"@), seq![("PublicKey"@, key), ("AllowedIPs"@, ipv4_network_text(ip, 32))])
}

/// The document after registering `key` with address `ip`: a new peer
/// section at the end, unless a peer with that key is there already.
pub open spec fn document_after_register(doc: Seq<SectionView>, key: Seq<char>, ip: u32) -> Seq<
    SectionView,
> {
    if peer_registered(doc, key) {
        doc
    } else {
        doc.push(new_peer_view(key, ip))
    }
}

/// The first IPv4 network among the addresses from index `k` on, or the
/// error of the last one that did not parse (`err` where none is left).
pub open spec fn ipv4_network_choice(addrs: Seq<Seq<char>>, k: int, err: Seq<char>) -> Result<
    (u32, u8),
    Seq<char>,
>
    decreases addrs.len() - k,
{
    if k < 0 || k >= addrs.len() {
        Err(err)
    } else {
        match ipv4_network_from_str(addrs[k]) {
            Ok(v) => Ok(v),
            Err(e) => ipv4_network_choice(addrs, k + 1, "ip parse Error: "@ + e),
        }
    }
}

/// The IPv4 network that new peers get their addresses from: the first of
/// the server's addresses that is an IPv4 network.
pub open spec fn ipv4_pool(addrs: Seq<Seq<char>>) -> Result<(u32, u8), Seq<char>> {
    ipv4_network_choice(addrs, 0, "Ip not found"@)
}

/// The IPv4 address of `key`: the one stored for it, or else the address
/// of the pool at the offset of the number of stored keys plus two.
pub open spec fn ipv4_assignment(addrs: Seq<Seq<char>>, map: Map<Seq<char>, u32>, key: Seq<char>) -> Result<u32, Seq<char>> {
    if map.contains_key(key) {
        Ok(map[key])
    } else {
        match ipv4_pool(addrs) {
            Ok(v) => Ok(ipv4_nth(v.0, v.1, (map.len() + 2) as u32)->Some_0),
            Err(e) => Err(e),
        }
    }
}

/// The stored addresses after `key` has been given its address.
pub open spec fn map_after_assignment(addrs: Seq<Seq<char>>, map: Map<Seq<char>, u32>, key: Seq<char>) -> Map<Seq<char>, u32> {
    if !map.contains_key(key) && ipv4_pool(addrs) is Ok {
        map.insert(key, ipv4_assignment(addrs, map, key)->Ok_0)
    } else {
        map
    }
}

/// Whether a new address can be computed for `key` without overflow: the
/// store holds no more keys than fit in 32 bits, and the pool is a network
/// with a prefix of at least 1 that has room at the offset.
pub open spec fn can_assign_ipv4(addrs: Seq<Seq<char>>, map: Map<Seq<char>, u32>, key: Seq<char>) -> bool {
    !map.contains_key(key) ==> {
        &&& addrs.len() > 0 ==> map.len() <= u32::MAX
        &&& ipv4_pool(addrs) matches Ok(v) ==> 1 <= v.1 && map.len() + 2 < ipv4_block_size(v.1)
    }
}

/// The first IPv6 network among the trimmed addresses from index `k` on, as
/// its lowest address, or the error of the last one that did not parse.
pub open spec fn ipv6_network_choice(addrs: Seq<Seq<char>>, k: int, err: Seq<char>) -> Result<
    u128,
    Seq<char>,
>
    decreases addrs.len() - k,
{
    if k < 0 || k >= addrs.len() {
        Err(err)
    } else {
        match ipv6_network_from_str(trim_spec(addrs[k])) {
            Ok(v) => Ok(ipv6_network_base(v.0, v.1) as u128),
            Err(e) => ipv6_network_choice(addrs, k + 1, "ipv6 parse Error: "@ + e),
        }
    }
}

/// The server's IPv6 address: the lowest address of the first of its
/// addresses that is an IPv6 network.
pub open spec fn ipv6_address(addrs: Seq<Seq<char>>) -> Result<u128, Seq<char>> {
    ipv6_network_choice(addrs, 0, "Ip not found"@)
}

/// The IPv6 address as a registration reports it.
pub open spec fn ipv6_result(addrs: Seq<Seq<char>>) -> Option<u128> {
    match ipv6_address(addrs) {
        Ok(a) => Some(a),
        Err(_) => None,
    }
}

/// Whether a peer section can be loaded: it has a public key and an
/// `AllowedIPs` that is an IPv4 network.
pub open spec fn peer_is_usable(s: SectionView) -> bool {
    &&& section_get(s, "PublicKey"@) is Some
    &&& section_get(s, "AllowedIPs"@) matches Some(a) && ipv4_network_from_str(a) is Ok
}

/// Whether a server configuration can be loaded: its first `Interface`
/// section has a usable private key and an address list, and every peer can
/// be loaded.
pub open spec fn config_is_usable(doc: Seq<SectionView>) -> bool {
    &&& find_section(doc, "Interface"@) matches Some(i)
    &&& section_get(doc[i], "PrivateKey"@) matches Some(k) && is_private_key_text(k)
    &&& section_get(doc[i], "Address"@) is Some
    &&& forall|j: int| 0 <= j < doc.len() && is_peer(#[trigger] doc[j]) ==> peer_is_usable(doc[j])
}

/// The first `Interface` section of a usable configuration.
pub open spec fn interface_of(doc: Seq<SectionView>) -> SectionView {
    doc[find_section(doc, "Interface"@)->Some_0]
}

/// The addresses that the peers among the first `n` sections were given:
/// the address of each peer's `AllowedIPs`, a later peer with the same key
/// winning.
pub open spec fn peers_map(doc: Seq<SectionView>, n: int) -> Map<Seq<char>, u32>
    decreases n,
{
    if n <= 0 || n > doc.len() {
        Map::empty()
    } else if is_peer(doc[n - 1]) {
        peers_map(doc, n - 1).insert(
            section_get(doc[n - 1], "PublicKey"@)->Some_0,
            ipv4_network_from_str(section_get(doc[n - 1], "AllowedIPs"@)->Some_0)->Ok_0.0,
        )
    } else {
        peers_map(doc, n - 1)
    }
}

/// Whether `after` and `res` are what registering `key` makes of `before`:
/// the key's address is stored, the rest of the state is kept, and on
/// success the result reports the key's address, the server's IPv6 address
/// and public key, and the document has a peer section for the key; on
/// failure the document is unchanged.
pub open spec fn register_outcome(
    before: WireguardConfig,
    after: WireguardConfig,
    key: Seq<char>,
    res: Result<RegisterResult, String>,
) -> bool {
    &&& after.ipv4_map() == map_after_assignment(before.addresses(), before.ipv4_map(), key)
    &&& after.file_name() == before.file_name()
    &&& after.addresses() == before.addresses()
    &&& after.server_public_key() == before.server_public_key()
    &&& config_well_formed(before.document(), before.ipv4_map())
    &&& config_well_formed(after.document(), after.ipv4_map())
    &&& match res {
        Ok(r) => {
            &&& ipv4_assignment(before.addresses(), before.ipv4_map(), key) == Ok::<
                u32,
                Seq<char>,
            >(r.ipv4_addr)
            &&& r.ipv6_addr == ipv6_result(before.addresses())
            &&& r.public_key@ == before.server_public_key()
            &&& after.document() == document_after_register(before.document(), key, r.ipv4_addr)
        },
        Err(e) => {
            &&& ipv4_assignment(before.addresses(), before.ipv4_map(), key) == Err::<
                u32,
                Seq<char>,
            >(e@)
            &&& after.document() == before.document()
        },
    }
}

/// Registering a key a second time gives it the same IPv4 address and
/// changes neither the stored addresses nor the document: a registration is
/// remembered, and a key gets one peer section.
pub proof fn lemma_register_twice(
    addrs: Seq<Seq<char>>,
    map: Map<Seq<char>, u32>,
    doc: Seq<SectionView>,
    key: Seq<char>,
    ip: u32,
)
    requires
        ipv4_assignment(addrs, map, key) == Ok::<u32, Seq<char>>(ip),
    ensures
        ({
            let map1 = map_after_assignment(addrs, map, key);
            let doc1 = document_after_register(doc, key, ip);
            &&& map1.contains_key(key) && map1[key] == ip
            &&& ipv4_assignment(addrs, map1, key) == Ok::<u32, Seq<char>>(ip)
            &&& map_after_assignment(addrs, map1, key) == map1
            &&& document_after_register(doc1, key, ip) == doc1
        }),
{
    let doc1 = document_after_register(doc, key, ip);
    if !peer_registered(doc, key) {
        let added = new_peer_view(key, ip);
        assert(doc1[doc.len() as int] == added);
        assert(section_get(added, "PublicKey"@) == Some(key));
        assert(peer_registered(doc1, key));
    }
}

/// Walking two address lists whose entries agree once trimmed finds the
/// same IPv6 network, or the same error.
proof fn lemma_ipv6_choice_ignores_white_space(a: Seq<Seq<char>>, b: Seq<Seq<char>>, k: int, err: Seq<char>)
    requires
        a.len() == b.len(),
        forall|i: int| 0 <= i < a.len() ==> #[trigger] trim_spec(a[i]) == trim_spec(b[i]),
    ensures
        ipv6_network_choice(a, k, err) == ipv6_network_choice(b, k, err),
    decreases a.len() - k,
{
    if 0 <= k < a.len() {
        assert(trim_spec(a[k]) == trim_spec(b[k]));
        match ipv6_network_from_str(trim_spec(a[k])) {
            Ok(_) => {},
            Err(e) => {
                lemma_ipv6_choice_ignores_white_space(a, b, k + 1, "ipv6 parse Error: "@ + e);
            },
        }
    }
}

/// The server's IPv6 address does not depend on white space around its
/// comma-separated addresses: two lists whose entries agree once trimmed
/// report the same address, and a list reports what the list of its trimmed
/// entries reports.
pub proof fn lemma_ipv6_address_ignores_white_space(a: Seq<Seq<char>>, b: Seq<Seq<char>>)
    requires
        a.len() == b.len(),
        forall|i: int| 0 <= i < a.len() ==> #[trigger] trim_spec(a[i]) == trim_spec(b[i]),
    ensures
        ipv6_address(a) == ipv6_address(b),
        ipv6_result(a) == ipv6_result(b),
        ipv6_address(a) == ipv6_address(a.map_values(|x: Seq<char>| trim_spec(x))),
{
    lemma_ipv6_choice_ignores_white_space(a, b, 0, "Ip not found"@);
    let t = a.map_values(|x: Seq<char>| trim_spec(x));
    assert forall|i: int| 0 <= i < a.len() implies #[trigger] trim_spec(a[i]) == trim_spec(t[i]) by {
        lemma_trim_idempotent(a[i]);
    }
    lemma_ipv6_choice_ignores_white_space(a, t, 0, "Ip not found"@);
}

/// The address of a peer section's `AllowedIPs`.
pub open spec fn peer_address(s: SectionView) -> u32 {
    ipv4_network_from_str(section_get(s, "AllowedIPs"@)->Some_0)->Ok_0.0
}

/// The public key of a peer section.
pub open spec fn peer_key(s: SectionView) -> Seq<char> {
    section_get(s, "PublicKey"@)->Some_0
}

/// Whether no peer after section `i`, among the first `n`, names the same
/// public key.
pub open spec fn last_peer_for_key(doc: Seq<SectionView>, i: int, n: int) -> bool {
    forall|j: int|
        i < j < n && is_peer(#[trigger] doc[j]) ==> section_get(doc[j], "PublicKey"@) != section_get(
            doc[i],
            "PublicKey"@,
        )
}

/// Loading remembers every peer: among the first `n` sections, the address
/// stored for a peer's public key is that of its `AllowedIPs`, unless a
/// later peer names the same key.
pub proof fn lemma_peers_map_holds_peer(doc: Seq<SectionView>, n: int, i: int)
    requires
        peers_have_keys(doc),
        0 <= i < n <= doc.len(),
        is_peer(doc[i]),
        last_peer_for_key(doc, i, n),
    ensures
        peers_map(doc, n).contains_key(peer_key(doc[i])),
        peers_map(doc, n)[peer_key(doc[i])] == peer_address(doc[i]),
    decreases n,
{
    if n - 1 > i {
        lemma_peers_map_holds_peer(doc, n - 1, i);
        if is_peer(doc[n - 1]) {
            assert(section_get(doc[n - 1], "PublicKey"@) != section_get(doc[i], "PublicKey"@));
            assert(section_get(doc[n - 1], "PublicKey"@) is Some);
            assert(section_get(doc[i], "PublicKey"@) is Some);
        }
    }
}

/// Registering a key that already has an address gives it that address/// Registering a key that already has an address gives it that address
/// and changes neither the stored addresses nor the document. Every state
/// that loading and registering make keeps a peer section for each stored
/// key, so no second section is added.
pub proof fn lemma_register_stored_key(
    addrs: Seq<Seq<char>>,
    map: Map<Seq<char>, u32>,
    doc: Seq<SectionView>,
    key: Seq<char>,
)
    requires
        stored_keys_have_peers(doc, map),
        map.contains_key(key),
    ensures
        ipv4_assignment(addrs, map, key) == Ok::<u32, Seq<char>>(map[key]),
        map_after_assignment(addrs, map, key) == map,
        document_after_register(doc, key, map[key]) == doc,
{
    assert(peer_registered(doc, key));
}

/// Whether the stored addresses are pool addresses at offsets from 2 up to
/// the number of stored keys plus one, no two keys sharing one.
pub open spec fn holds_pool_offsets(map: Map<Seq<char>, u32>, net: u32, prefix: u8) -> bool {
    &&& map.dom().finite()
    &&& forall|k: Seq<char>|
        #[trigger] map.contains_key(k) ==> exists|j: u32|
            2 <= j < map.len() + 2 && ipv4_nth(net, prefix, j) == Some(map[k])
    &&& forall|k1: Seq<char>, k2: Seq<char>|
        #[trigger] map.contains_key(k1) && #[trigger] map.contains_key(k2) && k1 != k2 ==> map[k1]
            != map[k2]
}

/// No address is handed out twice: where the stored addresses are the pool
/// addresses at offsets 2 up to the number of stored keys plus one, each
/// held by one key, a new key gets an address that no stored key has, and
/// afterwards the same holds with one more offset.
pub proof fn lemma_new_address_is_fresh(
    addrs: Seq<Seq<char>>,
    map: Map<Seq<char>, u32>,
    key: Seq<char>,
    net: u32,
    prefix: u8,
)
    requires
        ipv4_pool(addrs) == Ok::<(u32, u8), Seq<char>>((net, prefix)),
        prefix <= 32,
        !map.contains_key(key),
        can_assign_ipv4(addrs, map, key),
        holds_pool_offsets(map, net, prefix),
    ensures
        ipv4_assignment(addrs, map, key) matches Ok(ip) && forall|k: Seq<char>|
            #[trigger] map.contains_key(k) ==> map[k] != ip,
        holds_pool_offsets(map_after_assignment(addrs, map, key), net, prefix),
{
    let n = map.len();
    lemma_pow2_strictly_increases((32 - prefix) as nat, 32);
    lemma2_to64();
    assert(n + 2 < 0x1_0000_0000);
    let fresh = (n + 2) as u32;
    assert(fresh == n + 2);
    let ip = ipv4_nth(net, prefix, fresh)->Some_0;
    assert(ipv4_assignment(addrs, map, key) == Ok::<u32, Seq<char>>(ip));
    assert forall|k: Seq<char>| #[trigger] map.contains_key(k) implies map[k] != ip by {
        let j = choose|j: u32| 2 <= j < map.len() + 2 && ipv4_nth(net, prefix, j) == Some(map[k]);
        lemma_ipv4_nth_distinct(net, prefix, j, fresh);
    }
    let map1 = map.insert(key, ip);
    assert(map_after_assignment(addrs, map, key) == map1);
    assert(map1.len() == n + 1);
    assert forall|k: Seq<char>| #[trigger] map1.contains_key(k) implies exists|j: u32|
        2 <= j < map1.len() + 2 && ipv4_nth(net, prefix, j) == Some(map1[k]) by {
        if k == key {
            assert(ipv4_nth(net, prefix, fresh) == Some(map1[k]));
        } else {
            assert(map.contains_key(k));
            let j = choose|j: u32| 2 <= j < map.len() + 2 && ipv4_nth(net, prefix, j) == Some(map[k]);
            assert(ipv4_nth(net, prefix, j) == Some(map1[k]));
        }
    }
    assert forall|k1: Seq<char>, k2: Seq<char>|
        #[trigger] map1.contains_key(k1) && #[trigger] map1.contains_key(k2) && k1 != k2 implies map1[k1]
            != map1[k2] by {
        if k1 != key && k2 != key {
            assert(map.contains_key(k1) && map.contains_key(k2));
        } else if k1 == key {
            assert(map.contains_key(k2));
        } else {
            assert(map.contains_key(k1));
        }
    }
}

impl WireguardConfig {
    /// Every configuration is well formed.
    #[verifier::type_invariant]
    closed spec fn well_formed(&self) -> bool {
        config_well_formed(document_view(self.ini), self.backend.ipv4_map())
    }

    /// The configuration's sections.
    pub closed spec fn document(&self) -> Seq<SectionView> {
        document_view(self.ini)
    }

    /// The name of the file the configuration is kept in.
    pub closed spec fn file_name(&self) -> Seq<char> {
        self.filename@
    }

    /// The server's addresses, as listed in its `Interface` section.
    pub closed spec fn addresses(&self) -> Seq<Seq<char>> {
        views(self.adresses@)
    }

    /// The server's public key.
    pub closed spec fn server_public_key(&self) -> Seq<char> {
        self.public_key@
    }

    /// The IPv4 address handed out to each public key.
    pub closed spec fn ipv4_map(&self) -> Map<Seq<char>, u32> {
        self.backend.ipv4_map()
    }

    /// The configuration's contents, to be written to its file.
    pub fn ini(&self) -> (res: &IniDocument)
        ensures
            document_view(*res) == self.document(),
            config_well_formed(self.document(), self.ipv4_map()),
    {
        proof {
            use_type_invariant(self);
        }
        &self.ini
    }

    /// The name of the file the configuration is kept in.
    pub fn filename(&self) -> (res: &str)
        ensures
            res@ == self.file_name(),
    {
        self.filename.as_str()
    }

    /// Loads a server configuration from the contents of its file: the
    /// addresses of its `Interface` section (split at commas), the public
    /// key that belongs to its private key, and the address of every peer.
    pub fn new(ini: IniDocument, ini_file: &str) -> (res: WireguardConfig)
        requires
            config_is_usable(document_view(ini)),
        ensures
            res.document() == document_view(ini),
            res.file_name() == ini_file@,
            res.addresses() == split_spec(
                section_get(interface_of(document_view(ini)), "Address"@)->Some_0,
                ',',
            ),
            res.server_public_key() == public_key_text(
                section_get(interface_of(document_view(ini)), "PrivateKey"@)->Some_0,
            ),
            res.ipv4_map() == peers_map(document_view(ini), document_view(ini).len() as int),
            config_well_formed(res.document(), res.ipv4_map()),
            forall|i: int|
                0 <= i < res.document().len() && is_peer(#[trigger] res.document()[i])
                    && last_peer_for_key(res.document(), i, res.document().len() as int)
                    ==> res.ipv4_map().contains_key(peer_key(res.document()[i]))
                    && res.ipv4_map()[peer_key(res.document()[i])] == peer_address(res.document()[i]),
    {
        let ghost doc = document_view(ini);
        proof {
            lemma_find_section_from(doc, "Interface"@, 0);
        }
        let i = match ini.find_section("Interface") {
            Some(i) => i,
            None => 0,
        };
        assert(section_view(ini.sections@[i as int]) == doc[i as int]);
        let private_key = match ini.sections[i].get("PrivateKey") {
            Some(k) => k,
            None => String::new(),
        };
        let address = match ini.sections[i].get("Address") {
            Some(a) => a,
            None => String::new(),
        };
        let mut backend = MemoryBackend::new();
        let n = ini.sections.len();
        let mut j: usize = 0;
        while j < n
            invariant
                n == ini.sections@.len(),
                doc == document_view(ini),
                config_is_usable(doc),
                j <= n,
                backend.ipv4_map() == peers_map(doc, j as int),
                backend.ipv4_map().dom().finite(),
            decreases n - j,
        {
            let section = &ini.sections[j];
            assert(section_view(*section) == doc[j as int]);
            if section.is_named("Peer") {
                assert(is_peer(doc[j as int]));
                let key = match section.get("PublicKey") {
                    Some(k) => k,
                    None => String::new(),
                };
                let allowed = match section.get("AllowedIPs") {
                    Some(a) => a,
                    None => String::new(),
                };
                match parse_ipv4_network(allowed.as_str()) {
                    Ok(net) => {
                        backend.store_ipv4(key, net.0);
                    },
                    Err(_) => {},
                }
            }
            j = j + 1;
        }
        let adresses = split_char(address.as_str(), ',');
        let public_key = get_public_key(private_key.as_str());
        assert(doc.len() == n);
        assert forall|k: int| 0 <= k < doc.len() && is_peer(#[trigger] doc[k]) implies section_get(
            doc[k],
            "PublicKey"@,
        ) is Some by {
            assert(peer_is_usable(doc[k]));
        }
        assert forall|k: Seq<char>| #[trigger] backend.ipv4_map().contains_key(k) implies peer_registered(
            doc,
            k,
        ) by {
            lemma_peers_map_keys(doc, n as int, k);
        }
        let res = WireguardConfig {
            ini,
            filename: ini_file.to_owned(),
            adresses,
            public_key,
            backend,
        };
        assert forall|k: int|
            0 <= k < doc.len() && is_peer(#[trigger] doc[k]) && last_peer_for_key(doc, k, doc.len() as int)
            implies res.ipv4_map().contains_key(peer_key(doc[k])) && res.ipv4_map()[peer_key(doc[k])]
            == peer_address(doc[k]) by {
            lemma_peers_map_holds_peer(doc, doc.len() as int, k);
        }
        res
    }

    /// Loads a server configuration as [`WireguardConfig::new`] does, or
    /// gives `None` where it cannot be loaded.
    pub fn try_new(ini: IniDocument, ini_file: &str) -> (res: Option<WireguardConfig>)
        ensures
            match res {
                Some(c) => config_is_usable(document_view(ini)) && c.document() == document_view(
                    ini,
                ) && c.file_name() == ini_file@ && c.addresses() == split_spec(
                    section_get(interface_of(document_view(ini)), "Address"@)->Some_0,
                    ',',
                ) && c.server_public_key() == public_key_text(
                    section_get(interface_of(document_view(ini)), "PrivateKey"@)->Some_0,
                ) && c.ipv4_map() == peers_map(document_view(ini), document_view(ini).len() as int)
                    && config_well_formed(c.document(), c.ipv4_map()) && forall|i: int|
                    0 <= i < c.document().len() && is_peer(#[trigger] c.document()[i])
                        && last_peer_for_key(c.document(), i, c.document().len() as int)
                        ==> c.ipv4_map().contains_key(peer_key(c.document()[i]))
                        && c.ipv4_map()[peer_key(c.document()[i])] == peer_address(c.document()[i]),
                None => !config_is_usable(document_view(ini)),
            },
    {
        let ghost doc = document_view(ini);
        proof {
            lemma_find_section_from(doc, "Interface"@, 0);
        }
        let i = match ini.find_section("Interface") {
            Some(i) => i,
            None => return None,
        };
        assert(section_view(ini.sections@[i as int]) == doc[i as int]);
        match ini.sections[i].get("PrivateKey") {
            Some(k) => {
                if try_get_public_key(k.as_str()).is_none() {
                    return None;
                }
            },
            None => return None,
        }
        if ini.sections[i].get("Address").is_none() {
            return None;
        }
        let n = ini.sections.len();
        let mut j: usize = 0;
        while j < n
            invariant
                n == ini.sections@.len(),
                doc == document_view(ini),
                j <= n,
                forall|k: int| 0 <= k < j && is_peer(#[trigger] doc[k]) ==> peer_is_usable(doc[k]),
            decreases n - j,
        {
            let section = &ini.sections[j];
            assert(section_view(*section) == doc[j as int]);
            if section.is_named("Peer") {
                if section.get("PublicKey").is_none() {
                    return None;
                }
                match section.get("AllowedIPs") {
                    Some(a) => {
                        if parse_ipv4_network(a.as_str()).is_err() {
                            return None;
                        }
                    },
                    None => return None,
                }
            }
            j = j + 1;
        }
        Some(WireguardConfig::new(ini, ini_file))
    }

    /// The IPv4 address of `key`: the one it was given before, or else the
    /// next one from the pool.
    fn get_ipv4(&self, key: &String) -> (res: Result<u32, String>)
        requires
            can_assign_ipv4(self.addresses(), self.ipv4_map(), key@),
        ensures
            match res {
                Ok(ip) => ipv4_assignment(self.addresses(), self.ipv4_map(), key@) == Ok::<u32, Seq<char>>(ip),
                Err(e) => ipv4_assignment(self.addresses(), self.ipv4_map(), key@) == Err::<u32, Seq<char>>(e@),
            },
    {
        if let Some(ip) = self.backend.retrieve_ipv4(key) {
            return Ok(ip);
        }
        let ghost addrs = self.addresses();
        let ghost map = self.ipv4_map();
        let mut err_result = String::from_str("Ip not found");
        let n = self.adresses.len();
        let mut i: usize = 0;
        while i < n
            invariant
                n == self.adresses@.len(),
                addrs == self.addresses(),
                map == self.ipv4_map(),
                !map.contains_key(key@),
                can_assign_ipv4(addrs, map, key@),
                i <= n,
                ipv4_pool(addrs) == ipv4_network_choice(addrs, i as int, err_result@),
            decreases n - i,
        {
            assert(addrs[i as int] == self.adresses@[i as int]@);
            let net_option = parse_ipv4_network(self.adresses[i].as_str());
            let ipv4_len = self.backend.get_ipv4_size();
            match net_option {
                Ok(net) => {
                    assert(ipv4_pool(addrs) == Ok::<(u32, u8), Seq<char>>(net));
                    proof {
                        if net.1 > 1 {
                            lemma_pow2_strictly_increases((32 - net.1) as nat, 31);
                        }
                        lemma2_to64();
                    }
                    match ipv4_network_nth(net.0, net.1, ipv4_len + 2) {
                        Some(next) => {
                            return Ok(next);
                        },
                        None => {
                            assert(false);
                        },
                    }
                },
                Err(e) => {
                    err_result = concat("ip parse Error: ", e.as_str());
                },
            }
            i = i + 1;
        }
        Err(err_result)
    }

    /// The server's IPv6 address: the lowest address of the first of its
    /// addresses that is an IPv6 network.
    fn get_ipv6(&self) -> (res: Result<u128, String>)
        ensures
            match res {
                Ok(a) => ipv6_address(self.addresses()) == Ok::<u128, Seq<char>>(a),
                Err(e) => ipv6_address(self.addresses()) == Err::<u128, Seq<char>>(e@),
            },
    {
        let ghost addrs = self.addresses();
        let mut err_result = String::from_str("Ip not found");
        let n = self.adresses.len();
        let mut i: usize = 0;
        while i < n
            invariant
                n == self.adresses@.len(),
                addrs == self.addresses(),
                i <= n,
                ipv6_address(addrs) == ipv6_network_choice(addrs, i as int, err_result@),
            decreases n - i,
        {
            let trimmed = trim(self.adresses[i].as_str());
            match parse_ipv6_network(trimmed.as_str()) {
                Ok(net) => {
                    match ipv6_network_first(net.0, net.1) {
                        Some(first) => return Ok(first),
                        None => {
                            assert(false);
                        },
                    }
                },
                Err(e) => {
                    err_result = concat("ipv6 parse Error: ", e.as_str());
                },
            }
            i = i + 1;
        }
        Err(err_result)
    }

    /// Whether a peer with public key `key` is in the configuration.
    fn is_registered(&self, key: &str) -> (res: bool)
        ensures
            res == peer_registered(self.document(), key@),
    {
        proof {
            use_type_invariant(self);
        }
        let ghost doc = self.document();
        let n = self.ini.sections.len();
        let mut is_included = false;
        let mut j: usize = 0;
        while j < n
            invariant
                n == self.ini.sections@.len(),
                doc == self.document(),
                peers_have_keys(doc),
                j <= n,
                is_included == exists|k: int|
                    0 <= k < j && is_peer(#[trigger] doc[k]) && section_get(doc[k], "PublicKey"@)
                        == Some(key@),
            decreases n - j,
        {
            let section = &self.ini.sections[j];
            assert(section_view(*section) == doc[j as int]);
            if section.is_named("Peer") {
                match section.get("PublicKey") {
                    Some(k) => {
                        if str_equal(k.as_str(), key) {
                            is_included = true;
                        }
                    },
                    None => {
                        assert(false);
                    },
                }
            }
            j = j + 1;
        }
        is_included
    }

    /// Registers the peer with public key `key`: gives it its IPv4 address
    /// (the one it had, or a new one from the pool), reports the server's
    /// IPv6 address and public key, and adds a peer section for it where
    /// there is none. Fails, changing nothing, where no address can be
    /// given.
    pub fn register(&mut self, key: String) -> (res: Result<RegisterResult, String>)
        requires
            can_assign_ipv4(old(self).addresses(), old(self).ipv4_map(), key@),
        ensures
            register_outcome(*old(self), *final(self), key@, res),
            old(self).ipv4_map().contains_key(key@) ==> {
                &&& res matches Ok(r) && r.ipv4_addr == old(self).ipv4_map()[key@]
                &&& final(self).ipv4_map() == old(self).ipv4_map()
                &&& final(self).document() == old(self).document()
            },
    {
        proof {
            use_type_invariant(&*self);
        }
        let ghost doc = self.document();
        let ghost map = self.ipv4_map();
        let ipv4_addr = match self.get_ipv4(&key) {
            Ok(ip) => ip,
            Err(e) => return Err(e),
        };
        let is_new = self.backend.retrieve_ipv4(&key).is_none();
        let ipv6_addr = match self.get_ipv6() {
            Ok(a) => Some(a),
            Err(_) => None,
        };
        let result = RegisterResult {
            ipv4_addr,
            ipv6_addr,
            public_key: self.public_key.clone(),
        };
        // The store is taken out while the document grows, and put back once
        // the key has its peer section.
        let mut backend = MemoryBackend::new();
        std::mem::swap(&mut backend, &mut self.backend);
        if !self.is_registered(key.as_str()) {
            let allowed = match ipv4_network_to_string(ipv4_addr, 32) {
                Ok(text) => text,
                Err(_) => {
                    assert(false);
                    String::new()
                },
            };
            let section = IniSection {
                name: Some("Peer".to_owned()),
                properties: vec![("PublicKey".to_owned(), key.clone()), ("AllowedIPs".to_owned(), allowed)],
            };
            let ghost added = section_view(section);
            assert(added.1 =~= new_peer_view(key@, ipv4_addr).1);
            assert(section_get(new_peer_view(key@, ipv4_addr), "PublicKey"@) is Some);
            let mut sections: Vec<IniSection> = Vec::new();
            std::mem::swap(&mut sections, &mut self.ini.sections);
            sections.push(section);
            assert(sections@.map_values(|s: IniSection| section_view(s)) =~= doc.push(
                new_peer_view(key@, ipv4_addr),
            ));
            self.ini.sections = sections;
            let ghost doc1 = doc.push(new_peer_view(key@, ipv4_addr));
            assert(doc1[doc.len() as int] == new_peer_view(key@, ipv4_addr));
            assert(peer_registered(doc1, key@));
            assert forall|k: Seq<char>| #[trigger] map.contains_key(k) implies peer_registered(doc1, k) by {
                lemma_registered_after_push(doc, new_peer_view(key@, ipv4_addr), k);
            }
        }
        assert(peer_registered(self.document(), key@));
        if is_new {
            backend.store_ipv4(key, ipv4_addr);
        }
        assert(backend.ipv4_map() == map_after_assignment(old(self).addresses(), map, key@));
        self.backend = backend;
        Ok(result)
    }

    /// The pool network, if one of the server's addresses is an IPv4 network.
    fn pool(&self) -> (res: Option<(u32, u8)>)
        ensures
            match res {
                Some(v) => ipv4_pool(self.addresses()) == Ok::<(u32, u8), Seq<char>>(v) && v.1 <= 32,
                None => ipv4_pool(self.addresses()) is Err,
            },
    {
        let ghost addrs = self.addresses();
        let ghost mut err: Seq<char> = "Ip not found"@;
        let n = self.adresses.len();
        let mut i: usize = 0;
        while i < n
            invariant
                n == self.adresses@.len(),
                addrs == self.addresses(),
                i <= n,
                ipv4_pool(addrs) == ipv4_network_choice(addrs, i as int, err),
            decreases n - i,
        {
            assert(addrs[i as int] == self.adresses@[i as int]@);
            match parse_ipv4_network(self.adresses[i].as_str()) {
                Ok(net) => return Some(net),
                Err(e) => {
                    proof {
                        err = "ip parse Error: "@ + e@;
                    }
                },
            }
            i = i + 1;
        }
        None
    }

    /// Whether a new address can be computed for `key` without overflow.
    pub fn can_register(&self, key: &String) -> (res: bool)
        ensures
            res == can_assign_ipv4(self.addresses(), self.ipv4_map(), key@),
            config_well_formed(self.document(), self.ipv4_map()),
    {
        proof {
            use_type_invariant(self);
        }
        if self.backend.retrieve_ipv4(key).is_some() {
            return true;
        }
        let count = self.backend.ipv4_count();
        if self.adresses.len() > 0 && count > u32::MAX as usize {
            return false;
        }
        match self.pool() {
            Some(net) => {
                if net.1 < 1 {
                    return false;
                }
                let mut size: u64 = 1;
                let mut k: u8 = 0;
                proof {
                    lemma2_to64();
                }
                while k < 32 - net.1
                    invariant
                        1 <= net.1 <= 32,
                        k <= 32 - net.1,
                        size == pow2(k as nat),
                        pow2(32) == 0x1_0000_0000,
                    decreases 32 - net.1 - k,
                {
                    proof {
                        lemma_pow2_unfold((k + 1) as nat);
                        lemma_pow2_strictly_increases((k + 1) as nat, 32);
                    }
                    size = size * 2;
                    k = k + 1;
                }
                (count as u64) + 2 < size
            },
            None => true,
        }
    }

    /// Registers `key` as [`WireguardConfig::register`] does, or gives
    /// `None`, changing nothing, where no address can be computed for it
    /// without overflow.
    pub fn try_register(&mut self, key: String) -> (res: Option<Result<RegisterResult, String>>)
        ensures
            match res {
                Some(r) => can_assign_ipv4(old(self).addresses(), old(self).ipv4_map(), key@)
                    && register_outcome(*old(self), *final(self), key@, r),
                None => !can_assign_ipv4(old(self).addresses(), old(self).ipv4_map(), key@)
                    && *final(self) == *old(self),
            },
            config_well_formed(old(self).document(), old(self).ipv4_map()),
            old(self).ipv4_map().contains_key(key@) ==> {
                &&& res matches Some(Ok(r)) && r.ipv4_addr == old(self).ipv4_map()[key@]
                &&& final(self).ipv4_map() == old(self).ipv4_map()
                &&& final(self).document() == old(self).document()
            },
    {
        if self.can_register(&key) {
            Some(self.register(key))
        } else {
            None
        }
    }
}

} // verus!
