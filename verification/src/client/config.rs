//! The `wg-quick` configuration file that a registered client writes.
use vstd::prelude::*;

use crate::crypto::{
    base64_standard_decoding, generate_key_pair, get_public_key, is_private_key_text, public_key_text,
    try_get_public_key,
};
use crate::inifile::{
    document_view, find_section, pairs_view, props_get_from, section_get, section_view, IniDocument, IniSection,
};
use crate::ipnet::{
    ipv4_addr_from_str, ipv4_network_text, ipv4_network_to_string, parse_ipv4_addr,
};
use crate::text::{concat, int_error_text, parse_u8, parse_u8_spec, IntParseError};

verus! {

/// What `url::Url::parse` gives for `s`: the text of the URL's host (the
/// `Display` of `Url::host`), `None` where the URL has no host, or the text
/// of the error.
pub uninterp spec fn url_host_from_str(s: Seq<char>) -> Result<Option<Seq<char>>, Seq<char>>;

/// Calls `url::Url::parse` and writes the host with its `Display`. Claimed:
/// the result is the named one.
#[verifier::external_body]
pub(crate) fn parse_url_host(s: &str) -> (res: Result<Option<String>, String>)
    ensures
        match res {
            Ok(Some(h)) => url_host_from_str(s@) == Ok::<Option<Seq<char>>, Seq<char>>(Some(h@)),
            Ok(None) => url_host_from_str(s@) == Ok::<Option<Seq<char>>, Seq<char>>(None),
            Err(e) => url_host_from_str(s@) == Err::<Option<Seq<char>>, Seq<char>>(e@),
        },
{
    match url::Url::parse(s) {
        Ok(u) => Ok(
            match u.host() {
                Some(h) => Some(h.to_string()),
                None => None,
            },
        ),
        Err(e) => Err(e.to_string()),
    }
}

/// Calls `std::path::Path::exists`. Nothing is claimed of the result: it
/// depends on the file system.
#[verifier::external_body]
fn path_exists(path: &str) -> bool {
    std::path::Path::new(path).exists()
}

/// Why a configuration file cannot be built.
pub enum ConfigError {
    /// No file name was given.
    ConfigFileNotSet,
    /// The address is not an IPv4 address.
    InvalidAddress,
    /// The netmask is not a byte.
    InvalidNetmask(IntParseError),
    /// The netmask is too long for an IPv4 network; the text of the error.
    InvalidNetwork(String),
    /// The peer's endpoint is not a URL; the text of the error.
    InvalidEndpoint(String),
}

impl ConfigError {
    /// The message of the error.
    pub fn message(&self) -> (res: String)
        ensures
            res@ == match self {
                ConfigError::ConfigFileNotSet => "config file not set"@,
                ConfigError::InvalidAddress => "invalid IPv4 address syntax"@,
                ConfigError::InvalidNetmask(k) => int_error_text(*k),
                ConfigError::InvalidNetwork(e) => e@,
                ConfigError::InvalidEndpoint(e) => e@,
            },
    {
        match self {
            ConfigError::ConfigFileNotSet => "config file not set".to_owned(),
            ConfigError::InvalidAddress => "invalid IPv4 address syntax".to_owned(),
            ConfigError::InvalidNetmask(k) => k.message(),
            ConfigError::InvalidNetwork(e) => e.as_str().to_owned(),
            ConfigError::InvalidEndpoint(e) => e.as_str().to_owned(),
        }
    }
}

/// A configuration file to write: its name and its contents.
pub struct ConfigFile {
    pub file_name: String,
    pub document: IniDocument,
}

/// The contents of a client's configuration file: its own address and
/// private key, and the peer's endpoint (host and WireGuard port), public key
/// and allowed network.
pub open spec fn client_config_view(
    address: Seq<char>,
    private_key: Seq<char>,
    host: Seq<char>,
    wg_port: Seq<char>,
    peer_public_key: Seq<char>,
    network: Seq<char>,
) -> Seq<(Option<Seq<char>>, Seq<(Seq<char>, Seq<char>)>)> {
    seq![
        (Some("Interface"@), seq![("Address"@, address), ("PrivateKey"@, private_key)]),
        (
            Some("Peer"@),
            seq![
                ("Endpoint"@, host + seq![':'] + wg_port),
                ("PublicKey"@, peer_public_key),
                ("AllowedIps"@, network),
            ],
        ),
    ]
}

/// The private key that a client writes to its configuration file is the
/// one it reads back from it: the file's first `Interface` section holds it
/// as its first `PrivateKey`.
pub proof fn lemma_config_keeps_private_key(
    address: Seq<char>,
    private_key: Seq<char>,
    host: Seq<char>,
    wg_port: Seq<char>,
    peer_public_key: Seq<char>,
    network: Seq<char>,
)
    ensures
        ({
            let doc = client_config_view(address, private_key, host, wg_port, peer_public_key, network);
            &&& find_section(doc, "Interface"@) == Some(0int)
            &&& section_get(doc[0], "PrivateKey"@) == Some(private_key)
        }),
{
    let doc = client_config_view(address, private_key, host, wg_port, peer_public_key, network);
    reveal_strlit("Address");
    reveal_strlit("PrivateKey");
    assert("Address"@.len() != "PrivateKey"@.len());
    assert("Address"@ != "PrivateKey"@);
    assert(props_get_from(doc[0].1, "PrivateKey"@, 1) == Some(private_key));
}

/// Whether building a configuration file gets as far as the peer's host:
/// every earlier check passes and the endpoint is a URL.
pub open spec fn reaches_host(
    address: Seq<char>,
    netmask: Seq<char>,
    peer_endpoint: Seq<char>,
    config_file: Option<Seq<char>>,
) -> bool {
    &&& config_file is Some
    &&& ipv4_addr_from_str(address) is Some
    &&& parse_u8_spec(netmask) matches Ok(m) && m <= 32
    &&& url_host_from_str(peer_endpoint) is Ok
}

/// Whether an outcome of building a configuration file is the one owed for
/// the given inputs, where the endpoint has a host if it gets that far.
pub open spec fn build_config_outcome(
    address: Seq<char>,
    private_key: Seq<char>,
    peer_endpoint: Seq<char>,
    peer_public_key: Seq<char>,
    wg_port: Seq<char>,
    netmask: Seq<char>,
    config_file: Option<Seq<char>>,
    res: Result<ConfigFile, ConfigError>,
) -> bool {
    if config_file is None {
        res matches Err(ConfigError::ConfigFileNotSet)
    } else if ipv4_addr_from_str(address) is None {
        res matches Err(ConfigError::InvalidAddress)
    } else if parse_u8_spec(netmask) is Err {
        res matches Err(ConfigError::InvalidNetmask(k)) && parse_u8_spec(netmask) == Err::<
            u8,
            IntParseError,
        >(k)
    } else if parse_u8_spec(netmask)->Ok_0 > 32 {
        res matches Err(ConfigError::InvalidNetwork(e)) && e@ == "invalid prefix"@
    } else if url_host_from_str(peer_endpoint) is Err {
        res matches Err(ConfigError::InvalidEndpoint(e)) && url_host_from_str(peer_endpoint)
            == Err::<Option<Seq<char>>, Seq<char>>(e@)
    } else {
        res matches Ok(f) && f.file_name@ == config_file->Some_0 && document_view(f.document)
            == client_config_view(
            address,
            private_key,
            url_host_from_str(peer_endpoint)->Ok_0->Some_0,
            wg_port,
            peer_public_key,
            ipv4_network_text(
                ipv4_addr_from_str(address)->Some_0,
                parse_u8_spec(netmask)->Ok_0,
            ),
        )
    }
}

/// The view of an optional text.
pub open spec fn opt_view(s: Option<&str>) -> Option<Seq<char>> {
    match s {
        Some(t) => Some(t@),
        None => None,
    }
}

fn text_pair(key: &str, value: &str) -> (res: (String, String))
    ensures
        res.0@ == key@,
        res.1@ == value@,
{
    (key.to_owned(), value.to_owned())
}

/// The configuration file for `wg-quick` that a client writes once it is
/// registered: which file, and what it holds. Fails where the file name is
/// missing, the address is not IPv4, the netmask is not a byte of at most 32
/// or the endpoint is not a URL.
pub fn build_config_file(
    address: &str,
    private_key: &str,
    peer_endpoint: &str,
    peer_public_key: &str,
    wg_port: &str,
    netmask: &str,
    config_file: Option<&str>,
) -> (res: Result<ConfigFile, ConfigError>)
    requires
        reaches_host(address@, netmask@, peer_endpoint@, opt_view(config_file))
            ==> url_host_from_str(peer_endpoint@)->Ok_0 is Some,
    ensures
        build_config_outcome(
            address@,
            private_key@,
            peer_endpoint@,
            peer_public_key@,
            wg_port@,
            netmask@,
            opt_view(config_file),
            res,
        ),
{
    let config_file_name = match config_file {
        Some(name) => name,
        None => return Err(ConfigError::ConfigFileNotSet),
    };
    let ipv4_addr = match parse_ipv4_addr(address) {
        Some(a) => a,
        None => return Err(ConfigError::InvalidAddress),
    };
    let netmask_int = match parse_u8(netmask) {
        Ok(m) => m,
        Err(k) => return Err(ConfigError::InvalidNetmask(k)),
    };
    let network = match ipv4_network_to_string(ipv4_addr, netmask_int) {
        Ok(text) => text,
        Err(e) => return Err(ConfigError::InvalidNetwork(e)),
    };
    let peer_host = match parse_url_host(peer_endpoint) {
        Ok(Some(h)) => h,
        Ok(None) => {
            assert(false);
            String::new()
        },
        Err(e) => return Err(ConfigError::InvalidEndpoint(e)),
    };
    let document = client_config_document(
        address,
        private_key,
        peer_host.as_str(),
        wg_port,
        peer_public_key,
        network.as_str(),
    );
    Ok(ConfigFile { file_name: config_file_name.to_owned(), document })
}

/// The contents of a client's configuration file, from the parsed values:
/// its own address and private key, and the peer's host, WireGuard port,
/// public key and allowed network (as CIDR text).
pub fn client_config_document(
    address: &str,
    private_key: &str,
    peer_host: &str,
    wg_port: &str,
    peer_public_key: &str,
    network: &str,
) -> (res: IniDocument)
    ensures
        document_view(res) == client_config_view(
            address@,
            private_key@,
            peer_host@,
            wg_port@,
            peer_public_key@,
            network@,
        ),
{
    let mut endpoint = concat(peer_host, ":");
    endpoint.append(wg_port);
    proof {
        reveal_strlit(":");
    }
    assert(endpoint@ =~= peer_host@ + seq![':'] + wg_port@);
    let interface = IniSection {
        name: Some("Interface".to_owned()),
        properties: vec![text_pair("Address", address), text_pair("PrivateKey", private_key)],
    };
    let peer = IniSection {
        name: Some("Peer".to_owned()),
        properties: vec![
            text_pair("Endpoint", endpoint.as_str()),
            text_pair("PublicKey", peer_public_key),
            text_pair("AllowedIps", network),
        ],
    };
    let ghost want = client_config_view(
        address@,
        private_key@,
        peer_host@,
        wg_port@,
        peer_public_key@,
        network@,
    );
    assert(pairs_view(interface.properties@) =~= want[0].1);
    assert(section_view(interface) == want[0]);
    assert(pairs_view(peer.properties@) =~= want[1].1);
    assert(section_view(peer) == want[1]);
    let document = IniDocument { sections: vec![interface, peer] };
    assert(document_view(document) =~= want);
    document
}

/// Builds the configuration file as [`build_config_file`] does, or gives
/// `None` where the endpoint is a URL without a host.
pub fn try_build_config_file(
    address: &str,
    private_key: &str,
    peer_endpoint: &str,
    peer_public_key: &str,
    wg_port: &str,
    netmask: &str,
    config_file: Option<&str>,
) -> (res: Option<Result<ConfigFile, ConfigError>>)
    ensures
        match res {
            Some(r) => build_config_outcome(
                address@,
                private_key@,
                peer_endpoint@,
                peer_public_key@,
                wg_port@,
                netmask@,
                opt_view(config_file),
                r,
            ),
            None => reaches_host(address@, netmask@, peer_endpoint@, opt_view(config_file))
                && url_host_from_str(peer_endpoint@)->Ok_0 is None,
        },
{
    let host = parse_url_host(peer_endpoint);
    if let Ok(None) = host {
        let reached = config_file.is_some() && parse_ipv4_addr(address).is_some() && match parse_u8(
            netmask,
        ) {
            Ok(m) => m <= 32,
            Err(_) => false,
        };
        if reached {
            return None;
        }
    }
    Some(
        build_config_file(
            address,
            private_key,
            peer_endpoint,
            peer_public_key,
            wg_port,
            netmask,
            config_file,
        ),
    )
}

/// Whether a configuration file is named and (as far as the file system
/// says) exists; never where no file is named.
pub fn config_file_exists(config_file: Option<&str>) -> (res: bool)
    ensures
        config_file is None ==> !res,
{
    match config_file {
        Some(path) => path_exists(path),
        None => false,
    }
}

/// Whether a configuration holds a private key that keys can be read from:
/// its first `Interface` section has a `PrivateKey` that is valid base64 of
/// at most 32 bytes.
pub open spec fn has_private_key(doc: IniDocument) -> bool {
    &&& find_section(document_view(doc), "Interface"@) matches Some(i)
    &&& section_get(document_view(doc)[i], "PrivateKey"@) matches Some(k)
    &&& is_private_key_text(k)
}

/// The private key of a configuration: the `PrivateKey` of its first
/// `Interface` section.
pub open spec fn private_key_of(doc: IniDocument) -> Seq<char> {
    section_get(
        document_view(doc)[find_section(document_view(doc), "Interface"@)->Some_0],
        "PrivateKey"@,
    )->Some_0
}

/// The key pair kept in a client's configuration: its private key and the
/// public key that belongs to it.
pub fn keys_from_config(doc: &IniDocument) -> (res: (String, String))
    requires
        has_private_key(*doc),
    ensures
        res.0@ == private_key_of(*doc),
        res.1@ == public_key_text(private_key_of(*doc)),
{
    let i = match doc.find_section("Interface") {
        Some(i) => i,
        None => 0,
    };
    proof {
        crate::inifile::lemma_find_section_from(document_view(*doc), "Interface"@, 0);
    }
    let private_key = match doc.sections[i].get("PrivateKey") {
        Some(k) => k,
        None => String::new(),
    };
    let public_key = get_public_key(private_key.as_str());
    (private_key, public_key)
}

/// The key pair kept in a client's configuration, or `None` where it holds
/// no usable private key.
pub fn try_keys_from_config(doc: &IniDocument) -> (res: Option<(String, String)>)
    ensures
        match res {
            Some(r) => has_private_key(*doc) && r.0@ == private_key_of(*doc) && r.1@
                == public_key_text(private_key_of(*doc)),
            None => !has_private_key(*doc),
        },
{
    let i = match doc.find_section("Interface") {
        Some(i) => i,
        None => return None,
    };
    proof {
        crate::inifile::lemma_find_section_from(document_view(*doc), "Interface"@, 0);
    }
    let private_key = match doc.sections[i].get("PrivateKey") {
        Some(k) => k,
        None => return None,
    };
    match try_get_public_key(private_key.as_str()) {
        Some(_) => Some(keys_from_config(doc)),
        None => None,
    }
}

/// The key pair a client registers with: the one kept in its existing
/// configuration, or a fresh one where it has none. `None` where the
/// existing configuration holds no usable private key.
pub fn client_key_pair(existing: Option<&IniDocument>) -> (res: Option<(String, String)>)
    ensures
        match existing {
            Some(doc) => match res {
                Some(r) => has_private_key(*doc) && r.0@ == private_key_of(*doc) && r.1@
                    == public_key_text(private_key_of(*doc)),
                None => !has_private_key(*doc),
            },
            None => {
                &&& res matches Some(r)
                &&& is_private_key_text(r.0@)
                &&& public_key_text(r.0@) == r.1@
                &&& base64_standard_decoding(r.0@)->Some_0.len() == 32
            },
        },
{
    match existing {
        Some(doc) => try_keys_from_config(doc),
        None => Some(generate_key_pair()),
    }
}

} // verus!
