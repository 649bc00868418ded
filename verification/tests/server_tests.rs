use base64::Engine;
use wg_conf::crypto::get_public_key;
use wg_conf::inifile::{IniDocument, IniSection};
use wg_conf::server::auth::AuthServiceImpl;
use wg_conf::server::backend::memory::MemoryBackend;
use wg_conf::server::backend::StorageBackend;
use wg_conf::server::config::WireguardConfig;
use wg_conf::server::auth::admit_request;
use wg_conf::server::{tls_settings_refused, RegistrationFailure, WgRegistration};
use wg_conf::common::{AuthType, AuthTypeParseError};

fn section(name: Option<&str>, props: &[(&str, &str)]) -> IniSection {
    IniSection {
        name: name.map(|n| n.to_string()),
        properties: props.iter().map(|(k, v)| (k.to_string(), v.to_string())).collect(),
    }
}

fn private_key() -> String {
    base64::engine::general_purpose::STANDARD.encode([5u8; 32])
}

fn ipv4(a: u8, b: u8, c: u8, d: u8) -> u32 {
    u32::from_be_bytes([a, b, c, d])
}

fn server_doc(address: &str, peers: &[(&str, &str)]) -> IniDocument {
    let key = private_key();
    let mut sections = vec![
        section(None, &[]),
        section(Some("Interface"), &[("Address", address), ("PrivateKey", key.as_str()), ("ListenPort", "51820")]),
    ];
    for (k, ip) in peers {
        sections.push(section(Some("Peer"), &[("PublicKey", k), ("AllowedIPs", ip)]));
    }
    IniDocument { sections }
}

fn peer_sections(config: &WireguardConfig) -> Vec<Vec<(String, String)>> {
    config
        .ini()
        .sections
        .iter()
        .filter(|s| s.name.as_deref() == Some("Peer"))
        .map(|s| s.properties.clone())
        .collect()
}

#[test]
fn memory_backend_gives_back_what_was_stored() {
    let mut backend = MemoryBackend::new();
    assert_eq!(backend.get_ipv4_size(), 0);
    assert_eq!(backend.retrieve_ipv4(&"a".to_string()), None);
    backend.store_ipv4("a".to_string(), 7);
    backend.store_ipv4("b".to_string(), 8);
    backend.store_ipv4("a".to_string(), 9);
    assert_eq!(backend.retrieve_ipv4(&"a".to_string()), Some(9));
    assert_eq!(backend.retrieve_ipv4(&"b".to_string()), Some(8));
    assert_eq!(backend.get_ipv4_size(), 2);
    assert_eq!(backend.ipv4_count(), 2);
}

#[test]
fn config_loads_interface_and_peers() {
    let doc = server_doc("10.0.0.1/24,fd00::1/64", &[("peer1", "10.0.0.7/32")]);
    let config = WireguardConfig::try_new(doc, "wg0.conf").unwrap();
    assert_eq!(config.filename(), "wg0.conf");
    assert_eq!(config.ini().sections.len(), 3);
}

#[test]
fn unusable_configs_are_refused() {
    assert!(WireguardConfig::try_new(IniDocument { sections: vec![] }, "f").is_none());
    let no_address = IniDocument {
        sections: vec![section(Some("Interface"), &[("PrivateKey", private_key().as_str())])],
    };
    assert!(WireguardConfig::try_new(no_address, "f").is_none());
    let bad_peer = server_doc("10.0.0.1/24", &[("peer1", "nonsense")]);
    assert!(WireguardConfig::try_new(bad_peer, "f").is_none());
    let bad_key = IniDocument {
        sections: vec![section(Some("Interface"), &[("Address", "10.0.0.1/24"), ("PrivateKey", "%%%")])],
    };
    assert!(WireguardConfig::try_new(bad_key, "f").is_none());
}

#[test]
fn registration_hands_out_addresses_from_the_pool() {
    let doc = server_doc("10.0.0.1/24,fd00::1/64", &[]);
    let mut config = WireguardConfig::try_new(doc, "wg0.conf").unwrap();
    let r = config.try_register("key1".to_string()).unwrap().unwrap();
    assert_eq!(r.ipv4_addr, ipv4(10, 0, 0, 2));
    assert_eq!(r.ipv6_addr, Some(0xfd00u128 << 112));
    assert_eq!(r.public_key, get_public_key(&private_key()));
    let r2 = config.try_register("key2".to_string()).unwrap().unwrap();
    assert_eq!(r2.ipv4_addr, ipv4(10, 0, 0, 3));
    assert_eq!(
        peer_sections(&config),
        vec![
            vec![("PublicKey".to_string(), "key1".to_string()), ("AllowedIPs".to_string(), "10.0.0.2/32".to_string())],
            vec![("PublicKey".to_string(), "key2".to_string()), ("AllowedIPs".to_string(), "10.0.0.3/32".to_string())],
        ]
    );
}

#[test]
fn registering_twice_changes_nothing() {
    let doc = server_doc("10.0.0.1/24", &[]);
    let mut config = WireguardConfig::try_new(doc, "wg0.conf").unwrap();
    let first = config.try_register("key1".to_string()).unwrap().unwrap();
    let sections_after_first = config.ini().sections.len();
    let second = config.try_register("key1".to_string()).unwrap().unwrap();
    assert_eq!(first.ipv4_addr, second.ipv4_addr);
    assert_eq!(second.ipv6_addr, None);
    assert_eq!(config.ini().sections.len(), sections_after_first);
}

#[test]
fn loaded_peers_keep_their_addresses() {
    let doc = server_doc("192.168.7.9/16", &[("old", "192.168.0.50/32")]);
    let mut config = WireguardConfig::try_new(doc, "wg0.conf").unwrap();
    let again = config.try_register("old".to_string()).unwrap().unwrap();
    assert_eq!(again.ipv4_addr, ipv4(192, 168, 0, 50));
    assert_eq!(peer_sections(&config).len(), 1);
    let fresh = config.try_register("new".to_string()).unwrap().unwrap();
    assert_eq!(fresh.ipv4_addr, ipv4(192, 168, 0, 3));
}

#[test]
fn unusable_pools_are_reported() {
    let doc = server_doc("garbage", &[]);
    let mut config = WireguardConfig::try_new(doc, "wg0.conf").unwrap();
    match config.try_register("k".to_string()) {
        Some(Err(e)) => assert_eq!(e, "ip parse Error: invalid address: garbage"),
        _ => panic!("expected an error"),
    }
    assert_eq!(config.ini().sections.len(), 2);
    let full = server_doc("10.0.0.1/32", &[]);
    let mut config = WireguardConfig::try_new(full, "wg0.conf").unwrap();
    assert!(config.try_register("k".to_string()).is_none());
    let everything = server_doc("10.0.0.1/0", &[]);
    let mut config = WireguardConfig::try_new(everything, "wg0.conf").unwrap();
    assert!(config.try_register("k".to_string()).is_none());
}

#[test]
fn authorization_header_is_read() {
    let service = AuthServiceImpl::new("/bin/check".to_string());
    let (t, c) = service.read_authorization("bearer   s3cret ").unwrap();
    assert_eq!(t, AuthType::Bearer);
    assert_eq!(c, "s3cret");
    match service.read_authorization("Digest abc") {
        Err(e) => assert_eq!(e, AuthTypeParseError::VariantNotFound),
        Ok(_) => panic!("expected an unknown scheme"),
    }
    assert_eq!(
        service.verify_command(AuthType::Basic, "/tmp/cred"),
        "/bin/check 'Basic' '/tmp/cred'"
    );
}

#[test]
fn tls_needs_both_certificate_and_key() {
    assert!(!tls_settings_refused(None, None));
    assert!(!tls_settings_refused(Some("c"), Some("k")));
    assert!(!tls_settings_refused(Some("c"), None));
    assert!(tls_settings_refused(None, Some("k")));
}

#[test]
fn registration_service_keeps_its_hooks() {
    let config = WireguardConfig::try_new(server_doc("10.0.0.1/24", &[]), "wg0.conf").unwrap();
    let mut service = WgRegistration::new("51820", config, Some("pre.sh"), None);
    assert_eq!(service.wg_port(), "51820");
    assert_eq!(service.hooks().pre_register, "pre.sh");
    assert_eq!(service.hooks().post_register, "");
    let r = service.try_register("k".to_string()).unwrap().unwrap();
    assert_eq!(r.ipv4_addr, ipv4(10, 0, 0, 2));
}

#[test]
fn ipv4_reply_text_is_dotted_decimal() {
    assert_eq!(wg_conf::ipnet::ipv4_addr_text(ipv4(10, 0, 0, 2)), "10.0.0.2");
    assert_eq!(wg_conf::ipnet::ipv4_addr_text(ipv4(192, 168, 100, 255)), "192.168.100.255");
    assert_eq!(wg_conf::ipnet::ipv4_addr_text(0), "0.0.0.0");
}

#[test]
fn no_address_is_handed_out_twice() {
    let doc = server_doc("10.1.0.1/24", &[]);
    let mut config = WireguardConfig::try_new(doc, "wg0.conf").unwrap();
    let mut seen = Vec::new();
    for i in 0..20 {
        let r = config.try_register(format!("key{}", i)).unwrap().unwrap();
        assert!(!seen.contains(&r.ipv4_addr));
        seen.push(r.ipv4_addr);
    }
    let again = config.try_register("key7".to_string()).unwrap().unwrap();
    assert_eq!(again.ipv4_addr, seen[7]);
    assert_eq!(peer_sections(&config).len(), 20);
}

#[test]
fn memory_backend_size_counts_new_keys_only() {
    let mut backend = MemoryBackend::new();
    backend.store_ipv4("a".to_string(), 1);
    backend.store_ipv4("b".to_string(), 2);
    backend.store_ipv4("a".to_string(), 3);
    assert_eq!(backend.get_ipv4_size(), 2);
    assert_eq!(backend.retrieve_ipv4(&"a".to_string()), Some(3));
    assert_eq!(backend.retrieve_ipv4(&"b".to_string()), Some(2));
}

fn failed_hook() -> wg_conf::hooks::HookError {
    wg_conf::hooks::HookError { output: "boom".to_string(), exit_code: "exit status: 1".to_string() }
}

#[test]
fn failed_pre_hook_registers_nothing() {
    let config = WireguardConfig::try_new(server_doc("10.0.0.1/24", &[]), "wg0.conf").unwrap();
    let mut service = WgRegistration::new("51820", config, Some("pre.sh"), None);
    let outcome = service.register_after_pre_hook("k".to_string(), Err(failed_hook()));
    assert!(matches!(outcome, Some(Err(RegistrationFailure::PreHook))));
    assert!(peer_sections(service.config()).is_empty());
    let reply = match service.register_after_pre_hook("k".to_string(), Ok(String::new())) {
        Some(Ok(reply)) => reply,
        _ => panic!("expected a reply"),
    };
    assert_eq!(reply.ipv4_address, "10.0.0.2");
    assert_eq!(reply.ipv6_address, None);
    assert_eq!(reply.wg_port, "51820");
    assert_eq!(reply.public_key, get_public_key(&private_key()));
    assert_eq!(peer_sections(service.config()).len(), 1);
}

#[test]
fn failed_post_hook_keeps_the_registration() {
    let config = WireguardConfig::try_new(server_doc("10.0.0.1/24,fd00::1/64", &[]), "wg0.conf").unwrap();
    let mut service = WgRegistration::new("51820", config, None, Some("post.sh"));
    let reply = match service.register_after_pre_hook("k".to_string(), Ok("ready".to_string())) {
        Some(Ok(reply)) => reply,
        _ => panic!("expected a reply"),
    };
    assert_eq!(reply.ipv6_address, Some(0xfd00u128 << 112));
    let failed = WgRegistration::finish_registration(reply, Err(failed_hook()));
    assert!(matches!(failed, Err(RegistrationFailure::PostHook)));
    assert_eq!(peer_sections(service.config()).len(), 1);
    let again = match service.register_after_pre_hook("k".to_string(), Ok(String::new())) {
        Some(Ok(reply)) => reply,
        _ => panic!("expected a reply"),
    };
    match WgRegistration::finish_registration(again, Ok(String::new())) {
        Ok(reply) => assert_eq!(reply.ipv4_address, "10.0.0.2"),
        Err(_) => panic!("expected the reply"),
    }
}

#[test]
fn requests_need_a_header_and_a_passing_check() {
    assert!(!admit_request(None, None));
    assert!(!admit_request(None, Some(true)));
    assert!(!admit_request(Some("Bearer x"), None));
    assert!(!admit_request(Some("Bearer x"), Some(false)));
    assert!(admit_request(Some("Bearer x"), Some(true)));
}
