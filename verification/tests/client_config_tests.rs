use base64::Engine;
use wg_conf::client::config::{
    build_config_file, config_file_exists, try_build_config_file, try_keys_from_config, ConfigError,
};
use wg_conf::crypto::get_public_key;
use wg_conf::inifile::{IniDocument, IniSection};
use wg_conf::text::IntParseError;

#[test]
fn test_config_file_not_exists() {
    let config_file = Some("blubb");
    assert!(!config_file_exists(config_file))
}

#[test]
fn test_config_file_empty() {
    let config_file = None;
    assert!(!config_file_exists(config_file))
}

fn pairs(section: &IniSection) -> Vec<(&str, &str)> {
    section.properties.iter().map(|(k, v)| (k.as_str(), v.as_str())).collect()
}

#[test]
fn config_file_holds_interface_and_peer() {
    let file = build_config_file(
        "10.8.0.5",
        "cHJpdmF0ZQ==",
        "http://vpn.example.org:50051",
        "cHVibGlj",
        "51820",
        "16",
        Some("wg0.conf"),
    );
    let file = match file {
        Ok(f) => f,
        Err(_) => panic!("expected a configuration"),
    };
    assert_eq!(file.file_name, "wg0.conf");
    let sections = &file.document.sections;
    assert_eq!(sections.len(), 2);
    assert_eq!(sections[0].name.as_deref(), Some("Interface"));
    assert_eq!(pairs(&sections[0]), vec![("Address", "10.8.0.5"), ("PrivateKey", "cHJpdmF0ZQ==")]);
    assert_eq!(sections[1].name.as_deref(), Some("Peer"));
    assert_eq!(
        pairs(&sections[1]),
        vec![
            ("Endpoint", "vpn.example.org:51820"),
            ("PublicKey", "cHVibGlj"),
            ("AllowedIps", "10.8.0.5/16"),
        ]
    );
}

#[test]
fn config_file_errors_come_in_order() {
    let build = |address: &str, endpoint: &str, netmask: &str, file: Option<&str>| {
        build_config_file(address, "k", endpoint, "p", "51820", netmask, file)
    };
    assert!(matches!(build("10.0.0.1", "http://h", "16", None), Err(ConfigError::ConfigFileNotSet)));
    assert!(matches!(build("10.0.0.1/24", "http://h", "16", Some("f")), Err(ConfigError::InvalidAddress)));
    assert!(matches!(build("10.0.0", "http://h", "16", Some("f")), Err(ConfigError::InvalidAddress)));
    assert!(matches!(
        build("10.0.0.1", "http://h", "", Some("f")),
        Err(ConfigError::InvalidNetmask(IntParseError::Empty))
    ));
    assert!(matches!(
        build("10.0.0.1", "http://h", "1x", Some("f")),
        Err(ConfigError::InvalidNetmask(IntParseError::InvalidDigit))
    ));
    assert!(matches!(
        build("10.0.0.1", "http://h", "300", Some("f")),
        Err(ConfigError::InvalidNetmask(IntParseError::PosOverflow))
    ));
    match build("10.0.0.1", "http://h", "33", Some("f")) {
        Err(ConfigError::InvalidNetwork(e)) => assert_eq!(e, "invalid prefix"),
        _ => panic!("expected an invalid prefix"),
    }
    assert!(matches!(
        build("10.0.0.1", "not a url", "16", Some("f")),
        Err(ConfigError::InvalidEndpoint(_))
    ));
}

#[test]
fn endpoint_without_host_is_not_built() {
    let res = try_build_config_file("10.0.0.1", "k", "unix:/run/sock", "p", "1", "16", Some("f"));
    assert!(res.is_none());
    let res = try_build_config_file("10.0.0.1", "k", "unix:/run/sock", "p", "1", "16", None);
    assert!(matches!(res, Some(Err(ConfigError::ConfigFileNotSet))));
}

fn section(name: Option<&str>, props: &[(&str, &str)]) -> IniSection {
    IniSection {
        name: name.map(|n| n.to_string()),
        properties: props.iter().map(|(k, v)| (k.to_string(), v.to_string())).collect(),
    }
}

#[test]
fn keys_are_read_back_from_the_config() {
    let private_text = base64::engine::general_purpose::STANDARD.encode([9u8; 32]);
    let private = private_text.as_str();
    let doc = IniDocument {
        sections: vec![
            section(None, &[]),
            section(Some("Interface"), &[("Address", "10.0.0.2"), ("PrivateKey", private)]),
        ],
    };
    let (p, public) = try_keys_from_config(&doc).unwrap();
    assert_eq!(p, private);
    assert_eq!(public, get_public_key(private));
    let missing = IniDocument { sections: vec![section(Some("Peer"), &[("PublicKey", "x")])] };
    assert!(try_keys_from_config(&missing).is_none());
}

#[test]
fn config_errors_have_std_messages() {
    assert_eq!(ConfigError::ConfigFileNotSet.message(), "config file not set");
    assert_eq!(ConfigError::InvalidAddress.message(), "invalid IPv4 address syntax");
    assert_eq!("".parse::<u8>().unwrap_err().to_string(), ConfigError::InvalidNetmask(IntParseError::Empty).message());
    assert_eq!("x".parse::<u8>().unwrap_err().to_string(), ConfigError::InvalidNetmask(IntParseError::InvalidDigit).message());
    assert_eq!("999".parse::<u8>().unwrap_err().to_string(), ConfigError::InvalidNetmask(IntParseError::PosOverflow).message());
}

#[test]
fn client_key_pair_comes_from_the_file_or_is_fresh() {
    let (private_key, public_key) = wg_conf::client::config::client_key_pair(None).unwrap();
    assert_eq!(get_public_key(&private_key), public_key);
    let key = base64::engine::general_purpose::STANDARD.encode([9u8; 32]);
    let doc = IniDocument {
        sections: vec![IniSection {
            name: Some("Interface".to_string()),
            properties: vec![("PrivateKey".to_string(), key.clone())],
        }],
    };
    assert_eq!(
        wg_conf::client::config::client_key_pair(Some(&doc)),
        Some((key.clone(), get_public_key(&key)))
    );
    let empty = IniDocument { sections: vec![] };
    assert_eq!(wg_conf::client::config::client_key_pair(Some(&empty)), None);
}

#[test]
fn client_document_from_parsed_values() {
    let doc = wg_conf::client::config::client_config_document(
        "10.8.0.5", "cHJpdmF0ZQ==", "vpn.example.org", "51820", "cHVibGlj", "10.8.0.5/16",
    );
    assert_eq!(doc.sections.len(), 2);
    assert_eq!(doc.sections[0].name.as_deref(), Some("Interface"));
    assert_eq!(pairs(&doc.sections[0]), vec![("Address", "10.8.0.5"), ("PrivateKey", "cHJpdmF0ZQ==")]);
    assert_eq!(doc.sections[1].name.as_deref(), Some("Peer"));
    assert_eq!(
        pairs(&doc.sections[1]),
        vec![
            ("Endpoint", "vpn.example.org:51820"),
            ("PublicKey", "cHVibGlj"),
            ("AllowedIps", "10.8.0.5/16"),
        ]
    );
}
