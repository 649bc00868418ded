use base64::Engine;
use wg_conf::client::auth::AuthBuilder;

#[test]
fn test_get_auth_token() {
    let token = "asdfghjkllzuiztizu";
    let builder = AuthBuilder::new(Some(token), None, None);
    let auth_token = builder.get_auth();
    assert_eq!(format!("Bearer {}", token), auth_token.unwrap());
}

#[test]
fn test_get_auth_user_password() {
    let user = "test";
    let pass = "12345678";
    let builder = AuthBuilder::new(None, Some(user), Some(pass));
    let auth_token = builder.get_auth();
    let check = format!(
        "Basic {}",
        base64::engine::general_purpose::STANDARD.encode("test:12345678")
    );
    assert_eq!(check, auth_token.unwrap());
}

#[test]
fn basic_credentials_are_base64_of_user_and_password() {
    let builder = AuthBuilder::new(None, Some("Aladdin"), Some("open sesame"));
    assert!(builder.has_authentication());
    assert_eq!(builder.get_auth().unwrap(), "Basic QWxhZGRpbjpvcGVuIHNlc2FtZQ==");
}

#[test]
fn token_wins_over_user_and_password() {
    let builder = AuthBuilder::new(Some("tok"), Some("user"), Some("pw"));
    assert_eq!(builder.get_auth().unwrap(), "Bearer tok");
}

#[test]
fn no_credentials_give_no_header() {
    for builder in [
        AuthBuilder::new(None, None, None),
        AuthBuilder::new(None, Some("user"), None),
        AuthBuilder::new(None, None, Some("pw")),
    ] {
        assert!(!builder.has_authentication());
        assert_eq!(builder.get_auth(), Err("no authentication defined".to_string()));
    }
}

#[test]
fn client_header_reads_back_on_the_server() {
    let service = wg_conf::server::auth::AuthServiceImpl::new("check".to_string());
    let token = AuthBuilder::new(Some("tok3n"), None, None).get_auth().unwrap();
    let (t, c) = service.read_authorization(&token).unwrap();
    assert_eq!(t, wg_conf::common::AuthType::Bearer);
    assert_eq!(c, "tok3n");
    let basic = AuthBuilder::new(None, Some("test"), Some("12345678")).get_auth().unwrap();
    let (t, c) = service.read_authorization(&basic).unwrap();
    assert_eq!(t, wg_conf::common::AuthType::Basic);
    assert_eq!(c, "dGVzdDoxMjM0NTY3OA==");
}
