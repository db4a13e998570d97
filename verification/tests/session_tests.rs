use conduwuit_core::error::ErrorKind;
use conduwuit_core::session::{check_password, login_device, password_login_user, token_login_user, token_subject_user};

const SERVER: &str = "example.com";

fn hash(pw: &str) -> String {
    argon2::hash_encoded(pw.as_bytes(), b"somesaltsomesalt", &argon2::Config::rfc9106_low_mem()).unwrap()
}

#[test]
fn password_login_user_ids() {
    assert_eq!(password_login_user(Some("alice"), SERVER).unwrap(), "@alice:example.com");
    assert_eq!(password_login_user(Some("@x:other.org"), SERVER).unwrap(), "@x:other.org");
    assert_eq!(password_login_user(Some("Alice"), SERVER).unwrap(), "@Alice:example.com");
    assert_eq!(password_login_user(None, SERVER).unwrap_err().kind, ErrorKind::Forbidden);
    assert_eq!(password_login_user(Some("a b"), SERVER).unwrap_err().kind, ErrorKind::InvalidUsername);
}

#[test]
fn password_check() {
    let h = hash("hunter2");
    assert!(check_password(Some(&h), "hunter2").is_ok());
    assert_eq!(check_password(Some(&h), "hunter3").unwrap_err().kind, ErrorKind::Forbidden);
    assert_eq!(check_password(None, "x").unwrap_err().kind, ErrorKind::Forbidden);
    assert_eq!(check_password(Some(""), "x").unwrap_err().kind, ErrorKind::UserDeactivated);
    assert_eq!(check_password(Some("not a hash"), "x").unwrap_err().kind, ErrorKind::Forbidden);
}

fn token(secret: &str, sub: &str) -> String {
    let mut m = serde_json::Map::new();
    m.insert("sub".to_string(), serde_json::Value::String(sub.to_string()));
    m.insert("exp".to_string(), serde_json::Value::from(4102444800u64));
    jsonwebtoken::encode(
        &jsonwebtoken::Header::default(),
        &serde_json::Value::Object(m),
        &jsonwebtoken::EncodingKey::from_secret(secret.as_bytes()),
    )
    .unwrap()
}

#[test]
fn token_login() {
    let t = token("s3cret", "alice");
    assert_eq!(token_login_user(&t, Some("s3cret"), SERVER).unwrap(), "@alice:example.com");
    assert_eq!(token_login_user(&t, Some("other"), SERVER).unwrap_err().kind, ErrorKind::InvalidUsername);
    assert_eq!(token_login_user("garbage", Some("s3cret"), SERVER).unwrap_err().kind, ErrorKind::InvalidUsername);
    assert_eq!(token_login_user(&t, None, SERVER).unwrap_err().kind, ErrorKind::Unknown);
}

#[test]
fn token_subjects() {
    assert_eq!(token_subject_user(Some("bob".to_string()), SERVER).unwrap(), "@bob:example.com");
    assert_eq!(token_subject_user(None, SERVER).unwrap_err().kind, ErrorKind::InvalidUsername);
    assert_eq!(token_subject_user(Some("b:c".to_string()), SERVER).unwrap_err().kind, ErrorKind::InvalidUsername);
}

#[test]
fn login_devices() {
    let (d, t) = login_device(Some("DEV".to_string()));
    assert_eq!(d, "DEV");
    assert_eq!(t.len(), 256);
    let (d, _) = login_device(None);
    assert_eq!(d.len(), 10);
    assert!(d.chars().all(|c| c.is_ascii_alphanumeric()));
}
