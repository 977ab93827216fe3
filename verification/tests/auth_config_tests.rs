use dash_to_hls::auth::{
    authenticate, claims_for, token_expiry, AuthError, Claims, TOKEN_LIFETIME_SECS,
};
use dash_to_hls::config::{ChannelConfig, ChannelTOML, Deserializer, UserConfig, UserTOML};

fn users() -> UserConfig {
    UserConfig {
        user: vec![
            UserTOML { username: "alice".to_string(), password: "first".to_string() },
            UserTOML { username: "bob".to_string(), password: "secret".to_string() },
            UserTOML { username: "alice".to_string(), password: "second".to_string() },
        ],
    }
}

#[test]
fn token_holds_for_a_day() {
    assert_eq!(TOKEN_LIFETIME_SECS, 24 * 60 * 60);
    assert_eq!(token_expiry(0), Some(86_400));
    assert_eq!(token_expiry(1_700_000_000), Some(1_700_086_400));
    assert_eq!(token_expiry(-86_400), Some(0));
}

#[test]
fn expiry_that_cannot_be_written_is_none() {
    assert_eq!(token_expiry(i64::MAX), None);
    assert_eq!(token_expiry(i64::MAX - 86_399), None);
    assert_eq!(token_expiry(-86_401), None);
    assert_eq!(token_expiry(i64::MIN), None);
}

#[test]
fn claims_name_the_user_and_the_expiry() {
    let c = claims_for("alice", 1_000).unwrap();
    assert_eq!(c.sub, "alice");
    assert_eq!(c.exp, 87_400);
    assert!(claims_for("alice", i64::MAX).is_none());
}

#[test]
fn request_without_a_valid_token_is_unauthorized() {
    assert_eq!(authenticate(None).unwrap_err(), AuthError::Unauthorized);
}

#[test]
fn request_with_a_valid_token_is_the_users() {
    let user = authenticate(Some(Claims { sub: "bob".to_string(), exp: 99 })).unwrap();
    assert_eq!(user.username, "bob");
}

#[test]
fn credentials_are_compared_by_equality() {
    let u = users();
    assert!(u.check_credentials("bob", "secret"));
    assert!(!u.check_credentials("bob", "Secret"));
    assert!(!u.check_credentials("bob", ""));
    assert!(!u.check_credentials("carol", "secret"));
    assert!(!u.check_credentials("", ""));
}

#[test]
fn later_user_of_one_name_holds() {
    let u = users();
    assert!(u.check_credentials("alice", "second"));
    assert!(!u.check_credentials("alice", "first"));
}

#[test]
fn empty_table_admits_nobody() {
    assert!(!UserConfig { user: Vec::new() }.check_credentials("alice", "second"));
}

#[test]
fn deserializer_keeps_its_paths() {
    let d = Deserializer::new("channels.toml".to_string(), "users.toml".to_string());
    assert_eq!(d.channels_path(), "channels.toml");
    assert_eq!(d.users_path(), "users.toml");
}

#[test]
fn channel_table_holds_its_rows() {
    let c = ChannelConfig {
        channel: vec![ChannelTOML {
            id: "c1".to_string(),
            name: "One".to_string(),
            url: "http://origin.example/c1.mpd".to_string(),
            key: "100b6c20940f779a4589152b57d2dacb".to_string(),
        }],
    };
    assert_eq!(c.channel.len(), 1);
    assert_eq!(c.channel[0].id, "c1");
    assert_eq!(c.channel[0].key.len(), 32);
}
