//! The two configuration tables: channels and users.

use vstd::prelude::*;
use crate::text::same_text;

verus! {

/// One channel of the channels table.
#[derive(Clone, Debug)]
pub struct ChannelTOML {
    pub id: String,
    pub name: String,
    pub url: String,
    /// The content key in hex; empty for a channel that is not encrypted.
    pub key: String,
}

/// The channels table.
#[derive(Clone, Debug)]
pub struct ChannelConfig {
    pub channel: Vec<ChannelTOML>,
}

/// One user of the users table.
#[derive(Clone, Debug)]
pub struct UserTOML {
    pub username: String,
    pub password: String,
}

/// The users table.
#[derive(Clone, Debug)]
pub struct UserConfig {
    pub user: Vec<UserTOML>,
}

/// Where the two tables are read from.
#[derive(Clone, Debug)]
pub struct Deserializer {
    channels_path: String,
    users_path: String,
}

impl Deserializer {
    /// Notes from which files the tables are read.
    pub fn new(channels_path: String, users_path: String) -> (d: Deserializer)
        ensures
            d.channels_path_spec() == channels_path@,
            d.users_path_spec() == users_path@,
    {
        Deserializer { channels_path, users_path }
    }

    /// The path of the channels table.
    pub closed spec fn channels_path_spec(&self) -> Seq<char> {
        self.channels_path@
    }

    /// The path of the users table.
    pub closed spec fn users_path_spec(&self) -> Seq<char> {
        self.users_path@
    }

    /// The path of the channels table.
    pub fn channels_path(&self) -> (p: &str)
        ensures
            p@ == self.channels_path_spec(),
    {
        self.channels_path.as_str()
    }

    /// The path of the users table.
    pub fn users_path(&self) -> (p: &str)
        ensures
            p@ == self.users_path_spec(),
    {
        self.users_path.as_str()
    }
}

/// The password that holds for a user among the first `n` rows of the
/// table: that of the last row with the name.
pub open spec fn password_of(users: Seq<UserTOML>, username: Seq<char>, n: int) -> Option<
    Seq<char>,
>
    decreases n,
{
    if n <= 0 || n > users.len() {
        None
    } else if users[n - 1].username@ == username {
        Some(users[n - 1].password@)
    } else {
        password_of(users, username, n - 1)
    }
}

/// Whether the credentials are those of a user of the table. Of two rows
/// with one name the later one holds.
pub open spec fn credentials_match(users: Seq<UserTOML>, username: Seq<char>, password: Seq<char>)
    -> bool {
    password_of(users, username, users.len() as int) == Some(password)
}

impl UserConfig {
    /// Tests whether the credentials are those of a user of the table.
    pub fn check_credentials(&self, username: &str, password: &str) -> (ok: bool)
        ensures
            ok == credentials_match(self.user@, username@, password@),
    {
        let mut n: usize = self.user.len();
        while n > 0
            invariant
                n <= self.user@.len(),
                password_of(self.user@, username@, self.user@.len() as int) == password_of(
                    self.user@,
                    username@,
                    n as int,
                ),
            decreases n,
        {
            if same_text(self.user[n - 1].username.as_str(), username) {
                return same_text(self.user[n - 1].password.as_str(), password);
            }
            n = n - 1;
        }
        false
    }
}

} // verus!
