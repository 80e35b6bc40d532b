use vstd::prelude::*;

verus! {

/// One configured account: the credentials typed into a freshly created
/// window and the screen position that window is moved to afterwards.
pub struct AccountRecord {
    pub username: String,
    pub password: String,
    pub target_x: i32,
    pub target_y: i32,
}

/// A whole run's configuration: the directory the client is started from
/// and the accounts to sign in, in the order their windows are bound.
pub struct Config {
    pub launch_path: String,
    pub accounts: Vec<AccountRecord>,
}

} // verus!
