//! Where the database is.

use vstd::prelude::*;
use vstd::string::StringExecFns;

verus! {

/// The address of the database for a user, a password and a database name:
/// a Postgres address on the local machine, port 5432.
pub open spec fn database_url_of(user: Seq<char>, password: Seq<char>, db: Seq<char>) -> Seq<char> {
    "postgres://"@ + user + ":"@ + password + "@127.0.0.1:5432/"@ + db
}

/// The settings of the connection to the database.
#[derive(Debug, PartialEq, Eq)]
pub struct Settings {
    pub database_url: String,
}

impl Clone for Settings {
    /// The same settings once more.
    fn clone(&self) -> (r: Self)
        ensures
            r == *self,
    {
        Settings { database_url: self.database_url.clone() }
    }
}

impl Settings {
    /// The settings for a user, a password and a database name. None of the
    /// three is changed or escaped on its way into the address.
    pub fn for_credentials(user: &str, password: &str, db: &str) -> (settings: Settings)
        ensures
            settings.database_url@ == database_url_of(user@, password@, db@),
    {
        let mut url = String::from_str("postgres://");
        url.append(user);
        url.append(":");
        url.append(password);
        url.append("@127.0.0.1:5432/");
        url.append(db);
        Settings { database_url: url }
    }
}

} // verus!
