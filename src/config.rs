use vstd::prelude::*;

verus! {

/// Where the source data lives.
#[derive(Debug)]
pub enum DbConfig {
    /// The operational SQL Server database.
    Sigmanest(MssqlConnParams),
    /// A local database file, by path.
    Temp(String),
}

/// How to reach a SQL Server database.
#[derive(Debug)]
pub struct MssqlConnParams {
    /// Server name.
    pub server: String,
    /// Server instance, if applicable.
    pub instance: Option<String>,
    /// Database name.
    pub database: Option<String>,
    /// User; without one, integrated authentication is used.
    pub user: Option<String>,
    /// Password of the user.
    pub password: Option<String>,
}

/// How to authenticate to the server.
#[derive(Debug)]
pub enum AuthSettings {
    /// A SQL Server login.
    SqlServer { user: String, password: String },
    /// The operating system's own authentication.
    Integrated,
}

/// Everything a client needs to open a connection.
#[derive(Debug)]
pub struct ConnectionSettings {
    pub host: String,
    pub database: String,
    pub instance: Option<String>,
    pub auth: AuthSettings,
}

impl MssqlConnParams {
    /// Parameters for `db` on the server `host`, with no instance and no credentials.
    pub fn with_host_and_db(host: &str, db: &str) -> (r: MssqlConnParams)
        ensures
            r.server@ == host@,
            r.database is Some && r.database->0@ == db@,
            r.instance is None,
            r.user is None,
            r.password is None,
    {
        MssqlConnParams {
            server: host.to_owned(),
            instance: None,
            database: Some(db.to_owned()),
            user: None,
            password: None,
        }
    }

    /// The same parameters, logging in as `user` with `pwd`.
    pub fn set_auth(self, user: &str, pwd: &str) -> (r: MssqlConnParams)
        ensures
            r.server == self.server,
            r.instance == self.instance,
            r.database == self.database,
            r.user is Some && r.user->0@ == user@,
            r.password is Some && r.password->0@ == pwd@,
    {
        let mut p = self;
        p.user = Some(user.to_owned());
        p.password = Some(pwd.to_owned());
        p
    }

    /// The settings for a connection: the server as host, the database, the
    /// instance if any, and a SQL Server login when a user is given, else
    /// integrated authentication.
    pub fn into_settings(self) -> (r: ConnectionSettings)
        requires
            self.database is Some,
            self.user is Some ==> self.password is Some,
        ensures
            r.host == self.server,
            r.database == self.database->0,
            r.instance == self.instance,
            match self.user {
                Some(user) => r.auth == (AuthSettings::SqlServer {
                    user,
                    password: self.password->0,
                }),
                None => r.auth is Integrated,
            },
    {
        let auth = match self.user {
            Some(user) => match self.password {
                Some(password) => AuthSettings::SqlServer { user, password },
                None => AuthSettings::Integrated,
            },
            None => AuthSettings::Integrated,
        };
        let database = match self.database {
            Some(d) => d,
            None => String::new(),
        };
        ConnectionSettings { host: self.server, database, instance: self.instance, auth }
    }
}

} // verus!
