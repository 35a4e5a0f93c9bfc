//! Building the connection string and deciding, probe by probe, whether a new
//! pool may be trusted.

use vstd::prelude::*;
use crate::model::{AuthResponse, DatabaseCredentials};
use crate::text::{chars_of, trim, trim_chars};

verus! {

/// Host, database and TLS requirement of the store, after the credentials.
pub const BASE_DATABASE_URL: &'static str = "vultr-prod-44a7761f-10fc-493b-8699-2d7253da7113-vultr-prod-fa3d.vultrdb.com:16751/defaultdb?sslmode=require";

/// Most connections the pool may hold at once.
pub const MAX_CONNECTIONS: u32 = 5;

/// Seconds a caller waits for a free connection before giving up.
pub const ACQUIRE_TIMEOUT_SECS: u64 = 10;

/// Seconds an idle connection is kept.
pub const IDLE_TIMEOUT_SECS: u64 = 300;

/// Seconds a connection lives at most.
pub const MAX_LIFETIME_SECS: u64 = 1800;

/// The connection string for a user name and password.
pub open spec fn database_url(username: Seq<char>, password: Seq<char>) -> Seq<char> {
    "postgresql://"@ + username + ":"@ + password + "@"@ + BASE_DATABASE_URL@
}

/// The connection string that embeds the given credentials.
pub fn build_database_url(username: &str, password: &str) -> (r: String)
    ensures
        r@ == database_url(username@, password@),
{
    String::from_str("postgresql://").concat(username).concat(":").concat(password).concat(
        "@",
    ).concat(BASE_DATABASE_URL)
}

/// What to do with a login request before any network call.
pub enum AuthStep {
    /// Answer at once; nothing is contacted.
    Reply(AuthResponse),
    /// Open a pool on this connection string.
    Connect(String),
}

/// Whether `a` is a refusal carrying `message`.
pub open spec fn refuses_auth(a: AuthResponse, message: Seq<char>) -> bool {
    !a.success && a.message@ == message
}

/// Checks the credentials locally: both must be non-blank. A blank one is
/// answered at once; otherwise the caller is told which connection to open.
pub fn begin_authenticate(credentials: &DatabaseCredentials) -> (r: AuthStep)
    ensures
        trim(credentials.username@).len() == 0 ==> (r matches AuthStep::Reply(a) && refuses_auth(
            a,
            "Username cannot be empty"@,
        )),
        trim(credentials.username@).len() > 0 && trim(credentials.password@).len() == 0 ==> (
        r matches AuthStep::Reply(a) && refuses_auth(a, "Password cannot be empty"@)),
        trim(credentials.username@).len() > 0 && trim(credentials.password@).len() > 0 ==> (
        r matches AuthStep::Connect(url) && url@ == database_url(
            credentials.username@,
            credentials.password@,
        )),
{
    let user = chars_of(credentials.username.as_str());
    if trim_chars(&user).len() == 0 {
        return AuthStep::Reply(
            AuthResponse { success: false, message: String::from_str("Username cannot be empty") },
        );
    }
    let pass = chars_of(credentials.password.as_str());
    if trim_chars(&pass).len() == 0 {
        return AuthStep::Reply(
            AuthResponse { success: false, message: String::from_str("Password cannot be empty") },
        );
    }
    AuthStep::Connect(
        build_database_url(credentials.username.as_str(), credentials.password.as_str()),
    )
}

/// The checks run on a newly opened pool, in this order.
#[derive(Clone, Copy, Debug, PartialEq, Eq, Structural)]
pub enum Probe {
    /// A trivial query: the connection works.
    Liveness,
    /// The watch-list table exists in the schema.
    TableExists,
    /// The watch-list table can be read.
    TableReadable,
}

/// What a probe's query gave back.
#[derive(Clone, Copy, Debug, PartialEq, Eq, Structural)]
pub enum ProbeResult {
    /// The query failed.
    Failed,
    /// The query ran; for `TableExists`, whether the table was found.
    Answered(bool),
}

/// What follows a probe.
#[derive(Clone, Copy, Debug, PartialEq, Eq, Structural)]
pub enum ProbeNext {
    Run(Probe),
    /// Every check passed: the pool may be trusted.
    Verified,
    /// A check failed: the pool must not be used.
    Rejected,
}

/// The probe that follows `p` when it passes.
pub open spec fn successor(p: Probe) -> ProbeNext {
    match p {
        Probe::Liveness => ProbeNext::Run(Probe::TableExists),
        Probe::TableExists => ProbeNext::Run(Probe::TableReadable),
        Probe::TableReadable => ProbeNext::Verified,
    }
}

/// Whether a probe passed: its query ran, and a table lookup found the table.
pub open spec fn passed(p: Probe, result: ProbeResult) -> bool {
    match result {
        ProbeResult::Failed => false,
        ProbeResult::Answered(b) => p != Probe::TableExists || b,
    }
}

/// The query a probe runs.
pub open spec fn probe_query(p: Probe) -> Seq<char> {
    match p {
        Probe::Liveness => "SELECT 1"@,
        Probe::TableExists => "SELECT EXISTS (SELECT FROM information_schema.tables WHERE table_schema = 'public' AND table_name = 'watch_list')"@,
        Probe::TableReadable => "SELECT COUNT(*) FROM watch_list"@,
    }
}

impl Probe {
    /// The first check on a new pool.
    pub fn first() -> (r: Probe)
        ensures
            r == Probe::Liveness,
    {
        Probe::Liveness
    }

    /// The query this probe runs.
    pub fn query(&self) -> (r: &'static str)
        ensures
            r@ == probe_query(*self),
    {
        match self {
            Probe::Liveness => "SELECT 1",
            Probe::TableExists => "SELECT EXISTS (SELECT FROM information_schema.tables WHERE table_schema = 'public' AND table_name = 'watch_list')",
            Probe::TableReadable => "SELECT COUNT(*) FROM watch_list",
        }
    }

    /// What follows this probe, given what its query gave back: the next
    /// probe, or a verdict on the pool.
    pub fn next(&self, result: ProbeResult) -> (r: ProbeNext)
        ensures
            passed(*self, result) ==> r == successor(*self),
            !passed(*self, result) ==> r == ProbeNext::Rejected,
    {
        match result {
            ProbeResult::Failed => ProbeNext::Rejected,
            ProbeResult::Answered(found) => {
                match self {
                    Probe::Liveness => ProbeNext::Run(Probe::TableExists),
                    Probe::TableExists => if found {
                        ProbeNext::Run(Probe::TableReadable)
                    } else {
                        ProbeNext::Rejected
                    },
                    Probe::TableReadable => ProbeNext::Verified,
                }
            },
        }
    }
}

} // verus!
