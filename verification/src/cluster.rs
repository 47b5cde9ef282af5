//! The configuration of a cluster and the choice of the options that a
//! connection is made with.

use vstd::prelude::*;

verus! {

/// How frames are compressed.
#[derive(Debug, Clone, Copy, PartialEq, Eq, Structural)]
pub enum Compression {
    Off,
    Lz4,
    Snappy,
}

/// How many replicas must answer a request.
#[derive(Debug, Clone, Copy, PartialEq, Eq, Structural)]
pub enum Consistency {
    Any,
    One,
    Two,
    Three,
    Quorum,
    All,
    LocalQuorum,
    EachQuorum,
    LocalOne,
    /// `Serial` and `LocalSerial` make a `SELECT` statement use Paxos.
    Serial,
    LocalSerial,
}

/// The consistency of the Paxos phase of a lightweight transaction.
#[derive(Debug, Clone, Copy, PartialEq, Eq, Structural)]
pub enum SerialConsistency {
    Serial,
    LocalSerial,
}

impl Consistency {
    /// The number of this consistency in the protocol.
    pub open spec fn spec_code(self) -> u16 {
        match self {
            Consistency::Any => 0x0000,
            Consistency::One => 0x0001,
            Consistency::Two => 0x0002,
            Consistency::Three => 0x0003,
            Consistency::Quorum => 0x0004,
            Consistency::All => 0x0005,
            Consistency::LocalQuorum => 0x0006,
            Consistency::EachQuorum => 0x0007,
            Consistency::Serial => 0x0008,
            Consistency::LocalSerial => 0x0009,
            Consistency::LocalOne => 0x000A,
        }
    }

    /// The number of this consistency in the protocol.
    pub fn code(self) -> (r: u16)
        ensures
            r == self.spec_code(),
    {
        match self {
            Consistency::Any => 0x0000,
            Consistency::One => 0x0001,
            Consistency::Two => 0x0002,
            Consistency::Three => 0x0003,
            Consistency::Quorum => 0x0004,
            Consistency::All => 0x0005,
            Consistency::LocalQuorum => 0x0006,
            Consistency::EachQuorum => 0x0007,
            Consistency::Serial => 0x0008,
            Consistency::LocalSerial => 0x0009,
            Consistency::LocalOne => 0x000A,
        }
    }

    /// The consistency that bears the number `code`, where one does.
    pub fn from_code(code: u16) -> (r: Option<Consistency>)
        ensures
            match r {
                Some(c) => c.spec_code() == code,
                None => code > 0x000A,
            },
    {
        match code {
            0x0000 => Some(Consistency::Any),
            0x0001 => Some(Consistency::One),
            0x0002 => Some(Consistency::Two),
            0x0003 => Some(Consistency::Three),
            0x0004 => Some(Consistency::Quorum),
            0x0005 => Some(Consistency::All),
            0x0006 => Some(Consistency::LocalQuorum),
            0x0007 => Some(Consistency::EachQuorum),
            0x0008 => Some(Consistency::Serial),
            0x0009 => Some(Consistency::LocalSerial),
            0x000A => Some(Consistency::LocalOne),
            _ => None,
        }
    }
}

impl SerialConsistency {
    /// The number of this consistency in the protocol.
    pub open spec fn spec_code(self) -> u16 {
        match self {
            SerialConsistency::Serial => 0x0008,
            SerialConsistency::LocalSerial => 0x0009,
        }
    }

    /// The number of this consistency in the protocol.
    pub fn code(self) -> (r: u16)
        ensures
            r == self.spec_code(),
    {
        match self {
            SerialConsistency::Serial => 0x0008,
            SerialConsistency::LocalSerial => 0x0009,
        }
    }

    /// The same level as a consistency of requests.
    pub fn as_consistency(self) -> (r: Consistency)
        ensures
            r.spec_code() == self.spec_code(),
    {
        match self {
            SerialConsistency::Serial => Consistency::Serial,
            SerialConsistency::LocalSerial => Consistency::LocalSerial,
        }
    }
}

/// Two codes are equal only where the consistencies are.
pub proof fn lemma_code_is_injective(a: Consistency, b: Consistency)
    requires
        a.spec_code() == b.spec_code(),
    ensures
        a == b,
{
}

/// The settings that statements run with where they name none.
#[derive(Debug, Clone, Copy, PartialEq, Eq, Structural)]
pub struct ExecutionProfile {
    pub consistency: Option<Consistency>,
    pub serial_consistency: Option<SerialConsistency>,
    /// In seconds.
    pub request_timeout: Option<u32>,
}

/// The name and the password of a user.
#[derive(Debug, Clone, PartialEq, Eq)]
pub struct Auth {
    pub username: String,
    pub password: String,
}

/// Whether the certificate of a node is verified.
#[derive(Debug, Clone, Copy, PartialEq, Eq, Structural)]
pub enum VerifyMode {
    Off,
    Peer,
}

/// The settings of an encrypted connection.
#[derive(Debug, Clone, PartialEq, Eq)]
pub struct Ssl {
    pub ca_filepath: String,
    pub verify_mode: Option<VerifyMode>,
}

impl Ssl {
    /// The verification that is in force: none where none is named.
    pub fn effective_verify_mode(&self) -> (r: VerifyMode)
        ensures
            r == match self.verify_mode {
                Some(mode) => mode,
                None => VerifyMode::Off,
            },
    {
        match self.verify_mode {
            Some(mode) => mode,
            None => VerifyMode::Off,
        }
    }
}

/// What a cluster is made from.
#[derive(Debug, Clone, PartialEq, Eq)]
pub struct ClusterConfig {
    pub nodes: Vec<String>,
    pub compression: Option<Compression>,
    pub default_execution_profile: Option<ExecutionProfile>,
    pub keyspace: Option<String>,
    pub auth: Option<Auth>,
    pub ssl: Option<Ssl>,
    /// Whether the driver awaits schema agreement after each statement
    /// that alters the schema.
    pub auto_await_schema_agreement: Option<bool>,
    /// The seconds that the driver sleeps before it checks again whether
    /// the schema is agreed upon.
    pub schema_agreement_interval: Option<i32>,
}

/// The options of one connection.
#[derive(Debug, Clone, PartialEq, Eq)]
pub struct ConnectionOptions {
    pub keyspace: Option<String>,
    pub auth: Option<Auth>,
    pub ssl: Option<Ssl>,
}

/// The first argument of `connect`: the name of a keyspace, or options.
#[derive(Debug, Clone, PartialEq, Eq)]
pub enum KeyspaceOrOptions {
    Keyspace(String),
    Options(ConnectionOptions),
}

/// Why the arguments of `connect` are refused.
#[derive(Debug, Clone, Copy, PartialEq, Eq, Structural)]
pub enum ConnectError {
    /// Options came both as the first and as the second argument.
    OptionsProvidedTwice,
}

/// A cluster that connections are made to.
#[derive(Debug, Clone, PartialEq, Eq)]
pub struct ScyllaCluster {
    pub uri: String,
    pub compression: Option<Compression>,
    pub default_execution_profile: Option<ExecutionProfile>,
    pub auto_await_schema_agreement: Option<bool>,
    /// In seconds.
    pub schema_agreement_interval: Option<u64>,
    pub connection: Option<ConnectionOptions>,
}

/// A reference to what an option holds.
pub open spec fn borrowed<T>(o: &Option<T>) -> Option<&T> {
    match o {
        Some(x) => Some(x),
        None => None,
    }
}

fn borrow<T>(o: &Option<T>) -> (r: Option<&T>)
    ensures
        r == borrowed(o),
{
    match o {
        Some(x) => Some(x),
        None => None,
    }
}

/// The seconds of an interval that the configuration gives as a signed
/// number: a negative number wraps around the 64 bits of the result.
pub open spec fn interval_seconds(d: i32) -> u64 {
    if d >= 0 {
        d as u64
    } else {
        (d + 0x1_0000_0000_0000_0000) as u64
    }
}

impl ScyllaCluster {
    /// Makes a cluster of a configuration, whose first node is the one
    /// that connections go to. The configuration names at least one node.
    pub fn new(cluster_config: ClusterConfig) -> (r: Self)
        requires
            cluster_config.nodes@.len() > 0,
        ensures
            r.uri@ == cluster_config.nodes@[0]@,
            r.compression == cluster_config.compression,
            r.default_execution_profile == cluster_config.default_execution_profile,
            r.auto_await_schema_agreement == cluster_config.auto_await_schema_agreement,
            r.schema_agreement_interval == match cluster_config.schema_agreement_interval {
                Some(d) => Some(interval_seconds(d)),
                None => None,
            },
            r.connection == Some(
                ConnectionOptions {
                    keyspace: cluster_config.keyspace,
                    auth: cluster_config.auth,
                    ssl: cluster_config.ssl,
                },
            ),
    {
        let uri: String = cluster_config.nodes[0].clone();
        let interval: Option<u64> = match cluster_config.schema_agreement_interval {
            Some(d) => Some(
                if d >= 0 {
                    d as u64
                } else {
                    0xFFFF_FFFF_FFFF_FFFFu64 - ((-(d + 1)) as u64)
                },
            ),
            None => None,
        };
        Self {
            uri,
            compression: cluster_config.compression,
            default_execution_profile: cluster_config.default_execution_profile,
            connection: Some(
                ConnectionOptions {
                    keyspace: cluster_config.keyspace,
                    auth: cluster_config.auth,
                    ssl: cluster_config.ssl,
                },
            ),
            auto_await_schema_agreement: cluster_config.auto_await_schema_agreement,
            schema_agreement_interval: interval,
        }
    }

    /// The keyspace that the cluster was configured with.
    pub open spec fn default_keyspace(&self) -> Option<&String> {
        match &self.connection {
            Some(c) => borrowed(&c.keyspace),
            None => None,
        }
    }

    /// The user that the cluster was configured with.
    pub open spec fn default_auth(&self) -> Option<&Auth> {
        match &self.connection {
            Some(c) => borrowed(&c.auth),
            None => None,
        }
    }

    /// The encryption that the cluster was configured with.
    pub open spec fn default_ssl(&self) -> Option<&Ssl> {
        match &self.connection {
            Some(c) => borrowed(&c.ssl),
            None => None,
        }
    }

    /// The keyspace of a connection: the one named as the first
    /// argument; else the one of the options, those of the first argument
    /// before those of the second; else the one of the cluster.
    pub open spec fn keyspace_spec<'a>(
        &'a self,
        first: Option<&'a KeyspaceOrOptions>,
        second: Option<&'a ConnectionOptions>,
    ) -> Option<&'a String> {
        match (first, second) {
            (Some(KeyspaceOrOptions::Keyspace(keyspace)), _) => Some(keyspace),
            (Some(KeyspaceOrOptions::Options(options)), _) => match &options.keyspace {
                Some(keyspace) => Some(keyspace),
                None => self.default_keyspace(),
            },
            (None, Some(options)) => match &options.keyspace {
                Some(keyspace) => Some(keyspace),
                None => self.default_keyspace(),
            },
            (None, None) => self.default_keyspace(),
        }
    }

    /// The user of a connection. Options given twice are an error. After
    /// a keyspace name the options decide alone, also where they name no
    /// user; in every other case the user of the cluster stands in.
    pub open spec fn auth_spec<'a>(
        &'a self,
        first: Option<&'a KeyspaceOrOptions>,
        second: Option<&'a ConnectionOptions>,
    ) -> Result<Option<&'a Auth>, ConnectError> {
        match (first, second) {
            (Some(KeyspaceOrOptions::Keyspace(_)), Some(options)) => Ok(borrowed(&options.auth)),
            (Some(KeyspaceOrOptions::Keyspace(_)), None) => Ok(self.default_auth()),
            (Some(KeyspaceOrOptions::Options(options)), None) => match &options.auth {
                Some(auth) => Ok(Some(auth)),
                None => Ok(self.default_auth()),
            },
            (Some(KeyspaceOrOptions::Options(_)), Some(_)) => Err(
                ConnectError::OptionsProvidedTwice,
            ),
            (None, Some(options)) => match &options.auth {
                Some(auth) => Ok(Some(auth)),
                None => Ok(self.default_auth()),
            },
            (None, None) => Ok(self.default_auth()),
        }
    }

    /// The encryption of a connection. Options given twice are an error;
    /// else the options decide, and the cluster where they name none.
    pub open spec fn ssl_spec<'a>(
        &'a self,
        first: Option<&'a KeyspaceOrOptions>,
        second: Option<&'a ConnectionOptions>,
    ) -> Result<Option<&'a Ssl>, ConnectError> {
        match (first, second) {
            (Some(KeyspaceOrOptions::Options(_)), Some(_)) => Err(
                ConnectError::OptionsProvidedTwice,
            ),
            (Some(KeyspaceOrOptions::Options(options)), None) => match &options.ssl {
                Some(ssl) => Ok(Some(ssl)),
                None => Ok(self.default_ssl()),
            },
            (_, Some(options)) => match &options.ssl {
                Some(ssl) => Ok(Some(ssl)),
                None => Ok(self.default_ssl()),
            },
            (_, None) => Ok(self.default_ssl()),
        }
    }

    fn configured_keyspace(&self) -> (r: Option<&String>)
        ensures
            r == self.default_keyspace(),
    {
        match &self.connection {
            Some(c) => borrow(&c.keyspace),
            None => None,
        }
    }

    fn configured_auth(&self) -> (r: Option<&Auth>)
        ensures
            r == self.default_auth(),
    {
        match &self.connection {
            Some(c) => borrow(&c.auth),
            None => None,
        }
    }

    fn configured_ssl(&self) -> (r: Option<&Ssl>)
        ensures
            r == self.default_ssl(),
    {
        match &self.connection {
            Some(c) => borrow(&c.ssl),
            None => None,
        }
    }

    /// The keyspace that a connection with these arguments uses.
    pub fn resolve_keyspace<'a>(
        &'a self,
        first: Option<&'a KeyspaceOrOptions>,
        second: Option<&'a ConnectionOptions>,
    ) -> (r: Option<&'a String>)
        ensures
            r == self.keyspace_spec(first, second),
    {
        match (first, second) {
            (Some(KeyspaceOrOptions::Keyspace(keyspace)), _) => Some(keyspace),
            (Some(KeyspaceOrOptions::Options(options)), _) => match &options.keyspace {
                Some(keyspace) => Some(keyspace),
                None => self.configured_keyspace(),
            },
            (None, Some(options)) => match &options.keyspace {
                Some(keyspace) => Some(keyspace),
                None => self.configured_keyspace(),
            },
            (None, None) => self.configured_keyspace(),
        }
    }

    /// The user that a connection with these arguments logs in as.
    pub fn resolve_auth<'a>(
        &'a self,
        first: Option<&'a KeyspaceOrOptions>,
        second: Option<&'a ConnectionOptions>,
    ) -> (r: Result<Option<&'a Auth>, ConnectError>)
        ensures
            r == self.auth_spec(first, second),
    {
        match (first, second) {
            (Some(KeyspaceOrOptions::Keyspace(_)), Some(options)) => Ok(borrow(&options.auth)),
            (Some(KeyspaceOrOptions::Keyspace(_)), None) => Ok(self.configured_auth()),
            (Some(KeyspaceOrOptions::Options(options)), None) => match &options.auth {
                Some(auth) => Ok(Some(auth)),
                None => Ok(self.configured_auth()),
            },
            (Some(KeyspaceOrOptions::Options(_)), Some(_)) => Err(
                ConnectError::OptionsProvidedTwice,
            ),
            (None, Some(options)) => match &options.auth {
                Some(auth) => Ok(Some(auth)),
                None => Ok(self.configured_auth()),
            },
            (None, None) => Ok(self.configured_auth()),
        }
    }

    /// The encryption that a connection with these arguments uses.
    pub fn resolve_ssl<'a>(
        &'a self,
        first: Option<&'a KeyspaceOrOptions>,
        second: Option<&'a ConnectionOptions>,
    ) -> (r: Result<Option<&'a Ssl>, ConnectError>)
        ensures
            r == self.ssl_spec(first, second),
    {
        match (first, second) {
            (Some(KeyspaceOrOptions::Options(_)), Some(_)) => Err(
                ConnectError::OptionsProvidedTwice,
            ),
            (Some(KeyspaceOrOptions::Options(options)), None) => match &options.ssl {
                Some(ssl) => Ok(Some(ssl)),
                None => Ok(self.configured_ssl()),
            },
            (_, Some(options)) => match &options.ssl {
                Some(ssl) => Ok(Some(ssl)),
                None => Ok(self.configured_ssl()),
            },
            (_, None) => Ok(self.configured_ssl()),
        }
    }
}

} // verus!
