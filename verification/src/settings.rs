//! The agent's configuration: who may ask, and which databases it serves.

use vstd::prelude::*;
use vstd::string::StringExecFns;

verus! {

/// The kind of database server behind a connection.
#[derive(Debug, Clone, Copy, PartialEq, Eq, Structural)]
pub enum ConnectionKind {
    Postgres,
    MySql,
}

/// How to reach one database server.
#[derive(Debug, Clone, PartialEq, Eq)]
pub struct Connection {
    pub kind: ConnectionKind,
    pub host: String,
    pub port: u16,
    pub username: String,
    pub password: String,
    /// The database to dump where the request names none.
    pub dbname: Option<String>,
}

/// One database with everything needed to dump it.
#[derive(Debug, Clone, PartialEq, Eq)]
pub struct Database {
    pub connection: ConnectionKind,
    pub host: String,
    pub port: u16,
    pub dbname: String,
    pub username: String,
    pub password: String,
    /// Tables whose rows are left out of the dump.
    pub exclude_table_data: Option<Vec<String>>,
}

/// A credential and the identity it stands for.
#[derive(Debug, Clone, PartialEq, Eq)]
pub struct ApiKey {
    pub key: String,
    pub identity: String,
}

/// A connection under its identifier.
#[derive(Debug, Clone, PartialEq, Eq)]
pub struct NamedConnection {
    pub id: String,
    pub connection: Connection,
}

/// The agent's configuration. It is read once and never changed.
#[derive(Debug, Clone, PartialEq, Eq)]
pub struct Settings {
    pub api_keys: Vec<ApiKey>,
    pub port: u16,
    pub address: String,
    pub connections: Vec<NamedConnection>,
}

/// The identity of the first credential with the given key, if there is one.
pub open spec fn find_identity(keys: Seq<ApiKey>, key: Seq<char>) -> Option<String>
    decreases keys.len(),
{
    if keys.len() == 0 {
        None
    } else if keys[0].key@ == key {
        Some(keys[0].identity)
    } else {
        find_identity(keys.skip(1), key)
    }
}

/// The first connection with the given identifier, if there is one.
pub open spec fn find_connection(connections: Seq<NamedConnection>, id: Seq<char>) -> Option<
    Connection,
>
    decreases connections.len(),
{
    if connections.len() == 0 {
        None
    } else if connections[0].id@ == id {
        Some(connections[0].connection)
    } else {
        find_connection(connections.skip(1), id)
    }
}

/// No key occurs twice.
pub open spec fn distinct_keys(keys: Seq<ApiKey>) -> bool {
    forall|i: int, j: int|
        0 <= i < j < keys.len() ==> (#[trigger] keys[i]).key@ != (#[trigger] keys[j]).key@
}

/// No connection identifier occurs twice.
pub open spec fn distinct_ids(connections: Seq<NamedConnection>) -> bool {
    forall|i: int, j: int|
        0 <= i < j < connections.len() ==> (#[trigger] connections[i]).id@ != (
        #[trigger] connections[j]).id@
}

/// Whether some credential has the given key.
pub open spec fn has_key(keys: Seq<ApiKey>, key: Seq<char>) -> bool {
    exists|i: int| 0 <= i < keys.len() && (#[trigger] keys[i]).key@ == key
}

/// Whether some connection has the given identifier.
pub open spec fn has_connection(connections: Seq<NamedConnection>, id: Seq<char>) -> bool {
    exists|i: int| 0 <= i < connections.len() && (#[trigger] connections[i]).id@ == id
}

/// A key is found exactly where some credential has it.
pub proof fn lemma_find_identity(keys: Seq<ApiKey>, key: Seq<char>)
    ensures
        find_identity(keys, key).is_some() == has_key(keys, key),
    decreases keys.len(),
{
    if keys.len() > 0 {
        lemma_find_identity(keys.skip(1), key);
        if keys[0].key@ == key {
        } else if has_key(keys.skip(1), key) {
            let i = choose|i: int| 0 <= i < keys.skip(1).len() && (#[trigger] keys.skip(1)[i]).key@ == key;
            assert(keys[i + 1].key@ == key);
        } else if has_key(keys, key) {
            let i = choose|i: int| 0 <= i < keys.len() && (#[trigger] keys[i]).key@ == key;
            assert(keys.skip(1)[i - 1].key@ == key);
        }
    }
}

/// A connection is found exactly where some connection has the identifier.
pub proof fn lemma_find_connection(connections: Seq<NamedConnection>, id: Seq<char>)
    ensures
        find_connection(connections, id).is_some() == has_connection(connections, id),
    decreases connections.len(),
{
    if connections.len() > 0 {
        lemma_find_connection(connections.skip(1), id);
        if connections[0].id@ == id {
        } else if has_connection(connections.skip(1), id) {
            let i = choose|i: int|
                0 <= i < connections.skip(1).len() && (#[trigger] connections.skip(1)[i]).id@ == id;
            assert(connections[i + 1].id@ == id);
        } else if has_connection(connections, id) {
            let i = choose|i: int| 0 <= i < connections.len() && (#[trigger] connections[i]).id@ == id;
            assert(connections.skip(1)[i - 1].id@ == id);
        }
    }
}

/// Where no identifier occurs twice, each connection is found under its
/// own identifier.
pub proof fn lemma_connection_found(connections: Seq<NamedConnection>, i: int)
    requires
        0 <= i < connections.len(),
        distinct_ids(connections),
    ensures
        find_connection(connections, connections[i].id@) == Some(connections[i].connection),
    decreases i,
{
    if i > 0 {
        let rest = connections.skip(1);
        assert(connections[0].id@ != connections[i].id@);
        assert forall|a: int, b: int| 0 <= a < b < rest.len() implies (#[trigger] rest[a]).id@ != (
        #[trigger] rest[b]).id@ by {
            assert(rest[a] == connections[a + 1]);
            assert(rest[b] == connections[b + 1]);
        }
        assert(rest[i - 1] == connections[i]);
        assert(distinct_ids(rest));
        lemma_connection_found(rest, i - 1);
    }
}

/// Where no key occurs twice, each credential's identity is found under
/// its own key.
pub proof fn lemma_identity_found(keys: Seq<ApiKey>, i: int)
    requires
        0 <= i < keys.len(),
        distinct_keys(keys),
    ensures
        find_identity(keys, keys[i].key@) == Some(keys[i].identity),
    decreases i,
{
    if i > 0 {
        let rest = keys.skip(1);
        assert(keys[0].key@ != keys[i].key@);
        assert forall|a: int, b: int| 0 <= a < b < rest.len() implies (#[trigger] rest[a]).key@ != (
        #[trigger] rest[b]).key@ by {
            assert(rest[a] == keys[a + 1]);
            assert(rest[b] == keys[b + 1]);
        }
        assert(rest[i - 1] == keys[i]);
        assert(distinct_keys(rest));
        lemma_identity_found(rest, i - 1);
    }
}

impl Settings {
    /// No key and no connection identifier occurs twice.
    pub open spec fn wf(&self) -> bool {
        distinct_keys(self.api_keys@) && distinct_ids(self.connections@)
    }

    /// The identity behind a key: that of the first credential with this
    /// key, and `None` exactly where no credential has it.
    pub fn identity(&self, key: &str) -> (r: Option<&String>)
        ensures
            r.is_some() == has_key(self.api_keys@, key@),
            match find_identity(self.api_keys@, key@) {
                Some(identity) => r == Some(&identity),
                None => r.is_none(),
            },
    {
        let wanted: String = String::from_str(key);
        let mut i: usize = 0;
        proof {
            lemma_find_identity(self.api_keys@, key@);
            assert(self.api_keys@.skip(0) =~= self.api_keys@);
        }
        while i < self.api_keys.len()
            invariant
                wanted@ == key@,
                i <= self.api_keys@.len(),
                find_identity(self.api_keys@, key@) == find_identity(
                    self.api_keys@.skip(i as int),
                    key@,
                ),
            decreases self.api_keys@.len() - i,
        {
            assert(self.api_keys@.skip(i as int).skip(1) =~= self.api_keys@.skip(i + 1));
            if self.api_keys[i].key == wanted {
                return Some(&self.api_keys[i].identity);
            }
            i += 1;
        }
        None
    }

    /// The connection under an identifier: the first with this identifier,
    /// and `None` exactly where there is none.
    pub fn connection(&self, id: &str) -> (r: Option<&Connection>)
        ensures
            r.is_some() == has_connection(self.connections@, id@),
            match find_connection(self.connections@, id@) {
                Some(connection) => r == Some(&connection),
                None => r.is_none(),
            },
    {
        let wanted: String = String::from_str(id);
        let mut i: usize = 0;
        proof {
            lemma_find_connection(self.connections@, id@);
            assert(self.connections@.skip(0) =~= self.connections@);
        }
        while i < self.connections.len()
            invariant
                wanted@ == id@,
                i <= self.connections@.len(),
                find_connection(self.connections@, id@) == find_connection(
                    self.connections@.skip(i as int),
                    id@,
                ),
            decreases self.connections@.len() - i,
        {
            assert(self.connections@.skip(i as int).skip(1) =~= self.connections@.skip(i + 1));
            if self.connections[i].id == wanted {
                return Some(&self.connections[i].connection);
            }
            i += 1;
        }
        None
    }
}

} // verus!
