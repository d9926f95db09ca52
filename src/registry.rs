//! The registry: one owner scope over a shared store, with point and bulk operations
//! planned here and carried out against the store by the caller.
use vstd::prelude::*;

use crate::keys::{build_owner_prefix, build_store_key, owner_prefix, store_key, views_of};

verus! {

#[verifier::external_type_specification]
#[verifier::external_body]
pub struct ExRedisClient(redis::Client);

#[verifier::external_type_specification]
#[verifier::external_body]
pub struct ExRedisError(redis::RedisError);

/// Whether `redis::Client::open` accepts `url` as connection information.
pub uninterp spec fn opens_redis_url(url: Seq<char>) -> bool;

/// Relies on `redis::Client::open`: checks the connection URL and makes a client; it opens
/// no connection, and whether it succeeds depends on the URL alone.
#[verifier::external_body]
fn open_client(url: &String) -> (r: Result<redis::Client, redis::RedisError>)
    ensures
        r is Ok <==> opens_redis_url(url@),
{
    redis::Client::open(url.as_str())
}

/// What can go wrong in a registry operation.
pub enum RegistryError {
    /// Neither a connection URL nor a host was configured.
    MissingConnectionInfo,
    /// The store refused the operation or could not be reached.
    Store(redis::RedisError),
    /// A value could not be written as JSON text, or stored text is not JSON.
    Serialization(serde_json::Error),
}

impl RegistryError {
    pub open spec fn is_serialization(&self) -> bool {
        self is Serialization
    }
}

/// The owner scope of one running instance.
#[derive(Debug, Clone)]
pub struct RegistryConfig {
    pub owner_type: String,
    pub owner_id: String,
}

/// The store URL chosen from the configured values: a full URL wins, else one built
/// from the host and the port (by default `6379`); without either there is none.
pub open spec fn chosen_url(
    url: Option<Seq<char>>,
    host: Option<Seq<char>>,
    port: Option<Seq<char>>,
) -> Option<Seq<char>> {
    match (url, host, port) {
        (Some(u), _, _) => Some(u),
        (None, Some(h), Some(p)) => Some("redis://"@ + h + seq![':'] + p),
        (None, Some(h), None) => Some("redis://"@ + h + seq![':'] + "6379"@),
        _ => None,
    }
}

pub open spec fn opt_view(o: Option<String>) -> Option<Seq<char>> {
    match o {
        Some(s) => Some(s@),
        None => None,
    }
}

/// Picks the store URL from the configured URL, host and port.
pub fn connection_url(url: Option<String>, host: Option<String>, port: Option<String>) -> (r: Option<String>)
    ensures
        opt_view(r) == chosen_url(opt_view(url), opt_view(host), opt_view(port)),
{
    proof {
        reveal_strlit("redis://");
        reveal_strlit(":");
        reveal_strlit("6379");
    }
    match url {
        Some(u) => Some(u),
        None => match host {
            Some(h) => {
                let mut s = String::from_str("redis://");
                s.append(h.as_str());
                s.append(":");
                match port {
                    Some(p) => s.append(p.as_str()),
                    None => s.append("6379"),
                }
                proof {
                    assert(":"@ =~= seq![':']);
                }
                Some(s)
            },
            None => None,
        },
    }
}

/// A registry bound to one owner scope; every key it builds lies inside that scope.
pub struct RedisRegistry {
    client: redis::Client,
    owner_type: String,
    owner_id: String,
}

impl RedisRegistry {
    pub closed spec fn owner_type_view(&self) -> Seq<char> {
        self.owner_type@
    }

    pub closed spec fn owner_id_view(&self) -> Seq<char> {
        self.owner_id@
    }

    /// The store key of `parts` in this registry's scope.
    pub open spec fn key_of(&self, parts: Seq<Seq<char>>) -> Seq<char> {
        store_key(self.owner_type_view(), self.owner_id_view(), parts)
    }

    /// Makes a registry for the scope `(owner_type, owner_id)` over the store that the
    /// configured URL, or host and port, names.
    pub fn new(
        owner_type: &str,
        owner_id: &str,
        redis_url: Option<String>,
        redis_host: Option<String>,
        redis_port: Option<String>,
    ) -> (r: Result<Self, RegistryError>)
        ensures
            chosen_url(opt_view(redis_url), opt_view(redis_host), opt_view(redis_port)) is None
                <==> r matches Err(RegistryError::MissingConnectionInfo),
            r matches Ok(reg) ==> reg.owner_type_view() == owner_type@ && reg.owner_id_view()
                == owner_id@,
            chosen_url(opt_view(redis_url), opt_view(redis_host), opt_view(redis_port)) matches Some(u)
                ==> (r is Ok <==> opens_redis_url(u)),
            chosen_url(opt_view(redis_url), opt_view(redis_host), opt_view(redis_port)) is Some
                ==> (r is Ok || r matches Err(RegistryError::Store(_))),
    {
        let url = match connection_url(redis_url, redis_host, redis_port) {
            Some(u) => u,
            None => return Err(RegistryError::MissingConnectionInfo),
        };
        match open_client(&url) {
            Ok(client) => Ok(RedisRegistry {
                client,
                owner_type: String::from_str(owner_type),
                owner_id: String::from_str(owner_id),
            }),
            Err(e) => Err(RegistryError::Store(e)),
        }
    }

    /// The store client, for running the planned commands.
    pub fn client(&self) -> &redis::Client {
        &self.client
    }

    /// `/<owner_type>/<owner_id>`.
    pub fn get_owner_prefix(&self) -> (r: String)
        ensures
            r@ == owner_prefix(self.owner_type_view(), self.owner_id_view()),
    {
        build_owner_prefix(&self.owner_type, &self.owner_id)
    }

    /// The store key of `parts`: the owner prefix followed by `/` and each segment.
    pub fn build_key(&self, parts: &Vec<String>) -> (r: String)
        ensures
            r@ == self.key_of(views_of(parts@)),
    {
        build_store_key(&self.owner_type, &self.owner_id, parts)
    }
}

} // verus!
