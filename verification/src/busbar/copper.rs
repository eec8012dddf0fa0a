//! The envelope in which every message travels between a client and the
//! server.

use vstd::prelude::*;

verus! {

/// A payload addressed either to a client or, with the address to answer
/// on, to the server.
#[derive(Debug, Clone)]
pub enum Copper<T> {
    ToClient { client_id: String, payload: T },
    ToServer { client_id: String, callback_address: String, payload: T },
}

impl<T> Copper<T> {
    /// The id of the client the envelope concerns.
    pub open spec fn spec_client_id(&self) -> Seq<char> {
        match self {
            Copper::ToClient { client_id, .. } => client_id@,
            Copper::ToServer { client_id, .. } => client_id@,
        }
    }

    /// The address to answer on; empty for an envelope to a client.
    pub open spec fn spec_callback_address(&self) -> Seq<char> {
        match self {
            Copper::ToClient { .. } => Seq::empty(),
            Copper::ToServer { callback_address, .. } => callback_address@,
        }
    }

    /// The payload carried.
    pub open spec fn spec_payload(&self) -> T {
        match self {
            Copper::ToClient { payload, .. } => *payload,
            Copper::ToServer { payload, .. } => *payload,
        }
    }

    /// The same envelope carrying `u` in place of its payload.
    pub open spec fn with_payload<U>(&self, u: U) -> Copper<U> {
        match self {
            Copper::ToClient { client_id, .. } => Copper::ToClient { client_id: *client_id, payload: u },
            Copper::ToServer { client_id, callback_address, .. } => Copper::ToServer {
                client_id: *client_id,
                callback_address: *callback_address,
                payload: u,
            },
        }
    }

    /// An envelope for a client.
    pub fn to_client(client_id: String, payload: T) -> (r: Self)
        ensures
            r == (Copper::ToClient { client_id, payload }),
    {
        Copper::ToClient { client_id, payload }
    }

    /// An envelope for the server, answered on `callback_address`.
    pub fn to_server(client_id: String, callback_address: String, payload: T) -> (r: Self)
        ensures
            r == (Copper::ToServer { client_id, callback_address, payload }),
    {
        Copper::ToServer { client_id, callback_address, payload }
    }

    /// The id of the client the envelope concerns.
    pub fn client_id(&self) -> (r: String)
        ensures
            r@ == self.spec_client_id(),
    {
        match self {
            Copper::ToClient { client_id, .. } => client_id.clone(),
            Copper::ToServer { client_id, .. } => client_id.clone(),
        }
    }

    /// The address to answer on; empty for an envelope to a client.
    pub fn callback_address(&self) -> (r: String)
        ensures
            r@ == self.spec_callback_address(),
    {
        match self {
            Copper::ToClient { .. } => String::new(),
            Copper::ToServer { callback_address, .. } => callback_address.clone(),
        }
    }

    /// The same envelope with `f` applied to its payload.
    pub fn map<U, F: FnOnce(T) -> U>(self, f: F) -> (r: Copper<U>)
        requires
            f.requires((self.spec_payload(),)),
        ensures
            r.spec_client_id() == self.spec_client_id(),
            r.spec_callback_address() == self.spec_callback_address(),
            (r is ToClient) == (self is ToClient),
            f.ensures((self.spec_payload(),), r.spec_payload()),
            r == self.with_payload(r.spec_payload()),
            match (self, r) {
                (Copper::ToClient { client_id: a, .. }, Copper::ToClient { client_id: b, .. }) => a == b,
                (Copper::ToServer { client_id: a, callback_address: c, .. },
                 Copper::ToServer { client_id: b, callback_address: d, .. }) => a == b && c == d,
                _ => false,
            },
    {
        match self {
            Copper::ToClient { client_id, payload } => Copper::ToClient {
                client_id,
                payload: f(payload),
            },
            Copper::ToServer { client_id, callback_address, payload } => Copper::ToServer {
                client_id,
                callback_address,
                payload: f(payload),
            },
        }
    }
}

/// Mapping the payload to itself gives back the envelope: a `map` whose
/// closure returns its argument changes nothing.
pub proof fn law_map_identity<T>(c: Copper<T>)
    ensures
        c.with_payload(c.spec_payload()) == c,
{
}

/// Mapping twice is mapping once to the final payload: `c.map(f).map(g)`
/// and `c.map(|x| g(f(x)))` give the same envelope.
pub proof fn law_map_composition<T, U, V>(c: Copper<T>, u: U, v: V)
    ensures
        c.with_payload(u).with_payload(v) == c.with_payload(v),
        c.with_payload(u).spec_payload() == u,
{
}

} // verus!
