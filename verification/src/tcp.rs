//! The addresses and client registry of the TCP link between the desktop
//! client and the engine server. The sockets themselves live outside the
//! library.

use vstd::prelude::*;
use crate::keyed::KeyedList;

verus! {

/// A client that sends enveloped messages to the server at `addr`.
#[derive(Debug, Clone)]
pub struct Client {
    pub addr: String,
}

impl Client {
    /// A client for the server at `addr`.
    pub fn new(addr: String) -> (r: Self)
        ensures
            r.addr == addr,
    {
        Client { addr }
    }
}

/// A server that receives on `rx_addr` and answers through `tx_addr`.
pub struct Server {
    pub rx_addr: String,
    pub tx_addr: String,
}

impl Server {
    /// A server with the given receive and transmit addresses.
    pub fn new(rx_addr: String, tx_addr: String) -> (r: Self)
        ensures
            r.rx_addr == rx_addr,
            r.tx_addr == tx_addr,
    {
        Server { rx_addr, tx_addr }
    }
}

/// The clients known to a server, each under its id.
pub struct ClientList<T> {
    clients: KeyedList<T>,
}

impl<T> ClientList<T> {
    pub closed spec fn wf(&self) -> bool {
        self.clients.wf()
    }

    /// The registered clients, by id.
    pub closed spec fn view(&self) -> Map<Seq<char>, T> {
        self.clients.view()
    }

    /// No client is registered.
    pub fn new() -> (r: Self)
        ensures
            r.wf(),
            r@ == Map::<Seq<char>, T>::empty(),
    {
        ClientList { clients: KeyedList::new() }
    }

    /// Registers `t` under `client_id`, replacing an earlier registration.
    pub fn add_client(&mut self, client_id: String, t: T)
        requires
            old(self).wf(),
        ensures
            final(self).wf(),
            final(self)@ == old(self)@.insert(client_id@, t),
    {
        self.clients.insert(client_id, t);
    }

    /// A copy of the client registered under `client_id`, if any.
    pub fn get_client(&self, client_id: &str) -> (r: Option<T>)
        where T: Clone,
        requires
            self.wf(),
        ensures
            r is Some <==> self@.contains_key(client_id@),
            r matches Some(c) ==> cloned::<T>(self@[client_id@], c),
    {
        match self.clients.get(client_id) {
            Some(c) => Some(c.clone()),
            None => None,
        }
    }

    /// Forgets the client registered under `client_id`, if any.
    pub fn remove_client(&mut self, client_id: &str)
        requires
            old(self).wf(),
        ensures
            final(self).wf(),
            final(self)@ == old(self)@.remove(client_id@),
    {
        self.clients.remove(client_id);
    }
}

/// A client registered and then looked up is found, and one removed is not.
pub proof fn law_registry_read_after_write<T>(m: Map<Seq<char>, T>, id: Seq<char>, other: Seq<char>, t: T)
    ensures
        m.insert(id, t).contains_key(id),
        m.insert(id, t)[id] == t,
        !m.remove(id).contains_key(id),
        other != id ==> m.insert(id, t).contains_key(other) == m.contains_key(other),
        other != id && m.contains_key(other) ==> m.insert(id, t)[other] == m[other],
{
}

} // verus!
