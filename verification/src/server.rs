//! A peer as the configuration names it.

use crate::text::{decimal, decimal_string};
use vstd::prelude::*;
use vstd::string::*;

verus! {

/// A peer: where its beats go or come from, and the secret shared with it.
#[derive(Debug)]
pub struct Server {
    pub address: String,
    pub port: u16,
    pub key: String,
}

/// What a peer is: its address, port and key as texts and a number.
pub struct ServerView {
    pub address: Seq<char>,
    pub port: u16,
    pub key: Seq<char>,
}

/// How a peer is shown: address, a colon, the port in decimal.
pub open spec fn server_text(server: ServerView) -> Seq<char> {
    server.address + ":"@ + decimal(server.port as nat)
}

impl View for Server {
    type V = ServerView;

    open spec fn view(&self) -> ServerView {
        ServerView { address: self.address@, port: self.port, key: self.key@ }
    }
}

impl PartialEq for Server {
    fn eq(&self, other: &Server) -> (equal: bool) {
        self.address == other.address && self.port == other.port && self.key == other.key
    }
}

impl vstd::std_specs::cmp::PartialEqSpecImpl for Server {
    open spec fn obeys_eq_spec() -> bool {
        true
    }

    open spec fn eq_spec(&self, other: &Server) -> bool {
        self@ == other@
    }
}

impl Clone for Server {
    fn clone(&self) -> (copy: Server)
        ensures
            copy@ == self@,
    {
        Server { address: self.address.clone(), port: self.port, key: self.key.clone() }
    }
}

impl Server {
    /// A peer with the given address, port and key.
    pub fn new(address: &str, port: u16, key: &str) -> (server: Server)
        ensures
            server@ == (ServerView { address: address@, port, key: key@ }),
    {
        Server { address: address.to_owned(), port, key: key.to_owned() }
    }

    /// The peer as `address:port`.
    pub fn to_string(&self) -> (text: String)
        ensures
            text@ == server_text(self@),
    {
        let mut text = self.address.clone();
        text.append(":");
        let port = decimal_string(self.port as u64);
        text.append(port.as_str());
        text
    }
}

} // verus!
