//! The daemon's configuration, and what it decides.

use crate::server::{Server, ServerView};
use vstd::prelude::*;
use vstd::string::*;

verus! {

/// The configuration as it is read.
#[derive(Debug)]
pub struct FlatConf {
    pub port: u16,
    pub logfile: String,
    pub socket: Option<String>,
    pub key: String,
    pub verbose: bool,
    pub server: Option<Vec<Server>>,
    pub command: Option<String>,
}

/// The role of the daemon: a client sends beats to its peers, a server
/// receives them.
#[derive(Debug, Clone, Copy, PartialEq, Eq, Structural)]
pub enum Mode {
    Client,
    Server,
}

/// The peers that a configuration names, none where it has no list.
pub open spec fn configured(server: Option<Vec<Server>>) -> Seq<ServerView> {
    match server {
        Some(list) => Seq::new(list@.len(), |i: int| list@[i]@),
        None => Seq::empty(),
    }
}

/// The path of the control socket, where the configuration names none.
pub open spec fn default_socket() -> Seq<char> {
    "/var/run/flatlined.sock"@
}

impl FlatConf {
    /// The role that the configuration selects: client where it names at
    /// least one peer, server otherwise.
    pub fn mode(&self) -> (mode: Mode)
        ensures
            mode == (if configured(self.server).len() > 0 {
                Mode::Client
            } else {
                Mode::Server
            }),
    {
        match &self.server {
            Some(list) => {
                if list.len() > 0 {
                    Mode::Client
                } else {
                    Mode::Server
                }
            },
            None => Mode::Server,
        }
    }

    /// The configured peers, in order.
    pub fn servers(&self) -> (peers: Vec<Server>)
        ensures
            peers@.len() == configured(self.server).len(),
            forall|i: int|
                0 <= i < peers@.len() ==> (#[trigger] peers@[i])@ == configured(self.server)[i],
    {
        let mut peers: Vec<Server> = Vec::new();
        match &self.server {
            Some(list) => {
                let mut i: usize = 0;
                while i < list.len()
                    invariant
                        i <= list@.len(),
                        peers@.len() == i,
                        forall|j: int| 0 <= j < i ==> (#[trigger] peers@[j])@ == list@[j]@,
                    decreases list@.len() - i,
                {
                    peers.push(list[i].clone());
                    i = i + 1;
                }
            },
            None => {},
        }
        peers
    }

    /// The path of the control socket: the configured one, or the default.
    pub fn socket_path(&self) -> (path: String)
        ensures
            path@ == (match self.socket {
                Some(given) => given@,
                None => default_socket(),
            }),
    {
        match &self.socket {
            Some(given) => given.clone(),
            None => "/var/run/flatlined.sock".to_owned(),
        }
    }
}

} // verus!
