//! Handshake results and server configuration.

use crate::connection::Connection;
use vstd::prelude::*;

verus! {

/// What a handshake callback decided for one inbound socket: whether to
/// accept it, and under which login key. The acceptor runs the caller's
/// handshake on each inbound socket and acts on the returned value.
#[derive(Clone)]
pub struct StreamData {
    login_key: String,
    should_connect: bool,
}

impl StreamData {
    /// The login key the handshake produced.
    pub closed spec fn spec_login_key(self) -> Seq<char> {
        self.login_key@
    }

    /// Whether the handshake accepted the socket.
    pub closed spec fn spec_should_connect(self) -> bool {
        self.should_connect
    }

    pub fn should_connect(&self) -> (r: bool)
        ensures
            r == self.spec_should_connect(),
    {
        self.should_connect
    }

    pub fn login_key(&self) -> (r: String)
        ensures
            r@ == self.spec_login_key(),
    {
        self.login_key.clone()
    }

    /// A handshake result that accepts the socket under `login_key`.
    pub fn do_connect(login_key: String) -> (r: Self)
        ensures
            r.spec_should_connect(),
            r.spec_login_key() == login_key@,
    {
        StreamData { login_key, should_connect: true }
    }

    /// A handshake result that accepts the socket under `login_key`.
    pub fn do_connect_str(login_key: &str) -> (r: Self)
        ensures
            r.spec_should_connect(),
            r.spec_login_key() == login_key@,
    {
        StreamData { login_key: login_key.to_owned(), should_connect: true }
    }

    /// A handshake result that rejects the socket.
    pub fn dont_connect() -> (r: Self)
        ensures
            !r.spec_should_connect(),
            r.spec_login_key() == Seq::<char>::empty(),
    {
        StreamData { login_key: String::new(), should_connect: false }
    }

    /// The acceptor's decision for this handshake result: an accepted socket
    /// becomes a connection under the handshake's login key; a rejected one
    /// becomes nothing, and the caller closes the socket.
    pub fn to_connection(&self) -> (r: Option<Connection>)
        ensures
            match r {
                Some(c) => self.spec_should_connect() && c.key@ == self.spec_login_key(),
                None => !self.spec_should_connect(),
            },
    {
        if self.should_connect {
            Some(Connection { key: self.login_key.clone() })
        } else {
            None
        }
    }
}

/// Startup configuration: the port the acceptor listens on and the server's
/// display name. Consumed at startup only.
#[derive(Clone, Debug)]
pub struct ServerConfig {
    pub port: u16,
    pub server_name: String,
}

impl ServerConfig {
    /// The default configuration: the default port, under a default name.
    pub fn new() -> (r: Self)
        ensures
            r.port == crate::DEFAULT_PORT,
            r.server_name@ == "default_name"@,
    {
        ServerConfig { port: crate::DEFAULT_PORT, server_name: "default_name".to_owned() }
    }
}

} // verus!
