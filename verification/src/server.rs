use vstd::prelude::*;

verus! {

/// The address the inbound HTTP server binds to. Binding and running
/// the server is the surrounding process's concern; the core only
/// carries the address.
pub struct Server {
    host: String,
    port: u16,
}

impl Server {
    pub closed spec fn spec_host(self) -> Seq<char> {
        self.host@
    }

    pub closed spec fn spec_port(self) -> u16 {
        self.port
    }

    pub fn new(host: String, port: u16) -> (r: Server)
        ensures
            r.spec_host() == host@,
            r.spec_port() == port,
    {
        Server { host, port }
    }

    pub fn host(&self) -> (r: &String)
        ensures
            r@ == self.spec_host(),
    {
        &self.host
    }

    pub fn port(&self) -> (r: u16)
        ensures
            r == self.spec_port(),
    {
        self.port
    }
}

} // verus!
