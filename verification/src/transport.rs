//! Settings of listeners, and resolvers.

use vstd::prelude::*;

verus! {

/// Idle connections kept per address.
pub const DEFAULT_MAX_IDLE_PER_ADDR: usize = 16;

/// Settings of a listening socket.
#[derive(Debug, Clone, Copy, PartialEq, Eq, Structural)]
pub struct ListenerOpts {
    pub reuse_port: bool,
    pub reuse_addr: bool,
    pub backlog: i32,
    pub tcp_nodelay: bool,
    pub recv_buf_size: Option<usize>,
    pub send_buf_size: Option<usize>,
}

impl Default for ListenerOpts {
    fn default() -> (r: Self)
        ensures
            r == (ListenerOpts {
                reuse_port: true,
                reuse_addr: true,
                backlog: 1024,
                tcp_nodelay: true,
                recv_buf_size: None,
                send_buf_size: None,
            }),
    {
        ListenerOpts {
            reuse_port: true,
            reuse_addr: true,
            backlog: 1024,
            tcp_nodelay: true,
            recv_buf_size: None,
            send_buf_size: None,
        }
    }
}

/// The resolver of the standard library.
#[derive(Debug, Clone, Copy, PartialEq, Eq, Structural)]
pub struct StdResolver;

impl Default for StdResolver {
    fn default() -> (r: Self)
        ensures
            r == StdResolver,
    {
        StdResolver
    }
}

/// Why a name could not be resolved.
#[derive(Debug, Clone, Copy, PartialEq, Eq, Structural)]
pub enum ResolveError {
    /// There is no address.
    NoAddress,
}

/// A resolver that gives the same addresses for every name.
#[derive(Debug, Clone)]
pub struct MockResolver<A> {
    pub addrs: Vec<A>,
}

impl<A> Default for MockResolver<A> {
    fn default() -> (r: Self)
        ensures
            r.addrs@ == Seq::<A>::empty(),
    {
        MockResolver { addrs: Vec::new() }
    }
}

impl<A: Copy> MockResolver<A> {
    pub fn new(addrs: Vec<A>) -> (r: Self)
        ensures
            r.addrs == addrs,
    {
        MockResolver { addrs }
    }

    /// The addresses, or an error where there are none. Host and port play no
    /// part.
    pub fn resolve(&self, _host: &str, _port: u16) -> (r: Result<Vec<A>, ResolveError>)
        ensures
            match r {
                Ok(addrs) => self.addrs@.len() > 0 && addrs@ == self.addrs@,
                Err(e) => self.addrs@.len() == 0 && e == ResolveError::NoAddress,
            },
    {
        if self.addrs.len() == 0 {
            return Err(ResolveError::NoAddress);
        }
        let mut r: Vec<A> = Vec::new();
        let mut i: usize = 0;
        while i < self.addrs.len()
            invariant
                i <= self.addrs@.len(),
                r@ == self.addrs@.take(i as int),
            decreases self.addrs.len() - i,
        {
            r.push(self.addrs[i]);
            i += 1;
            assert(r@ =~= self.addrs@.take(i as int));
        }
        assert(self.addrs@.take(i as int) =~= self.addrs@);
        Ok(r)
    }
}

} // verus!
