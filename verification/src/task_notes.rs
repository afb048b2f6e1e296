use vstd::prelude::*;

use crate::datetime::UtcInstant;
use crate::errors::NotesError;

verus! {

/// An IP address, as its raw numeric value.
#[derive(Clone, Copy, PartialEq, Eq, Structural, Debug)]
pub enum IpAddress {
    V4(u32),
    V6(u128),
}

/// A transport endpoint: an IP address and a port.
#[derive(Clone, Copy, PartialEq, Eq, Structural, Debug)]
pub struct SocketAddress {
    pub ip: IpAddress,
    pub port: u16,
}

/// The host part of an upstream address: an IP address, or a domain name
/// still to be resolved.
pub enum Host {
    Ip(IpAddress),
    Domain(String),
}

impl Clone for Host {
    fn clone(&self) -> (r: Self)
        ensures
            r == *self,
    {
        match self {
            Host::Ip(ip) => Host::Ip(*ip),
            Host::Domain(d) => Host::Domain(d.clone()),
        }
    }
}

/// The upstream address a session asked for: a host and a port.
pub struct UpstreamAddr {
    pub host: Host,
    pub port: u16,
}

impl Clone for UpstreamAddr {
    fn clone(&self) -> (r: Self)
        ensures
            r == *self,
    {
        UpstreamAddr { host: self.host.clone(), port: self.port }
    }
}

/// The socket buffering policy of a session, fixed at creation.
#[derive(Clone, Copy, PartialEq, Eq, Debug)]
pub struct SocketBufferConfig {
    pub recv: Option<usize>,
    pub send: Option<usize>,
}

/// The per-session record of resolved routing decisions, created empty at
/// flow acceptance and owned by exactly one session. Every field but the
/// buffering policy is write-once: a second write is rejected, and reading
/// an unset field yields absent, never an error.
pub struct UdpConnectTaskNotes {
    /// Fixed at creation.
    pub buf_conf: SocketBufferConfig,
    /// The upstream the session asked for, set after resolution.
    pub upstream: Option<UpstreamAddr>,
    /// The chosen egress identifier, set after path selection.
    pub escaper: Option<String>,
    /// A specific source address, set only when policy demands one.
    pub bind: Option<IpAddress>,
    /// The next-hop actually dialed; may differ from the upstream when
    /// relayed.
    pub next: Option<SocketAddress>,
    /// The local socket address, set after connecting.
    pub local: Option<SocketAddress>,
    /// When the session's lease ends, for a bounded session.
    pub expire: Option<UtcInstant>,
}

impl UdpConnectTaskNotes {
    /// Notes with no routing decision taken yet.
    pub fn empty(buf_conf: SocketBufferConfig) -> (r: UdpConnectTaskNotes)
        ensures
            r == (UdpConnectTaskNotes {
                buf_conf,
                upstream: None,
                escaper: None,
                bind: None,
                next: None,
                local: None,
                expire: None,
            }),
    {
        UdpConnectTaskNotes {
            buf_conf,
            upstream: None,
            escaper: None,
            bind: None,
            next: None,
            local: None,
            expire: None,
        }
    }

    /// Notes for a session whose upstream is already known.
    pub fn new(upstream: UpstreamAddr, buf_conf: SocketBufferConfig) -> (r: UdpConnectTaskNotes)
        ensures
            r == (UdpConnectTaskNotes {
                buf_conf,
                upstream: Some(upstream),
                escaper: None,
                bind: None,
                next: None,
                local: None,
                expire: None,
            }),
    {
        UdpConnectTaskNotes {
            buf_conf,
            upstream: Some(upstream),
            escaper: None,
            bind: None,
            next: None,
            local: None,
            expire: None,
        }
    }

    /// Records the resolved upstream, once: a second write is rejected and
    /// changes nothing.
    pub fn set_upstream(&mut self, upstream: UpstreamAddr) -> (r: Result<(), NotesError>)
        ensures
            (match r {
                Ok(()) => old(self).upstream is None && *final(self) == (UdpConnectTaskNotes {
                    upstream: Some(upstream),
                    ..*old(self)
                }),
                Err(e) => e == NotesError::AlreadySet && old(self).upstream is Some && *final(self)
                    == *old(self),
            }),
    {
        if self.upstream.is_some() {
            return Err(NotesError::AlreadySet);
        }
        self.upstream = Some(upstream);
        Ok(())
    }

    /// Records the chosen egress identifier, once.
    pub fn set_escaper(&mut self, escaper: String) -> (r: Result<(), NotesError>)
        ensures
            (match r {
                Ok(()) => old(self).escaper is None && *final(self) == (UdpConnectTaskNotes {
                    escaper: Some(escaper),
                    ..*old(self)
                }),
                Err(e) => e == NotesError::AlreadySet && old(self).escaper is Some && *final(self)
                    == *old(self),
            }),
    {
        if self.escaper.is_some() {
            return Err(NotesError::AlreadySet);
        }
        self.escaper = Some(escaper);
        Ok(())
    }

    /// Records the demanded source address, once.
    pub fn set_bind(&mut self, bind: IpAddress) -> (r: Result<(), NotesError>)
        ensures
            (match r {
                Ok(()) => old(self).bind is None && *final(self) == (UdpConnectTaskNotes {
                    bind: Some(bind),
                    ..*old(self)
                }),
                Err(e) => e == NotesError::AlreadySet && old(self).bind is Some && *final(self)
                    == *old(self),
            }),
    {
        if self.bind.is_some() {
            return Err(NotesError::AlreadySet);
        }
        self.bind = Some(bind);
        Ok(())
    }

    /// Records the next-hop actually dialed, once.
    pub fn set_next(&mut self, next: SocketAddress) -> (r: Result<(), NotesError>)
        ensures
            (match r {
                Ok(()) => old(self).next is None && *final(self) == (UdpConnectTaskNotes {
                    next: Some(next),
                    ..*old(self)
                }),
                Err(e) => e == NotesError::AlreadySet && old(self).next is Some && *final(self)
                    == *old(self),
            }),
    {
        if self.next.is_some() {
            return Err(NotesError::AlreadySet);
        }
        self.next = Some(next);
        Ok(())
    }

    /// Records the local socket address, once.
    pub fn set_local(&mut self, local: SocketAddress) -> (r: Result<(), NotesError>)
        ensures
            (match r {
                Ok(()) => old(self).local is None && *final(self) == (UdpConnectTaskNotes {
                    local: Some(local),
                    ..*old(self)
                }),
                Err(e) => e == NotesError::AlreadySet && old(self).local is Some && *final(self)
                    == *old(self),
            }),
    {
        if self.local.is_some() {
            return Err(NotesError::AlreadySet);
        }
        self.local = Some(local);
        Ok(())
    }

    /// Records the session's lease end, once; an expiry must lie strictly
    /// in the future at the moment it is set.
    pub fn set_expire(&mut self, expire: UtcInstant, now: UtcInstant) -> (r: Result<
        (),
        NotesError,
    >)
        ensures
            (match r {
                Ok(()) => old(self).expire is None && now.lt_spec(expire) && *final(self)
                    == (UdpConnectTaskNotes { expire: Some(expire), ..*old(self) }),
                Err(e) => *final(self) == *old(self) && (match e {
                    NotesError::AlreadySet => old(self).expire is Some,
                    NotesError::ExpiryNotFuture => old(self).expire is None && !now.lt_spec(
                        expire,
                    ),
                }),
            }),
    {
        if self.expire.is_some() {
            return Err(NotesError::AlreadySet);
        }
        if !now.is_before(&expire) {
            return Err(NotesError::ExpiryNotFuture);
        }
        self.expire = Some(expire);
        Ok(())
    }

    /// Whether the session's lease, when bounded, has ended by `now`.
    pub fn expired_by(&self, now: &UtcInstant) -> (r: bool)
        ensures
            r == (match self.expire {
                Some(t) => !now.lt_spec(t),
                None => false,
            }),
    {
        match &self.expire {
            Some(t) => !now.is_before(t),
            None => false,
        }
    }
}

} // verus!
