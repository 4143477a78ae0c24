//! The per-connection state machine.
//!
//! A connection walks one path: discover the destination (CONNECT framing or
//! SNI peek), gate the host, dial upstream, mint a leaf, accept inbound TLS,
//! open outbound TLS, read the first request, gate the path, then splice or
//! reject.  The machine decides; the I/O shell around it performs each
//! returned operation and feeds the outcome back as the next event.
//!
//! The contracts pin the safety properties of the gateway: upstream is only
//! dialed after the host gate allowed the host; a leaf is only minted for the
//! gated host; the outbound TLS name equals the hostname the leaf was minted
//! for; and a connection that reaches a gate decision records exactly one
//! terminal traffic event.

use vstd::prelude::*;

verus! {

use vstd::slice::slice_to_vec;
use vstd::string::StringSliceAdditionalSpecFns;
use crate::ca::{CaAuthority, LeafCert};
use crate::connect::{
    clip_head,
    has_crlfcrlf,
    head_complete,
    parse_connect_request,
    parse_request_line,
    spec_parse_connect,
    spec_parse_request_line,
    CONNECT_HEAD_CEILING,
};
use crate::event::TrafficEvent;
use crate::policy::{
    check_host_allowed,
    check_request,
    spec_check_host,
    spec_check_request,
    Mode,
    PolicySnapshot,
    Reason,
};
use crate::sni::{parse_sni, spec_parse_sni};
use crate::text::{extend_bytes, str_bytes};

/// How the connection reached the proxy.
#[derive(Clone, Copy, PartialEq, Eq, Structural, Debug)]
pub enum Ingress {
    /// An explicit HTTP CONNECT proxy client.
    Connect,
    /// A transparently redirected TLS client, discovered through SNI.
    Sni,
}

/// Where the connection stands.
#[derive(Clone, Copy, PartialEq, Eq, Structural, Debug)]
pub enum Phase {
    /// Accumulating the CONNECT request head.
    ReadingConnect,
    /// Waiting for the transparent peek at the ClientHello.
    AwaitPeek,
    /// Host gate passed; waiting for the upstream dial result.
    Dialing,
    /// Leaf minted; waiting for the inbound TLS handshake.
    InboundHandshake,
    /// Waiting for the outbound TLS handshake.
    OutboundHandshake,
    /// Waiting for the first in-TLS request.
    AwaitRequest,
    /// The connection is over; `outcome` says how it ended.
    Done,
}

/// How a finished connection ended.
#[derive(Clone, Copy, PartialEq, Eq, Structural, Debug)]
pub enum Outcome {
    InFlight,
    /// The CONNECT head was malformed, oversized or cut short: 400 written.
    BadRequest,
    /// The ClientHello yielded no usable hostname: closed silently.
    SniRejected,
    /// The host gate denied the host.
    HostBlocked,
    /// Upstream could not be dialed.
    DialFailed,
    /// No leaf certificate could be minted.
    MintFailed,
    /// A TLS handshake failed.
    TlsFailed,
    /// The first in-TLS read failed.
    ReadFailed,
    /// The path gate denied the first request.
    PathBlocked,
    /// The first request was forwarded and the streams spliced.
    Forwarded,
    /// The shell handed an event that does not fit the phase.
    ProtocolError,
}

/// An outcome the I/O shell reports back to the machine.
pub enum Ev {
    /// The next chunk of the CONNECT head; empty means end of stream.
    ClientBytes(Vec<u8>),
    /// The transparent, non-consuming peek at the client's first bytes.
    Peeked(Vec<u8>),
    /// Whether the upstream TCP dial succeeded.
    DialResult(bool),
    /// Whether the inbound TLS handshake succeeded.
    InboundTls(bool),
    /// Whether the outbound TLS handshake succeeded.
    OutboundTls(bool),
    /// What the single first-request read returned (possibly empty).
    FirstRequest(Vec<u8>),
    /// The first-request read failed.
    ReadFailed,
}

/// What the I/O shell must do next.
pub enum Op {
    /// The CONNECT head is incomplete: read more client bytes.
    ReadMore,
    /// Write these bytes on the plain client socket, then close.
    WriteThenClose(Vec<u8>),
    /// Open a TCP connection to this host and port.
    Dial(Vec<u8>, u16),
    /// Optionally write the 200 response first, then accept inbound TLS
    /// presenting this leaf.
    AcceptTls(Option<Vec<u8>>, LeafCert),
    /// Open outbound TLS with this server name.
    ConnectTls(Vec<u8>),
    /// Read the first request from the inbound TLS stream.
    ReadRequest,
    /// Write these bytes inside the inbound TLS stream, then close both.
    TlsWriteThenClose(Vec<u8>),
    /// Write these bytes to the outbound TLS stream, then splice both
    /// streams until either side ends.
    Forward(Vec<u8>),
    /// Close the connection without writing anything.
    Close,
}

/// The response to a malformed or oversized CONNECT head.
pub open spec fn resp_400() -> Seq<u8> {
    "HTTP/1.1 400 Bad Request\r\n\r\n".spec_bytes()
}

/// The response to a host that failed the host check, before any TLS.
pub open spec fn resp_403_host() -> Seq<u8> {
    "HTTP/1.1 403 Forbidden\r\nContent-Type: text/plain\r\n\r\nHost not allowed".spec_bytes()
}

/// The response when upstream cannot be dialed.
pub open spec fn resp_502(host: Seq<u8>) -> Seq<u8> {
    "HTTP/1.1 502 Bad Gateway\r\n\r\nFailed to connect to ".spec_bytes() + host
}

/// The go-ahead after which a CONNECT client starts its TLS handshake.
pub open spec fn resp_200() -> Seq<u8> {
    "HTTP/1.1 200 Connection Established\r\n\r\n".spec_bytes()
}

/// The canned in-TLS response to a request the path gate denied.
pub open spec fn resp_403_path() -> Seq<u8> {
    "HTTP/1.1 403 Forbidden\r\nContent-Type: text/plain\r\nContent-Length: 24\r\nConnection: close\r\n\r\nBlocked by Secure Proxy".spec_bytes()
}

/// The event has exactly these fields.
pub open spec fn is_event(
    ev: TrafficEvent,
    allowed: bool,
    host: Seq<u8>,
    path: Seq<u8>,
    method: Seq<u8>,
    mode: Mode,
    reason: Reason,
) -> bool {
    ev.allowed == allowed && ev.host@ == host && ev.path@ == path && ev.method@ == method
        && ev.mode == mode && ev.reason == reason
}

/// One connection's state: the frozen policy, where it stands, what is known
/// of the destination, and the traffic events recorded so far.
pub struct Conn {
    pub policy: PolicySnapshot,
    pub ingress: Ingress,
    pub phase: Phase,
    pub outcome: Outcome,
    /// The CONNECT head accumulated so far.
    pub head: Vec<u8>,
    /// The discovered destination host (meaningful from `Dialing` on).
    pub host: Vec<u8>,
    /// The discovered destination port (meaningful from `Dialing` on).
    pub port: u16,
    /// The hostname the leaf was minted for, once one was.
    pub leaf_host: Option<Vec<u8>>,
    /// The traffic events recorded for this connection.
    pub events: Vec<TrafficEvent>,
}

impl Conn {
    /// The host gate has allowed the discovered host.
    pub open spec fn gated(self) -> bool {
        spec_check_host(&self.policy, self.host@).allowed
    }

    /// The outcome records a gate decision (and so exactly one event).
    pub open spec fn decided(self) -> bool {
        self.outcome == Outcome::HostBlocked || self.outcome == Outcome::PathBlocked
            || self.outcome == Outcome::Forwarded
    }

    /// The connection's invariant, preserved by every step.
    pub open spec fn inv(self) -> bool {
        match self.phase {
            Phase::ReadingConnect => self.ingress == Ingress::Connect && self.events@.len() == 0
                && self.outcome == Outcome::InFlight && self.leaf_host is None,
            Phase::AwaitPeek => self.ingress == Ingress::Sni && self.events@.len() == 0
                && self.outcome == Outcome::InFlight && self.leaf_host is None,
            Phase::Dialing => self.gated() && self.events@.len() == 0 && self.outcome
                == Outcome::InFlight && self.leaf_host is None,
            Phase::InboundHandshake | Phase::OutboundHandshake | Phase::AwaitRequest => self.gated()
                && self.events@.len() == 0 && self.outcome == Outcome::InFlight && (
            self.leaf_host matches Some(h) && h@ == self.host@),
            Phase::Done => self.events@.len() == (if self.decided() {
                1int
            } else {
                0int
            }) && self.outcome != Outcome::InFlight,
        }
    }

    /// A fresh connection in the given ingress mode under a frozen policy
    /// snapshot.
    pub fn new(policy: PolicySnapshot, ingress: Ingress) -> (c: Conn)
        ensures
            c.inv(),
            c.policy == policy,
            c.ingress == ingress,
            c.phase == (if ingress == Ingress::Connect {
                Phase::ReadingConnect
            } else {
                Phase::AwaitPeek
            }),
            c.events@.len() == 0,
            c.head@.len() == 0,
    {
        let phase = if matches!(ingress, Ingress::Connect) {
            Phase::ReadingConnect
        } else {
            Phase::AwaitPeek
        };
        Conn {
            policy,
            ingress,
            phase,
            outcome: Outcome::InFlight,
            head: Vec::new(),
            host: Vec::new(),
            port: 443,
            leaf_host: None,
            events: Vec::new(),
        }
    }

    /// Record the terminal state.
    fn finish(&mut self, outcome: Outcome)
        requires
            old(self).inv(),
            old(self).phase != Phase::Done,
            outcome != Outcome::InFlight,
            outcome != Outcome::HostBlocked && outcome != Outcome::PathBlocked && outcome
                != Outcome::Forwarded,
        ensures
            final(self).inv(),
            *final(self) == (Conn { phase: Phase::Done, outcome, ..*old(self) }),
    {
        self.phase = Phase::Done;
        self.outcome = outcome;
    }

    /// Handle the next chunk of the CONNECT request head.
    fn step_connect_head(&mut self, chunk: Vec<u8>) -> (op: Op)
        requires
            old(self).inv(),
            old(self).phase == Phase::ReadingConnect,
        ensures
            final(self).inv(),
            final(self).policy == old(self).policy,
            final(self).ingress == old(self).ingress,
            !(op matches Op::AcceptTls(_, _)),
            !(op matches Op::ConnectTls(_)),
            !(op matches Op::Forward(_)),
            op matches Op::Dial(h, p) ==> {
                &&& spec_check_host(&old(self).policy, h@).allowed
                &&& h@ == final(self).host@
                &&& p == final(self).port
                &&& final(self).phase == Phase::Dialing
            },
            ({
                let head1 = old(self).head@ + chunk@;
                &&& chunk@.len() == 0 ==> is_bad_request(*final(self), op)
                &&& chunk@.len() > 0 && has_crlfcrlf(clip_head(head1)) ==> {
                    match spec_parse_connect(head1) {
                        Some(hp) => {
                            let d = spec_check_host(&old(self).policy, hp.0);
                            if d.allowed {
                                op matches Op::Dial(h, p) && h@ == hp.0 && p == hp.1
                            } else {
                                &&& final(self).phase == Phase::Done
                                &&& final(self).outcome == Outcome::HostBlocked
                                &&& final(self).events@.len() == 1
                                &&& is_event(
                                    final(self).events@[0],
                                    false,
                                    hp.0,
                                    "/".spec_bytes(),
                                    "CONNECT".spec_bytes(),
                                    old(self).policy.mode,
                                    Reason::HostNotAllowed,
                                )
                                &&& op matches Op::WriteThenClose(b) && b@ == resp_403_host()
                            }
                        },
                        None => is_bad_request(*final(self), op),
                    }
                }
                &&& chunk@.len() > 0 && !has_crlfcrlf(clip_head(head1)) ==> {
                    if head1.len() >= CONNECT_HEAD_CEILING {
                        is_bad_request(*final(self), op)
                    } else {
                        &&& op matches Op::ReadMore
                        &&& final(self).phase == Phase::ReadingConnect
                        &&& final(self).head@ == head1
                    }
                }
            }),
    {
        if chunk.len() == 0 {
            self.finish(Outcome::BadRequest);
            return Op::WriteThenClose(str_bytes("HTTP/1.1 400 Bad Request\r\n\r\n"));
        }
        extend_bytes(&mut self.head, chunk.as_slice());
        if head_complete(self.head.as_slice()) {
            match parse_connect_request(self.head.as_slice()) {
                Some((host, port)) => {
                    let d = check_host_allowed(&self.policy, host.as_slice());
                    if d.allowed {
                        self.host = host;
                        self.port = port;
                        self.phase = Phase::Dialing;
                        Op::Dial(slice_to_vec(self.host.as_slice()), port)
                    } else {
                        let blocked = TrafficEvent {
                            allowed: false,
                            host: slice_to_vec(host.as_slice()),
                            path: str_bytes("/"),
                            method: str_bytes("CONNECT"),
                            mode: self.policy.mode,
                            reason: d.reason,
                        };
                        self.events.push(blocked);
                        self.phase = Phase::Done;
                        self.outcome = Outcome::HostBlocked;
                        Op::WriteThenClose(
                            str_bytes(
                                "HTTP/1.1 403 Forbidden\r\nContent-Type: text/plain\r\n\r\nHost not allowed",
                            ),
                        )
                    }
                },
                None => {
                    self.finish(Outcome::BadRequest);
                    Op::WriteThenClose(str_bytes("HTTP/1.1 400 Bad Request\r\n\r\n"))
                },
            }
        } else if self.head.len() >= CONNECT_HEAD_CEILING {
            self.finish(Outcome::BadRequest);
            Op::WriteThenClose(str_bytes("HTTP/1.1 400 Bad Request\r\n\r\n"))
        } else {
            Op::ReadMore
        }
    }

    /// Handle the transparent peek at the ClientHello.
    fn step_peeked(&mut self, buf: Vec<u8>) -> (op: Op)
        requires
            old(self).inv(),
            old(self).phase == Phase::AwaitPeek,
        ensures
            final(self).inv(),
            final(self).policy == old(self).policy,
            final(self).ingress == old(self).ingress,
            !(op matches Op::AcceptTls(_, _)),
            !(op matches Op::ConnectTls(_)),
            !(op matches Op::Forward(_)),
            op matches Op::Dial(h, p) ==> {
                &&& spec_check_host(&old(self).policy, h@).allowed
                &&& h@ == final(self).host@
                &&& p == final(self).port
                &&& final(self).phase == Phase::Dialing
            },
            match spec_parse_sni(buf@) {
                Ok(h) => {
                    let d = spec_check_host(&old(self).policy, h);
                    if d.allowed {
                        op matches Op::Dial(hh, p) && hh@ == h && p == 443
                    } else {
                        &&& final(self).phase == Phase::Done
                        &&& final(self).outcome == Outcome::HostBlocked
                        &&& final(self).events@.len() == 1
                        &&& is_event(
                            final(self).events@[0],
                            false,
                            h,
                            "/".spec_bytes(),
                            "CONNECT".spec_bytes(),
                            old(self).policy.mode,
                            Reason::HostNotAllowed,
                        )
                        &&& op matches Op::Close
                    }
                },
                Err(_) => {
                    &&& final(self).phase == Phase::Done
                    &&& final(self).outcome == Outcome::SniRejected
                    &&& op matches Op::Close
                },
            },
    {
        match parse_sni(buf.as_slice()) {
            Ok(host) => {
                let d = check_host_allowed(&self.policy, host.as_slice());
                if d.allowed {
                    self.host = host;
                    self.port = 443;
                    self.phase = Phase::Dialing;
                    Op::Dial(slice_to_vec(self.host.as_slice()), 443)
                } else {
                    let blocked = TrafficEvent {
                        allowed: false,
                        host: slice_to_vec(host.as_slice()),
                        path: str_bytes("/"),
                        method: str_bytes("CONNECT"),
                        mode: self.policy.mode,
                        reason: d.reason,
                    };
                    self.events.push(blocked);
                    self.phase = Phase::Done;
                    self.outcome = Outcome::HostBlocked;
                    Op::Close
                }
            },
            Err(_) => {
                self.finish(Outcome::SniRejected);
                Op::Close
            },
        }
    }

    /// Handle the upstream dial result: mint the leaf and move to the
    /// inbound handshake, or report the failure.
    fn step_dialed(&mut self, ca: &CaAuthority, ok: bool) -> (op: Op)
        requires
            old(self).inv(),
            old(self).phase == Phase::Dialing,
        ensures
            final(self).inv(),
            final(self).policy == old(self).policy,
            final(self).ingress == old(self).ingress,
            !(op matches Op::Dial(_, _)),
            !(op matches Op::ConnectTls(_)),
            !(op matches Op::Forward(_)),
            op matches Op::AcceptTls(est, leaf) ==> {
                &&& leaf.host@ == final(self).host@
                &&& spec_check_host(&old(self).policy, leaf.host@).allowed
                &&& (est is Some <==> old(self).ingress == Ingress::Connect)
                &&& (est matches Some(b) ==> b@ == resp_200())
                &&& final(self).leaf_host matches Some(h) && h@ == leaf.host@
            },
            if ok {
                ||| (op matches Op::AcceptTls(est, leaf) && final(self).phase
                    == Phase::InboundHandshake)
                ||| (op matches Op::Close && final(self).phase == Phase::Done && final(self).outcome == Outcome::MintFailed)
            } else {
                &&& final(self).phase == Phase::Done
                &&& final(self).outcome == Outcome::DialFailed
                &&& if old(self).ingress == Ingress::Connect {
                    op matches Op::WriteThenClose(b) && b@ == resp_502(old(self).host@)
                } else {
                    op matches Op::Close
                }
            },
    {
        if !ok {
            self.finish(Outcome::DialFailed);
            if matches!(self.ingress, Ingress::Connect) {
                let mut b = str_bytes("HTTP/1.1 502 Bad Gateway\r\n\r\nFailed to connect to ");
                extend_bytes(&mut b, self.host.as_slice());
                Op::WriteThenClose(b)
            } else {
                Op::Close
            }
        } else {
            match ca.generate_cert_for_host(self.host.as_slice()) {
                Ok(leaf) => {
                    self.leaf_host = Some(slice_to_vec(leaf.host.as_slice()));
                    self.phase = Phase::InboundHandshake;
                    let est = if matches!(self.ingress, Ingress::Connect) {
                        Some(str_bytes("HTTP/1.1 200 Connection Established\r\n\r\n"))
                    } else {
                        None
                    };
                    Op::AcceptTls(est, leaf)
                },
                Err(_) => {
                    self.finish(Outcome::MintFailed);
                    Op::Close
                },
            }
        }
    }

    /// Handle the first in-TLS request: parse the request line, gate the
    /// path, record the one terminal event.
    fn step_first_request(&mut self, data: Vec<u8>) -> (op: Op)
        requires
            old(self).inv(),
            old(self).phase == Phase::AwaitRequest,
        ensures
            final(self).inv(),
            final(self).policy == old(self).policy,
            final(self).ingress == old(self).ingress,
            !(op matches Op::Dial(_, _)),
            !(op matches Op::AcceptTls(_, _)),
            !(op matches Op::ConnectTls(_)),
            ({
                let mp = spec_parse_request_line(data@);
                let d = spec_check_request(&old(self).policy, old(self).host@, mp.1);
                &&& final(self).phase == Phase::Done
                &&& final(self).events@.len() == 1
                &&& is_event(
                    final(self).events@[0],
                    d.allowed,
                    old(self).host@,
                    mp.1,
                    mp.0,
                    old(self).policy.mode,
                    d.reason,
                )
                &&& if d.allowed {
                    &&& final(self).outcome == Outcome::Forwarded
                    &&& op matches Op::Forward(b) && b@ == data@
                } else {
                    &&& final(self).outcome == Outcome::PathBlocked
                    &&& op matches Op::TlsWriteThenClose(b) && b@ == resp_403_path()
                }
            }),
    {
        let (method, path) = parse_request_line(data.as_slice());
        let d = check_request(&self.policy, self.host.as_slice(), path.as_slice());
        let recorded = TrafficEvent {
            allowed: d.allowed,
            host: slice_to_vec(self.host.as_slice()),
            path,
            method,
            mode: self.policy.mode,
            reason: d.reason,
        };
        self.events.push(recorded);
        self.phase = Phase::Done;
        if d.allowed {
            self.outcome = Outcome::Forwarded;
            Op::Forward(data)
        } else {
            self.outcome = Outcome::PathBlocked;
            Op::TlsWriteThenClose(
                str_bytes(
                    "HTTP/1.1 403 Forbidden\r\nContent-Type: text/plain\r\nContent-Length: 24\r\nConnection: close\r\n\r\nBlocked by Secure Proxy",
                ),
            )
        }
    }

    /// Advance the machine by one event; returns the operation the shell
    /// must perform next.
    ///
    /// The headline guarantees, each stated over whatever operation comes
    /// back:
    /// - an upstream dial is only requested for a host the policy allows;
    /// - a leaf handed to the inbound handshake was minted for exactly the
    ///   gated host, and in CONNECT ingress travels with the exact 200
    ///   go-ahead;
    /// - the outbound TLS server name equals the hostname the leaf was
    ///   minted for;
    /// - a gate decision appends exactly one traffic event, whose fields are
    ///   pinned to the policy decision on the parsed request.
    pub fn step(&mut self, ca: &CaAuthority, ev: Ev) -> (op: Op)
        requires
            old(self).inv(),
        ensures
            final(self).inv(),
            final(self).policy == old(self).policy,
            final(self).ingress == old(self).ingress,
            // Dials happen only after the host gate allowed the host.
            op matches Op::Dial(h, p) ==> {
                &&& spec_check_host(&old(self).policy, h@).allowed
                &&& h@ == final(self).host@
                &&& p == final(self).port
                &&& final(self).phase == Phase::Dialing
            },
            // A leaf is minted only for the gated host; the 200 go-ahead is
            // written exactly in CONNECT ingress.
            op matches Op::AcceptTls(est, leaf) ==> {
                &&& leaf.host@ == final(self).host@
                &&& spec_check_host(&old(self).policy, leaf.host@).allowed
                &&& (est is Some <==> old(self).ingress == Ingress::Connect)
                &&& (est matches Some(b) ==> b@ == resp_200())
                &&& final(self).leaf_host matches Some(h) && h@ == leaf.host@
            },
            // The outbound server name is the hostname the leaf was minted
            // for, which is the gated host.
            op matches Op::ConnectTls(sni) ==> {
                &&& final(self).leaf_host matches Some(h) && h@ == sni@
                &&& sni@ == final(self).host@
                &&& spec_check_host(&old(self).policy, sni@).allowed
            },
            // Client bytes move upstream only at the path gate, and only for
            // a request the policy allows.
            op matches Op::Forward(b) ==> {
                &&& old(self).phase == Phase::AwaitRequest
                &&& final(self).outcome == Outcome::Forwarded
                &&& spec_check_request(
                    &old(self).policy,
                    old(self).host@,
                    spec_parse_request_line(b@).1,
                ).allowed
            },
            // CONNECT head accumulation and its three exits.
            old(self).phase == Phase::ReadingConnect && (ev matches Ev::ClientBytes(chunk)) ==> {
                let head1 = old(self).head@ + spec_ev_bytes(ev);
                &&& spec_ev_bytes(ev).len() == 0 ==> is_bad_request(*final(self), op)
                &&& spec_ev_bytes(ev).len() > 0 && has_crlfcrlf(clip_head(head1)) ==> {
                    match spec_parse_connect(head1) {
                        Some(hp) => {
                            let d = spec_check_host(&old(self).policy, hp.0);
                            if d.allowed {
                                op matches Op::Dial(h, p) && h@ == hp.0 && p == hp.1
                            } else {
                                &&& final(self).phase == Phase::Done
                                &&& final(self).outcome == Outcome::HostBlocked
                                &&& final(self).events@.len() == 1
                                &&& is_event(
                                    final(self).events@[0],
                                    false,
                                    hp.0,
                                    "/".spec_bytes(),
                                    "CONNECT".spec_bytes(),
                                    old(self).policy.mode,
                                    Reason::HostNotAllowed,
                                )
                                &&& op matches Op::WriteThenClose(b) && b@ == resp_403_host()
                            }
                        },
                        None => is_bad_request(*final(self), op),
                    }
                }
                &&& spec_ev_bytes(ev).len() > 0 && !has_crlfcrlf(clip_head(head1)) ==> {
                    if head1.len() >= CONNECT_HEAD_CEILING {
                        is_bad_request(*final(self), op)
                    } else {
                        &&& op matches Op::ReadMore
                        &&& final(self).phase == Phase::ReadingConnect
                        &&& final(self).head@ == head1
                    }
                }
            },
            // SNI discovery and its exits.
            old(self).phase == Phase::AwaitPeek && (ev matches Ev::Peeked(buf)) ==> {
                match spec_parse_sni(spec_ev_bytes(ev)) {
                    Ok(h) => {
                        let d = spec_check_host(&old(self).policy, h);
                        if d.allowed {
                            op matches Op::Dial(hh, p) && hh@ == h && p == 443
                        } else {
                            &&& final(self).phase == Phase::Done
                            &&& final(self).outcome == Outcome::HostBlocked
                            &&& final(self).events@.len() == 1
                            &&& is_event(
                                final(self).events@[0],
                                false,
                                h,
                                "/".spec_bytes(),
                                "CONNECT".spec_bytes(),
                                old(self).policy.mode,
                                Reason::HostNotAllowed,
                            )
                            &&& op matches Op::Close
                        }
                    },
                    Err(_) => {
                        &&& final(self).phase == Phase::Done
                        &&& final(self).outcome == Outcome::SniRejected
                        &&& op matches Op::Close
                    },
                }
            },
            // The dial result: mint on success; 502 or silent close on
            // failure.
            ev matches Ev::DialResult(ok) ==> old(self).phase == Phase::Dialing ==> {
                if ok {
                    ||| (op matches Op::AcceptTls(est, leaf) && final(self).phase
                        == Phase::InboundHandshake)
                    ||| (op matches Op::Close && final(self).phase == Phase::Done && final(self).outcome == Outcome::MintFailed)
                } else {
                    &&& final(self).phase == Phase::Done
                    &&& final(self).outcome == Outcome::DialFailed
                    &&& if old(self).ingress == Ingress::Connect {
                        op matches Op::WriteThenClose(b) && b@ == resp_502(old(self).host@)
                    } else {
                        op matches Op::Close
                    }
                }
            },
            // The inbound handshake result.
            ev matches Ev::InboundTls(ok) ==> old(self).phase == Phase::InboundHandshake ==> {
                if ok {
                    op matches Op::ConnectTls(sni) && final(self).phase == Phase::OutboundHandshake
                } else {
                    op matches Op::Close && final(self).outcome == Outcome::TlsFailed
                }
            },
            // The outbound handshake result.
            ev matches Ev::OutboundTls(ok) ==> old(self).phase == Phase::OutboundHandshake ==> {
                if ok {
                    op matches Op::ReadRequest && final(self).phase == Phase::AwaitRequest
                } else {
                    op matches Op::Close && final(self).outcome == Outcome::TlsFailed
                }
            },
            // The path gate: exactly one event, pinned to the policy
            // decision on the parsed request line; forward verbatim or send
            // the canned 403.
            old(self).phase == Phase::AwaitRequest && (ev matches Ev::FirstRequest(data)) ==> {
                let mp = spec_parse_request_line(spec_ev_bytes(ev));
                let d = spec_check_request(&old(self).policy, old(self).host@, mp.1);
                &&& final(self).phase == Phase::Done
                &&& final(self).events@.len() == 1
                &&& is_event(
                    final(self).events@[0],
                    d.allowed,
                    old(self).host@,
                    mp.1,
                    mp.0,
                    old(self).policy.mode,
                    d.reason,
                )
                &&& if d.allowed {
                    &&& final(self).outcome == Outcome::Forwarded
                    &&& op matches Op::Forward(b) && b@ == spec_ev_bytes(ev)
                } else {
                    &&& final(self).outcome == Outcome::PathBlocked
                    &&& op matches Op::TlsWriteThenClose(b) && b@ == resp_403_path()
                }
            },
            old(self).phase == Phase::AwaitRequest && (ev matches Ev::ReadFailed) ==> {
                op matches Op::Close && final(self).outcome == Outcome::ReadFailed
            },
    {
        let ghost pre = *self;
        match self.phase {
            Phase::ReadingConnect => {
                match ev {
                    Ev::ClientBytes(chunk) => self.step_connect_head(chunk),
                    _ => {
                        self.finish(Outcome::ProtocolError);
                        Op::Close
                    },
                }
            },
            Phase::AwaitPeek => {
                match ev {
                    Ev::Peeked(buf) => self.step_peeked(buf),
                    _ => {
                        self.finish(Outcome::ProtocolError);
                        Op::Close
                    },
                }
            },
            Phase::Dialing => {
                match ev {
                    Ev::DialResult(ok) => self.step_dialed(ca, ok),
                    _ => {
                        self.finish(Outcome::ProtocolError);
                        Op::Close
                    },
                }
            },
            Phase::InboundHandshake => {
                match ev {
                    Ev::InboundTls(ok) => {
                        if ok {
                            self.phase = Phase::OutboundHandshake;
                            let sni = slice_to_vec(self.host.as_slice());
                            Op::ConnectTls(sni)
                        } else {
                            self.finish(Outcome::TlsFailed);
                            Op::Close
                        }
                    },
                    _ => {
                        self.finish(Outcome::ProtocolError);
                        Op::Close
                    },
                }
            },
            Phase::OutboundHandshake => {
                match ev {
                    Ev::OutboundTls(ok) => {
                        if ok {
                            self.phase = Phase::AwaitRequest;
                            Op::ReadRequest
                        } else {
                            self.finish(Outcome::TlsFailed);
                            Op::Close
                        }
                    },
                    _ => {
                        self.finish(Outcome::ProtocolError);
                        Op::Close
                    },
                }
            },
            Phase::AwaitRequest => {
                match ev {
                    Ev::FirstRequest(data) => self.step_first_request(data),
                    Ev::ReadFailed => {
                        self.finish(Outcome::ReadFailed);
                        Op::Close
                    },
                    _ => {
                        self.finish(Outcome::ProtocolError);
                        Op::Close
                    },
                }
            },
            Phase::Done => Op::Close,
        }
    }
}

/// The bytes an event carries (empty for the result events).
pub open spec fn spec_ev_bytes(ev: Ev) -> Seq<u8> {
    match ev {
        Ev::ClientBytes(b) => b@,
        Ev::Peeked(b) => b@,
        Ev::FirstRequest(b) => b@,
        _ => Seq::empty(),
    }
}

/// The connection ended with the 400 response.
pub open spec fn is_bad_request(c: Conn, op: Op) -> bool {
    &&& c.phase == Phase::Done
    &&& c.outcome == Outcome::BadRequest
    &&& c.events@.len() == 0
    &&& op matches Op::WriteThenClose(b) && b@ == resp_400()
}

/// A finished connection that reached a gate decision carries exactly one
/// terminal traffic event; one that failed before any gate decision carries
/// none.
pub proof fn lemma_one_terminal_event(c: Conn)
    requires
        c.inv(),
        c.phase == Phase::Done,
    ensures
        c.decided() ==> c.events@.len() == 1,
        !c.decided() ==> c.events@.len() == 0,
{
}

} // verus!
