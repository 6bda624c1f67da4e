//! The daemon's side of a client connection: the handshake decisions.
//!
//! A client must first send a `Ping` carrying its protocol version. The daemon
//! answers with a `Pong` that carries the daemon's own version and says whether
//! the two differ; on a difference the connection ends. A first packet that is
//! not a `Ping` is answered with `DropConnection`, and the connection ends. Once
//! the handshake has succeeded, packets get no handshake answer.
use crate::packet::{ClientPacket, ServerPacket};
use crate::version::{lemma_raw_version, spec_parse_semver, version, ProtocolVersion, RAW_VERSION};
use vstd::prelude::*;
use vstd::string::StringSliceAdditionalSpecFns;

verus! {

/// The version that the daemon speaks, as [`version`] gives it.
pub open spec fn daemon_version() -> ProtocolVersion {
    spec_parse_semver(RAW_VERSION.spec_bytes())
}

/// What the daemon does after a packet: the packet to send back, if any, and
/// whether to go on reading from the connection.
#[derive(Debug, PartialEq, Eq, Structural)]
pub struct SessionStep {
    pub reply: Option<ServerPacket>,
    pub keep_open: bool,
}

/// The step that follows `packet`, and whether the handshake is done after
/// it, given whether it was done before.
pub open spec fn spec_step(handshaked: bool, packet: ClientPacket) -> (SessionStep, bool) {
    if handshaked {
        (SessionStep { reply: None, keep_open: true }, true)
    } else {
        match packet {
            ClientPacket::Ping(v) => {
                let matches = v == daemon_version();
                (
                    SessionStep {
                        reply: Some(
                            ServerPacket::Pong { incompatible: !matches, version: daemon_version() },
                        ),
                        keep_open: matches,
                    },
                    matches,
                )
            },
            _ => (SessionStep { reply: Some(ServerPacket::DropConnection), keep_open: false }, false),
        }
    }
}

/// The state of one client connection on the daemon's side.
pub struct ClientSession {
    handshaked: bool,
}

impl ClientSession {
    /// Whether the handshake has succeeded on this connection.
    pub closed spec fn spec_handshaked(&self) -> bool {
        self.handshaked
    }

    /// A connection on which nothing has been received.
    pub fn new() -> (s: ClientSession)
        ensures
            !s.spec_handshaked(),
    {
        ClientSession { handshaked: false }
    }

    /// Whether the handshake has succeeded on this connection.
    pub fn handshaked(&self) -> (b: bool)
        ensures
            b == self.spec_handshaked(),
    {
        self.handshaked
    }

    /// Decides what follows a packet received from the client.
    pub fn on_packet(&mut self, packet: ClientPacket) -> (step: SessionStep)
        ensures
            (step, final(self).spec_handshaked()) == spec_step(old(self).spec_handshaked(), packet),
            old(self).spec_handshaked() ==> step == (SessionStep { reply: None, keep_open: true })
                && final(self).spec_handshaked(),
            !old(self).spec_handshaked() ==> match packet {
                ClientPacket::Ping(v) => {
                    &&& step.reply == Some(
                        ServerPacket::Pong {
                            incompatible: v != daemon_version(),
                            version: daemon_version(),
                        },
                    )
                    &&& step.keep_open == (v == daemon_version())
                    &&& final(self).spec_handshaked() == (v == daemon_version())
                },
                _ => {
                    &&& step.reply == Some(ServerPacket::DropConnection)
                    &&& !step.keep_open
                    &&& !final(self).spec_handshaked()
                },
            },
    {
        if !self.handshaked {
            if let ClientPacket::Ping(v) = packet {
                let daemon = version();
                let matches = v == daemon;

                let reply = ServerPacket::Pong { incompatible: !matches, version: daemon };

                if matches {
                    self.handshaked = true
                }
                SessionStep { reply: Some(reply), keep_open: matches }
            } else {
                SessionStep { reply: Some(ServerPacket::DropConnection), keep_open: false }
            }
        } else {
            SessionStep { reply: None, keep_open: true }
        }
    }
}

/// Whether feeding `packets` in turn to a fresh session keeps it open after
/// each of them, and it ends handshaked.
pub open spec fn stays_open(handshaked: bool, packets: Seq<ClientPacket>) -> bool
    decreases packets.len(),
{
    if packets.len() == 0 {
        true
    } else {
        let (step, next) = spec_step(handshaked, packets[0]);
        step.keep_open && next && stays_open(next, packets.drop_first())
    }
}

/// The handshake succeeds only on a `Ping` that carries the daemon's own
/// version, and once it has succeeded it stays so: whatever packets follow get
/// no handshake answer and leave the connection open.
pub proof fn lemma_handshake(handshaked: bool, packet: ClientPacket)
    ensures
        spec_step(handshaked, packet).1 <==> (handshaked || packet == ClientPacket::Ping(daemon_version())),
        handshaked ==> spec_step(handshaked, packet).0 == (SessionStep { reply: None, keep_open: true }),
        spec_step(handshaked, packet).0.keep_open <==> spec_step(handshaked, packet).1,
{
}

/// The daemon's answer to a first `Ping` carrying `v`: a `Pong` with the
/// daemon's own version `{0x30, 0x31, 0x30}`, whose `incompatible` flag is set
/// exactly when `v` differs from it in any of its three parts, and the
/// connection stays open exactly when the flag is clear. Any other first packet
/// is answered with `DropConnection` and closes the connection.
pub proof fn lemma_first_packet_reply(v: ProtocolVersion, other: ClientPacket)
    requires
        !(other is Ping),
    ensures
        ({
            let (step, handshaked) = spec_step(false, ClientPacket::Ping(v));
            let differs = v.major != 0x30 || v.minor != 0x31 || v.patch != 0x30;
            &&& step.reply == Some(
                ServerPacket::Pong {
                    incompatible: differs,
                    version: ProtocolVersion { major: 0x30, minor: 0x31, patch: 0x30 },
                },
            )
            &&& step.keep_open == !differs
            &&& handshaked == !differs
            &&& step.reply matches Some(ServerPacket::Pong { incompatible, .. })
                && incompatible == !step.keep_open
        }),
        spec_step(false, other) == (
        SessionStep { reply: Some(ServerPacket::DropConnection), keep_open: false }, false),
{
    lemma_raw_version();
}

/// A connection is kept open through a sequence of packets exactly when the
/// first packet is a `Ping` with the daemon's version (or the handshake was
/// already done), whatever the later packets are.
pub proof fn lemma_open_after_handshake(handshaked: bool, packets: Seq<ClientPacket>)
    requires
        packets.len() > 0,
    ensures
        stays_open(handshaked, packets) <==> (handshaked || packets[0] == ClientPacket::Ping(
            daemon_version(),
        )),
{
    lemma_handshaked_stays_open(true, packets.drop_first());
}

proof fn lemma_handshaked_stays_open(handshaked: bool, packets: Seq<ClientPacket>)
    requires
        handshaked,
    ensures
        stays_open(handshaked, packets),
    decreases packets.len(),
{
    if packets.len() > 0 {
        lemma_handshaked_stays_open(true, packets.drop_first());
    }
}

} // verus!
