//! Wire protocol for LAN discovery (UDP broadcast) and game sessions
//! (TCP, one JSON object per line).
//!
//! Both sides speak the same protocol; there is no dedicated server. The
//! JSON encoding is done by the application; this module holds the
//! messages and the rules applied to them.
use vstd::prelude::*;

verus! {

/// UDP port used for discovery beacons.
pub const BEACON_PORT: u16 = 47610;

/// Preferred TCP port for the game listener (an ephemeral port is used when it is taken).
pub const GAME_PORT: u16 = 47611;

/// How often a beacon is broadcast, in milliseconds.
pub const BEACON_INTERVAL_MS: u64 = 1200;

/// How long an unseen peer stays listed, in milliseconds.
pub const PEER_TIMEOUT_MS: u64 = 5000;

/// Protocol version; beacons of other versions are ignored.
pub const PROTO_VERSION: u16 = 1;

/// Beacon status code for a peer that is free to play.
pub const STATUS_READY: u8 = 0;

/// Beacon status code for a peer in a game.
pub const STATUS_PLAYING: u8 = 1;

/// Status of a peer as advertised in beacons.
#[derive(Clone, Copy, PartialEq, Eq, Debug, Structural)]
pub enum PeerStatus {
    Ready,
    Playing,
}

impl PeerStatus {
    pub open spec fn label_spec(self) -> Seq<char> {
        match self {
            PeerStatus::Ready => "Ready"@,
            PeerStatus::Playing => "Playing"@,
        }
    }

    pub fn label(self) -> (r: &'static str)
        ensures
            r@ == self.label_spec(),
    {
        match self {
            PeerStatus::Ready => "Ready",
            PeerStatus::Playing => "Playing",
        }
    }

    pub open spec fn code_spec(self) -> u8 {
        match self {
            PeerStatus::Ready => STATUS_READY,
            PeerStatus::Playing => STATUS_PLAYING,
        }
    }

    /// The status code shared with the beacon thread.
    pub fn code(self) -> (r: u8)
        ensures
            r == self.code_spec(),
    {
        match self {
            PeerStatus::Ready => STATUS_READY,
            PeerStatus::Playing => STATUS_PLAYING,
        }
    }

    pub open spec fn from_code_spec(code: u8) -> PeerStatus {
        if code == STATUS_PLAYING {
            PeerStatus::Playing
        } else {
            PeerStatus::Ready
        }
    }

    /// The status a code stands for; any code but `STATUS_PLAYING` reads as ready.
    pub fn from_code(code: u8) -> (r: PeerStatus)
        ensures
            r == Self::from_code_spec(code),
    {
        if code == STATUS_PLAYING {
            PeerStatus::Playing
        } else {
            PeerStatus::Ready
        }
    }
}

/// The status advertised in beacons is the status set: reading back the
/// code of a status gives that status.
pub proof fn law_status_code_roundtrip(s: PeerStatus)
    ensures
        PeerStatus::from_code_spec(s.code_spec()) == s,
{
}

/// Discovery beacon, broadcast over UDP.
pub struct Beacon {
    /// Random per-run instance id, used to ignore our own beacons.
    pub id: String,
    pub name: String,
    pub status: PeerStatus,
    /// TCP port this peer listens on for game connections.
    pub tcp_port: u16,
    /// Protocol version; mismatched versions are ignored.
    pub proto: u16,
}

impl Beacon {
    /// A beacon is taken into the peer list when it speaks our protocol
    /// version and is not our own.
    pub fn is_foreign(&self, own_id: &str) -> (r: bool)
        ensures
            r == (self.proto == PROTO_VERSION && self.id@ != own_id@),
    {
        self.proto == PROTO_VERSION && !crate::text::str_eq(self.id.as_str(), own_id)
    }
}

/// Messages exchanged over a TCP game connection.
///
/// Flow: the initiator sends `Invite`, the peer answers `Accept`/`Decline`;
/// after `Accept` the initiator sends `Start` with the agreed setup and the
/// game begins. Moves carry the sender's remaining clock time.
pub enum GameMsg {
    /// Initiator to peer: game request.
    Invite { name: String, tc_secs: u32, tc_inc: u32 },
    /// Peer to initiator: request accepted.
    Accept,
    /// Peer to initiator: request declined, with a reason.
    Decline { reason: String },
    /// Initiator to peer: the game starts. `you_are_white` is from the receiver's side.
    Start {
        white_name: String,
        black_name: String,
        you_are_white: bool,
        tc_secs: u32,
        tc_inc: u32,
    },
    /// A move in UCI form plus the mover's remaining clock time in
    /// milliseconds after the move (increment applied).
    Move { uci: String, clock_ms: u64 },
    /// Offer a draw.
    DrawOffer,
    DrawAccept,
    DrawDecline,
    /// Resign (sender loses).
    Resign,
    /// Sender's clock ran out (sender loses on time).
    Timeout,
    /// Clean goodbye before closing the connection.
    Bye,
}

/// Whether an interface with this IPv4 address (as a big-endian number)
/// takes part in discovery: it is neither a loopback address (127.0.0.0/8)
/// nor the unspecified address 0.0.0.0.
pub fn wanted_interface(ip: u32) -> (r: bool)
    ensures
        r == (ip / 0x100_0000 != 127 && ip != 0),
{
    ip / 0x100_0000 != 127 && ip != 0
}

/// The broadcast address of an interface: its address with every host bit set.
pub fn subnet_broadcast(addr: u32, netmask: u32) -> (r: u32)
    ensures
        r == addr | !netmask,
{
    addr | !netmask
}

/// The broadcast targets for these interface broadcast addresses: the
/// global broadcast address, then each interface address not already
/// listed, in the order first seen.
pub open spec fn targets_spec(ifaces: Seq<u32>) -> Seq<u32>
    decreases ifaces.len(),
{
    if ifaces.len() == 0 {
        seq![0xffff_ffffu32]
    } else {
        let prev = targets_spec(ifaces.drop_last());
        if prev.contains(ifaces.last()) {
            prev
        } else {
            prev.push(ifaces.last())
        }
    }
}

/// Broadcast targets: the global broadcast address first, then every
/// interface broadcast address, each once, in the order first seen.
pub fn broadcast_targets(iface_broadcasts: &Vec<u32>) -> (r: Vec<u32>)
    ensures
        r@ == targets_spec(iface_broadcasts@),
        r@.len() >= 1,
        r@[0] == 0xffff_ffffu32,
        r@.no_duplicates(),
        forall|x: u32| r@.contains(x) <==> (x == 0xffff_ffffu32 || iface_broadcasts@.contains(x)),
{
    let mut out: Vec<u32> = Vec::new();
    out.push(0xffff_ffffu32);
    let mut i: usize = 0;
    assert(iface_broadcasts@.take(0) =~= Seq::<u32>::empty());
    assert(out@ =~= seq![0xffff_ffffu32]);
    proof {
        assert forall|x: u32|
            out@.contains(x) <==> (x == 0xffff_ffffu32 || iface_broadcasts@.take(0).contains(
                x,
            )) by {
            if out@.contains(x) {
                let k = choose|k: int| 0 <= k < out@.len() && #[trigger] out@[k] == x;
                assert(k == 0);
            }
            if x == 0xffff_ffffu32 {
                assert(out@[0] == x);
            }
        }
    }
    while i < iface_broadcasts.len()
        invariant
            i <= iface_broadcasts@.len(),
            out@.len() >= 1,
            out@[0] == 0xffff_ffffu32,
            out@.no_duplicates(),
            out@ == targets_spec(iface_broadcasts@.take(i as int)),
            forall|x: u32|
                out@.contains(x) <==> (x == 0xffff_ffffu32 || iface_broadcasts@.take(
                    i as int,
                ).contains(x)),
        decreases iface_broadcasts@.len() - i,
    {
        let t = iface_broadcasts[i];
        let ghost before = out@;
        let mut present = false;
        let mut j: usize = 0;
        while j < out.len()
            invariant
                j <= out@.len(),
                out@ == before,
                present == before.take(j as int).contains(t),
            decreases out@.len() - j,
        {
            assert(before.take(j + 1) =~= before.take(j as int).push(before[j as int]));
            assert(before.take(j + 1).contains(t) <==> (before.take(j as int).contains(t)
                || before[j as int] == t)) by {
                if before.take(j + 1).contains(t) {
                    let k = choose|k: int| 0 <= k < j + 1 && #[trigger] before.take(j + 1)[k] == t;
                    if k < j {
                        assert(before.take(j as int)[k] == t);
                    }
                }
                if before[j as int] == t {
                    assert(before.take(j + 1)[j as int] == t);
                }
                if before.take(j as int).contains(t) {
                    let k = choose|k: int| 0 <= k < j && #[trigger] before.take(j as int)[k] == t;
                    assert(before.take(j + 1)[k] == t);
                }
            }
            if out[j] == t {
                present = true;
            }
            j = j + 1;
        }
        assert(before.take(before.len() as int) =~= before);
        let ghost prev = out@;
        if !present {
            out.push(t);
            proof {
                assert forall|k1: int, k2: int| 0 <= k1 < k2 < out@.len() implies out@[k1] != out@[k2] by {
                    if k2 == prev.len() {
                        assert(prev[k1] == out@[k1]);
                        assert(!prev.contains(t));
                    }
                }
            }
        }
        assert(iface_broadcasts@.take(i + 1) =~= iface_broadcasts@.take(i as int).push(t));
        assert(iface_broadcasts@.take(i + 1).drop_last() =~= iface_broadcasts@.take(i as int));
        proof {
            let nxt = iface_broadcasts@.take(i + 1);
            let cur = iface_broadcasts@.take(i as int);
            assert forall|x: u32| nxt.contains(x) implies out@.contains(x) by {
                if x != t {
                    let k = choose|k: int| 0 <= k < nxt.len() && #[trigger] nxt[k] == x;
                    assert(cur[k] == x);
                    assert(cur.contains(x));
                    assert(prev.contains(x));
                    let k2 = choose|k: int| 0 <= k < prev.len() && #[trigger] prev[k] == x;
                    assert(out@[k2] == x);
                } else if present {
                    let k2 = choose|k: int| 0 <= k < prev.len() && #[trigger] prev[k] == x;
                    assert(out@[k2] == x);
                } else {
                    assert(out@[prev.len() as int] == x);
                }
            }
            assert(out@.contains(0xffff_ffffu32)) by {
                assert(out@[0] == 0xffff_ffffu32);
            }
            assert forall|x: u32| out@.contains(x) && x != 0xffff_ffffu32 implies nxt.contains(x) by {
                let k = choose|k: int| 0 <= k < out@.len() && #[trigger] out@[k] == x;
                if k < prev.len() {
                    assert(prev[k] == x);
                    assert(prev.contains(x));
                    assert(cur.contains(x));
                    let k2 = choose|k: int| 0 <= k < cur.len() && #[trigger] cur[k] == x;
                    assert(nxt[k2] == x);
                } else {
                    assert(x == t);
                    assert(nxt[i as int] == t);
                }
            }
        }
        i = i + 1;
    }
    assert(iface_broadcasts@.take(iface_broadcasts@.len() as int) =~= iface_broadcasts@);
    out
}

/// The per-run instance id mixed from the time and the process id
/// (an xorshift round to decorrelate their bits).
pub open spec fn instance_id_spec(nanos: u64, pid: u32) -> u64 {
    let s0 = nanos ^ ((pid as u64) << 32u64) ^ 0x9E3779B97F4A7C15u64;
    let s1 = s0 ^ (s0 << 13u64);
    let s2 = s1 ^ (s1 >> 7u64);
    s2 ^ (s2 << 17u64)
}

pub fn mix_instance_id(nanos: u64, pid: u32) -> (r: u64)
    ensures
        r == instance_id_spec(nanos, pid),
{
    let mut seed: u64 = nanos ^ ((pid as u64) << 32u64) ^ 0x9E3779B97F4A7C15u64;
    seed = seed ^ (seed << 13u64);
    seed = seed ^ (seed >> 7u64);
    seed = seed ^ (seed << 17u64);
    seed
}

} // verus!
