//! The middleware's transport messages that the raw session exchanges, read and
//! written by the middleware's own codec, and the local peer identifier.
use rand::RngCore;
use vstd::prelude::*;
use zenoh::net::PeerId;
use zenoh::net::protocol::io::{WBuf, ZBuf, ZSlice};
use zenoh::net::protocol::proto::{TransportBody, TransportMessage};

verus! {

/// Largest number of bytes in a peer identifier.
pub const MAX_PEER_ID: usize = 16;

/// Identifier of the KeepAlive transport message, which makes up its whole
/// encoding when it names no peer.
pub const KEEP_ALIVE_ID: u8 = 0x08;

/// Role of a node, as the middleware numbers it.
pub const ROUTER: u64 = 1;

pub const PEER: u64 = 2;

pub const CLIENT: u64 = 4;

/// A received transport message, as far as the session handshake reads it.
#[derive(Debug, Clone, Copy, PartialEq, Eq, Structural)]
pub enum Inbound {
    InitSyn { is_qos: bool },
    OpenSyn { lease_ms: u64, initial_sn: u64 },
    KeepAlive,
    /// A message of another kind, left undecoded.
    Other,
    /// Bytes that do not hold a whole message of the kind their header names.
    Malformed,
}

/// Identifier of the Init transport messages (InitSyn, and InitAck with the
/// acknowledgment flag).
pub const INIT_ID: u8 = 0x03;

/// Identifier of the Open transport messages (OpenSyn, and OpenAck with the
/// acknowledgment flag).
pub const OPEN_ID: u8 = 0x04;

/// Identifier of the priority decorator, which may precede a message.
pub const PRIORITY_ID: u8 = 0x1c;

/// Bits of a header that hold the message identifier.
pub const ID_MASK: u8 = 0x1f;

/// Header flag of an acknowledgment.
pub const FLAG_ACK: u8 = 0x20;

/// Header flag of an Open message whose lease is in seconds.
pub const FLAG_LEASE_SECS: u8 = 0x40;

/// Most bytes that a variable-length integer takes.
pub const ZINT_MAX_BYTES: usize = 10;

/// The kinds of message that the handshake decodes, by header byte.
#[derive(Debug, Clone, Copy, PartialEq, Eq, Structural)]
pub enum HeaderKind {
    InitSyn,
    OpenSyn,
    KeepAlive,
    Other,
}

pub open spec fn header_kind(h: u8) -> HeaderKind {
    let id = h & ID_MASK;
    if id == INIT_ID && h & FLAG_ACK == 0 {
        HeaderKind::InitSyn
    } else if id == OPEN_ID && h & FLAG_ACK == 0 {
        HeaderKind::OpenSyn
    } else if id == KEEP_ALIVE_ID {
        HeaderKind::KeepAlive
    } else {
        HeaderKind::Other
    }
}

/// A variable-length integer read from `pos` on: seven bits per byte, low
/// bits first, a set high bit announcing one more byte, at most ten bytes.
/// Gives the value and the position after it.
pub open spec fn zint_from(b: Seq<u8>, pos: int, shift: u64, k: nat, acc: u64) -> Option<(u64, int)>
    decreases k,
{
    if pos < 0 || pos >= b.len() {
        None
    } else {
        let c = b[pos];
        if c > 0x7f && k > 0 {
            zint_from(b, pos + 1, (shift + 7) as u64, (k - 1) as nat, acc | (((c & 0x7f) as u64) << shift))
        } else if k > 0 {
            Some((acc | (((c & 0x7f) as u64) << shift), pos + 1))
        } else {
            None
        }
    }
}

pub open spec fn zint_at(b: Seq<u8>, pos: int) -> Option<(u64, int)> {
    zint_from(b, pos, 0, ZINT_MAX_BYTES as nat, 0)
}

/// An OpenSyn whose lease, initial number and cookie length read whole, whose
/// cookie lies within the bytes, and whose lease in milliseconds fits 64 bits.
pub open spec fn open_syn_fits(b: Seq<u8>) -> bool {
    match zint_at(b, 1) {
        None => false,
        Some((lease, p1)) => (b[0] & FLAG_LEASE_SECS == 0 || lease <= u64::MAX / 1000) && match zint_at(
            b,
            p1,
        ) {
            None => false,
            Some((_sn, p2)) => match zint_at(b, p2) {
                None => false,
                Some((len, p3)) => p3 + len <= b.len(),
            },
        },
    }
}

/// Bodies that the middleware's reader decodes without failing an assertion:
/// an InitSyn or a KeepAlive (every field bounded), or an OpenSyn whose cookie
/// lies within the bytes.
pub open spec fn message_decodable(b: Seq<u8>) -> bool {
    b.len() > 0 && match header_kind(b[0]) {
        HeaderKind::InitSyn => true,
        HeaderKind::KeepAlive => true,
        HeaderKind::OpenSyn => open_syn_fits(b),
        HeaderKind::Other => false,
    }
}

/// The message itself: what follows a leading priority decorator, if any.
/// The reader takes the priority from the decorator's own header bits, every
/// value of which is valid. An attachment decorator is not read here, so a
/// message that carries one is left undecoded.
pub open spec fn message_start(b: Seq<u8>) -> Seq<u8> {
    if b.len() > 0 && b[0] & ID_MASK == PRIORITY_ID {
        b.skip(1)
    } else {
        b
    }
}

/// Bodies that the middleware's reader decodes without failing an assertion.
pub open spec fn decodable(b: Seq<u8>) -> bool {
    message_decodable(message_start(b))
}

/// The lease in milliseconds and the initial sequence number of an OpenSyn
/// that the reader accepts: its fields read whole and its cookie starts
/// inside the bytes and ends within them.
pub open spec fn open_syn_fields(b: Seq<u8>) -> Option<(u64, u64)> {
    match zint_at(b, 1) {
        None => None,
        Some((lease, p1)) => match zint_at(b, p1) {
            None => None,
            Some((sn, p2)) => match zint_at(b, p2) {
                None => None,
                Some((len, p3)) => if p3 < b.len() && p3 + len <= b.len() && (b[0]
                    & FLAG_LEASE_SECS == 0 || lease <= u64::MAX / 1000) {
                    Some(
                        (
                            if b[0] & FLAG_LEASE_SECS != 0 {
                                (lease * 1000) as u64
                            } else {
                                lease
                            },
                            sn,
                        ),
                    )
                } else {
                    None
                },
            },
        },
    }
}

/// The message that the middleware's codec reads at the start of `b`.
pub uninterp spec fn inbound_of(b: Seq<u8>) -> Inbound;

/// The message that a received body holds, as far as the handshake reads it.
pub open spec fn inbound_at(b: Seq<u8>) -> Inbound {
    if decodable(b) {
        inbound_of(b)
    } else if message_start(b).len() > 0 && header_kind(message_start(b)[0]) == HeaderKind::Other {
        Inbound::Other
    } else {
        Inbound::Malformed
    }
}

/// The middleware's encoding of an InitAck.
pub uninterp spec fn init_ack_encoding(
    whatami: u64,
    pid: Seq<u8>,
    sn_resolution: Option<u64>,
    is_qos: bool,
    cookie: Seq<u8>,
) -> Seq<u8>;

/// The middleware's encoding of an OpenAck.
pub uninterp spec fn open_ack_encoding(lease_ms: u64, initial_sn: u64) -> Seq<u8>;

/// Relies on zenoh's `ZBuf::read_transport_message`: decodes the first
/// transport message of `b`; what it yields depends on the bytes alone. The
/// lease of an OpenSyn is handed on in milliseconds. The reader indexes the
/// first byte unchecked and asserts on a cookie that runs past the end, so
/// only bodies in `decodable` are handed to it.
#[verifier::external_body]
pub(crate) fn read_inbound(b: &[u8]) -> (r: Inbound)
    requires
        decodable(b@),
    ensures
        r == inbound_of(b@),
        header_kind(b@[0]) == HeaderKind::InitSyn ==> (r is InitSyn || r is Malformed),
        header_kind(b@[0]) == HeaderKind::KeepAlive && b@[0] & FLAG_ACK == 0 ==> r
            == Inbound::KeepAlive,
        header_kind(b@[0]) == HeaderKind::OpenSyn ==> match open_syn_fields(b@) {
            Some((lease_ms, initial_sn)) => r == Inbound::OpenSyn { lease_ms, initial_sn },
            None => r is Malformed,
        },
{
    match ZBuf::from(b).read_transport_message().map(|m| m.body) {
        Some(TransportBody::InitSyn(m)) => Inbound::InitSyn { is_qos: m.is_qos },
        Some(TransportBody::OpenSyn(m)) => Inbound::OpenSyn {
            lease_ms: m.lease.as_millis() as u64,
            initial_sn: m.initial_sn,
        },
        Some(TransportBody::KeepAlive(_)) => Inbound::KeepAlive,
        Some(_) => Inbound::Other,
        None => Inbound::Malformed,
    }
}

/// Relies on zenoh's `TransportMessage::make_init_ack` and
/// `WBuf::write_transport_message`: the bytes of an InitAck without attachment.
/// `PeerId::new` keeps the first `pid.len()` bytes, so at most sixteen.
#[verifier::external_body]
pub(crate) fn write_init_ack(
    whatami: u64,
    pid: &[u8],
    sn_resolution: Option<u64>,
    is_qos: bool,
    cookie: &[u8],
) -> (r: Vec<u8>)
    requires
        pid@.len() <= MAX_PEER_ID,
    ensures
        r@ == init_ack_encoding(whatami, pid@, sn_resolution, is_qos, cookie@),
{
    let mut id = [0u8; PeerId::MAX_SIZE];
    id[..pid.len()].copy_from_slice(pid);
    let pid = PeerId::new(pid.len(), id);
    let cookie = ZSlice::from(cookie.to_vec());
    let mut msg = TransportMessage::make_init_ack(whatami, pid, sn_resolution, is_qos, cookie, None);
    let mut wbuf = WBuf::new(32, false);
    let _ = wbuf.write_transport_message(&mut msg);
    ZBuf::from(wbuf).to_vec()
}

/// Relies on zenoh's `TransportMessage::make_open_ack` and
/// `WBuf::write_transport_message`: the bytes of an OpenAck without attachment.
#[verifier::external_body]
pub(crate) fn write_open_ack(lease_ms: u64, initial_sn: u64) -> (r: Vec<u8>)
    ensures
        r@ == open_ack_encoding(lease_ms, initial_sn),
{
    let lease = std::time::Duration::from_millis(lease_ms);
    let mut msg = TransportMessage::make_open_ack(lease, initial_sn, None);
    let mut wbuf = WBuf::new(32, false);
    let _ = wbuf.write_transport_message(&mut msg);
    ZBuf::from(wbuf).to_vec()
}

/// Relies on zenoh's `TransportMessage::make_keep_alive` and
/// `WBuf::write_transport_message`: a KeepAlive that names no peer is its
/// header byte alone, and a growable buffer takes it.
#[verifier::external_body]
pub(crate) fn write_keep_alive() -> (r: Vec<u8>)
    ensures
        r@ == seq![KEEP_ALIVE_ID],
{
    let mut msg = TransportMessage::make_keep_alive(None, None);
    let mut wbuf = WBuf::new(32, false);
    let _ = wbuf.write_transport_message(&mut msg);
    ZBuf::from(wbuf).to_vec()
}

/// Relies on rand's `thread_rng().fill_bytes`: `n` bytes drawn at random.
#[verifier::external_body]
pub(crate) fn random_bytes(n: usize) -> (r: Vec<u8>)
    ensures
        r@.len() == n,
{
    let mut bytes = vec![0u8; n];
    rand::thread_rng().fill_bytes(&mut bytes);
    bytes
}

pub fn kind_of_header(h: u8) -> (r: HeaderKind)
    ensures
        r == header_kind(h),
{
    let id = h & ID_MASK;
    if id == INIT_ID && h & FLAG_ACK == 0 {
        HeaderKind::InitSyn
    } else if id == OPEN_ID && h & FLAG_ACK == 0 {
        HeaderKind::OpenSyn
    } else if id == KEEP_ALIVE_ID {
        HeaderKind::KeepAlive
    } else {
        HeaderKind::Other
    }
}

/// Reads the variable-length integer at `pos`.
pub fn read_zint(b: &[u8], pos: usize) -> (r: Option<(u64, usize)>)
    ensures
        match zint_at(b@, pos as int) {
            None => r is None,
            Some((v, p)) => r == Some((v, p as usize)) && 0 <= p <= b@.len(),
        },
{
    let mut p: usize = pos;
    let mut shift: u64 = 0;
    let mut k: usize = ZINT_MAX_BYTES;
    let mut acc: u64 = 0;
    loop
        invariant
            pos <= p,
            p <= pos + 10 - k,
            k <= ZINT_MAX_BYTES,
            shift == 7 * (ZINT_MAX_BYTES - k),
            zint_at(b@, pos as int) == zint_from(b@, p as int, shift, k as nat, acc),
        decreases k,
    {
        if p >= b.len() {
            return None;
        }
        let c = b[p];
        if c > 0x7f && k > 0 {
            acc = acc | (((c & 0x7f) as u64) << shift);
            shift = shift + 7;
            p = p + 1;
            k = k - 1;
        } else if k > 0 {
            return Some((acc | (((c & 0x7f) as u64) << shift), p + 1));
        } else {
            return None;
        }
    }
}

fn message_is_decodable(b: &[u8]) -> (r: bool)
    ensures
        r == message_decodable(b@),
{
    if b.len() == 0 {
        return false;
    }
    match kind_of_header(b[0]) {
        HeaderKind::InitSyn => true,
        HeaderKind::KeepAlive => true,
        HeaderKind::Other => false,
        HeaderKind::OpenSyn => {
            let (lease, p1) = match read_zint(b, 1) {
                None => return false,
                Some(x) => x,
            };
            if b[0] & FLAG_LEASE_SECS != 0 && lease > u64::MAX / 1000 {
                return false;
            }
            let (_sn, p2) = match read_zint(b, p1) {
                None => return false,
                Some(x) => x,
            };
            match read_zint(b, p2) {
                None => false,
                Some((len, p3)) => len <= (b.len() - p3) as u64,
            }
        },
    }
}

/// Whether the handshake may hand `b` to the middleware's reader.
pub fn is_decodable(b: &[u8]) -> (r: bool)
    ensures
        r == decodable(b@),
{
    if b.len() > 0 && b[0] & ID_MASK == PRIORITY_ID {
        let m = &b[1..b.len()];
        proof {
            assert(m@ =~= b@.skip(1));
        }
        message_is_decodable(m)
    } else {
        message_is_decodable(b)
    }
}

/// Reads the message at the start of a received body.
pub fn read_message(b: &[u8]) -> (r: Inbound)
    ensures
        r == inbound_at(b@),
        b@.len() > 0 && header_kind(b@[0]) == HeaderKind::InitSyn ==> (r is InitSyn
            || r is Malformed),
        b@.len() > 0 && header_kind(b@[0]) == HeaderKind::KeepAlive && b@[0] & FLAG_ACK == 0
            ==> r == Inbound::KeepAlive,
        b@.len() > 0 && header_kind(b@[0]) == HeaderKind::OpenSyn ==> match open_syn_fields(b@) {
            Some((lease_ms, initial_sn)) => r == Inbound::OpenSyn { lease_ms, initial_sn },
            None => r is Malformed,
        },
{
    if is_decodable(b) {
        read_inbound(b)
    } else if b.len() > 0 && b[0] & ID_MASK == PRIORITY_ID && b.len() > 1 && kind_of_header(b[1])
        == HeaderKind::Other {
        Inbound::Other
    } else if b.len() > 0 && b[0] & ID_MASK != PRIORITY_ID && kind_of_header(b[0])
        == HeaderKind::Other {
        Inbound::Other
    } else {
        Inbound::Malformed
    }
}

/// A peer identifier of `size` bytes: the first `size` of the drawn bytes.
pub fn peer_id_from(drawn: &[u8], size: usize) -> (r: Vec<u8>)
    requires
        size <= drawn@.len(),
    ensures
        r@ == drawn@.subrange(0, size as int),
{
    let mut id: Vec<u8> = Vec::with_capacity(size);
    let mut i: usize = 0;
    while i < size
        invariant
            i <= size <= drawn@.len(),
            id@ == drawn@.subrange(0, i as int),
        decreases size - i,
    {
        id.push(drawn[i]);
        i = i + 1;
        proof {
            assert(id@ =~= drawn@.subrange(0, i as int));
        }
    }
    id
}

/// A fresh random peer identifier of `size` bytes, drawn once per process and
/// reused for every connection it makes.
pub fn local_peer_id(size: usize) -> (r: Vec<u8>)
    requires
        1 <= size <= MAX_PEER_ID,
    ensures
        r@.len() == size,
{
    let drawn = random_bytes(MAX_PEER_ID);
    peer_id_from(drawn.as_slice(), size)
}

} // verus!
