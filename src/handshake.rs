//! The accepting side of the raw session handshake: InitSyn is answered with
//! InitAck, then OpenSyn with OpenAck, after which the session is established.
use crate::frame::{encode, fits, framed, FrameError, Framing};
use crate::wire::{
    inbound_at, init_ack_encoding, open_ack_encoding, read_message, write_init_ack,
    write_keep_alive, write_open_ack, Inbound,
    KEEP_ALIVE_ID, MAX_PEER_ID,
};
use vstd::prelude::*;

verus! {

/// Number of bytes of the cookie sent in an InitAck.
pub const COOKIE_LEN: usize = 8;

#[derive(Debug, Clone, Copy, PartialEq, Eq, Structural)]
pub enum HandshakeState {
    /// Waiting for the peer's InitSyn.
    Listening,
    /// InitAck sent, waiting for the peer's OpenSyn.
    AwaitOpenSyn,
    Established,
    Closed,
}

/// The answer to a handshake message.
#[derive(Debug, Clone, PartialEq, Eq)]
pub enum Reply {
    InitAck {
        whatami: u64,
        pid: Vec<u8>,
        sn_resolution: Option<u64>,
        is_qos: bool,
        cookie: Vec<u8>,
    },
    OpenAck { lease_ms: u64, initial_sn: u64 },
}

#[derive(Debug, Clone, Copy, PartialEq, Eq, Structural)]
pub enum HandshakeError {
    /// A message arrived that the state does not expect; the attempt is aborted.
    Unexpected { state: HandshakeState, received: Inbound },
}

/// The cookie sent in every InitAck: eight zero bytes.
pub open spec fn zero_cookie() -> Seq<u8> {
    Seq::new(COOKIE_LEN as nat, |_i: int| 0u8)
}

/// The state after `s` receives `m`.
pub open spec fn next_state(s: HandshakeState, m: Inbound) -> HandshakeState {
    match (s, m) {
        (HandshakeState::Listening, Inbound::InitSyn { .. }) => HandshakeState::AwaitOpenSyn,
        (HandshakeState::AwaitOpenSyn, Inbound::OpenSyn { .. }) => HandshakeState::Established,
        (HandshakeState::Listening, _) => HandshakeState::Closed,
        (HandshakeState::AwaitOpenSyn, _) => HandshakeState::Closed,
        (s, _) => s,
    }
}

/// The state reached from `s` by receiving `ms` in order.
pub open spec fn run(s: HandshakeState, ms: Seq<Inbound>) -> HandshakeState
    decreases ms.len(),
{
    if ms.len() == 0 {
        s
    } else {
        run(next_state(s, ms[0]), ms.skip(1))
    }
}

/// Accepting end of one session.
pub struct Handshake {
    state: HandshakeState,
    whatami: u64,
    pid: Vec<u8>,
}

impl Handshake {
    pub closed spec fn state_spec(&self) -> HandshakeState {
        self.state
    }

    /// The role announced in the InitAck.
    pub closed spec fn whatami_spec(&self) -> u64 {
        self.whatami
    }

    /// The identifier announced in the InitAck.
    pub closed spec fn pid_spec(&self) -> Seq<u8> {
        self.pid@
    }

    pub open spec fn wf(&self) -> bool {
        1 <= self.pid_spec().len() <= MAX_PEER_ID
    }

    /// What answering `m` returns.
    pub open spec fn answers(&self, m: Inbound, r: Result<Reply, HandshakeError>) -> bool {
        match (self.state_spec(), m) {
            (HandshakeState::Listening, Inbound::InitSyn { is_qos }) => match r {
                Ok(Reply::InitAck { whatami, pid, sn_resolution, is_qos: q, cookie }) => whatami
                    == self.whatami_spec() && pid@ == self.pid_spec() && sn_resolution is None && q
                    == is_qos && cookie@ == zero_cookie(),
                _ => false,
            },
            (HandshakeState::AwaitOpenSyn, Inbound::OpenSyn { lease_ms, initial_sn }) => r == Ok::<
                Reply,
                HandshakeError,
            >(Reply::OpenAck { lease_ms, initial_sn }),
            (s, _) => r == Err::<Reply, HandshakeError>(
                HandshakeError::Unexpected { state: s, received: m },
            ),
        }
    }

    /// Starts listening as a node of role `whatami` with identifier `pid`.
    pub fn new(whatami: u64, pid: Vec<u8>) -> (r: Self)
        requires
            1 <= pid@.len() <= MAX_PEER_ID,
        ensures
            r.wf(),
            r.state_spec() == HandshakeState::Listening,
            r.whatami_spec() == whatami,
            r.pid_spec() == pid@,
    {
        Handshake { state: HandshakeState::Listening, whatami, pid }
    }

    pub fn state(&self) -> (r: HandshakeState)
        ensures
            r == self.state_spec(),
    {
        self.state
    }

    pub fn is_established(&self) -> (r: bool)
        ensures
            r == (self.state_spec() == HandshakeState::Established),
    {
        match self.state {
            HandshakeState::Established => true,
            _ => false,
        }
    }

    /// Takes the next message of the peer and says what to send back.
    pub fn on_message(&mut self, m: Inbound) -> (r: Result<Reply, HandshakeError>)
        requires
            old(self).wf(),
        ensures
            final(self).wf(),
            old(self).answers(m, r),
            final(self).state_spec() == next_state(old(self).state_spec(), m),
            final(self).whatami_spec() == old(self).whatami_spec(),
            final(self).pid_spec() == old(self).pid_spec(),
    {
        match (self.state, m) {
            (HandshakeState::Listening, Inbound::InitSyn { is_qos }) => {
                self.state = HandshakeState::AwaitOpenSyn;
                let cookie = vec![0u8; COOKIE_LEN];
                proof {
                    assert(cookie@ =~= zero_cookie());
                }
                Ok(
                    Reply::InitAck {
                        whatami: self.whatami,
                        pid: self.pid.clone(),
                        sn_resolution: None,
                        is_qos,
                        cookie,
                    },
                )
            },
            (HandshakeState::AwaitOpenSyn, Inbound::OpenSyn { lease_ms, initial_sn }) => {
                self.state = HandshakeState::Established;
                Ok(Reply::OpenAck { lease_ms, initial_sn })
            },
            (s, _) => {
                match s {
                    HandshakeState::Listening | HandshakeState::AwaitOpenSyn => {
                        self.state = HandshakeState::Closed;
                    },
                    _ => {},
                }
                Err(HandshakeError::Unexpected { state: s, received: m })
            },
        }
    }

    /// Takes the body of the peer's next message, as the middleware's codec
    /// reads it, and says what to send back.
    pub fn on_bytes(&mut self, body: &[u8]) -> (r: Result<Reply, HandshakeError>)
        requires
            old(self).wf(),
        ensures
            final(self).wf(),
            old(self).answers(inbound_at(body@), r),
            final(self).state_spec() == next_state(old(self).state_spec(), inbound_at(body@)),
            final(self).whatami_spec() == old(self).whatami_spec(),
            final(self).pid_spec() == old(self).pid_spec(),
    {
        let m = read_message(body);
        self.on_message(m)
    }

    /// A read or write failed: the session is over.
    pub fn on_io_error(&mut self)
        ensures
            final(self).state_spec() == HandshakeState::Closed,
            final(self).whatami_spec() == old(self).whatami_spec(),
            final(self).pid_spec() == old(self).pid_spec(),
    {
        self.state = HandshakeState::Closed;
    }
}

/// The bytes of an InitAck, as the middleware encodes them.
pub fn init_ack_bytes(
    whatami: u64,
    pid: &[u8],
    sn_resolution: Option<u64>,
    is_qos: bool,
    cookie: &[u8],
) -> (r: Vec<u8>)
    requires
        pid@.len() <= MAX_PEER_ID,
    ensures
        r@ == init_ack_encoding(whatami, pid@, sn_resolution, is_qos, cookie@),
{
    write_init_ack(whatami, pid, sn_resolution, is_qos, cookie)
}

/// The middleware's encoding of `r`.
pub open spec fn reply_encoding(r: Reply) -> Seq<u8> {
    match r {
        Reply::InitAck { whatami, pid, sn_resolution, is_qos, cookie } => init_ack_encoding(
            whatami,
            pid@,
            sn_resolution,
            is_qos,
            cookie@,
        ),
        Reply::OpenAck { lease_ms, initial_sn } => open_ack_encoding(lease_ms, initial_sn),
    }
}

/// A reply whose peer identifier the middleware can carry.
pub open spec fn reply_pid_fits(r: Reply) -> bool {
    match r {
        Reply::InitAck { pid, .. } => pid@.len() <= MAX_PEER_ID,
        Reply::OpenAck { .. } => true,
    }
}

/// The bytes of `reply`, as the middleware encodes it.
pub fn reply_bytes(reply: &Reply) -> (r: Vec<u8>)
    requires
        reply_pid_fits(*reply),
    ensures
        r@ == reply_encoding(*reply),
{
    match reply {
        Reply::InitAck { whatami, pid, sn_resolution, is_qos, cookie } => write_init_ack(
            *whatami,
            pid.as_slice(),
            *sn_resolution,
            *is_qos,
            cookie.as_slice(),
        ),
        Reply::OpenAck { lease_ms, initial_sn } => write_open_ack(*lease_ms, *initial_sn),
    }
}

/// A reply put on the wire under `framing`.
pub fn frame_reply(framing: Framing, reply: &Reply) -> (r: Result<Vec<u8>, FrameError>)
    requires
        reply_pid_fits(*reply),
    ensures
        fits(framing, reply_encoding(*reply)) ==> (r matches Ok(f) && f@ == framed(
            framing,
            reply_encoding(*reply),
        )),
        !fits(framing, reply_encoding(*reply)) ==> r is Err,
{
    let body = reply_bytes(reply);
    encode(framing, body.as_slice())
}

/// The KeepAlive message put on the wire under `framing`.
pub fn keep_alive_frame(framing: Framing) -> (r: Vec<u8>)
    ensures
        r@ == framed(framing, seq![KEEP_ALIVE_ID]),
{
    let body = write_keep_alive();
    match encode(framing, body.as_slice()) {
        Ok(f) => f,
        Err(_) => {
            proof {
                assert(fits(framing, body@));
            }
            Vec::new()
        },
    }
}

/// Feeding a fresh handshake an InitSyn then an OpenSyn establishes the session.
pub proof fn lemma_handshake_in_order(is_qos: bool, lease_ms: u64, initial_sn: u64)
    ensures
        run(
            HandshakeState::Listening,
            seq![Inbound::InitSyn { is_qos }, Inbound::OpenSyn { lease_ms, initial_sn }],
        ) == HandshakeState::Established,
{
    reveal_with_fuel(run, 3);
    let ms = seq![Inbound::InitSyn { is_qos }, Inbound::OpenSyn { lease_ms, initial_sn }];
    assert(ms.skip(1) =~= seq![Inbound::OpenSyn { lease_ms, initial_sn }]);
    assert(ms.skip(1).skip(1) =~= Seq::<Inbound>::empty());
}

/// Once closed, a session stays closed whatever arrives.
pub proof fn lemma_closed_stays_closed(ms: Seq<Inbound>)
    ensures
        run(HandshakeState::Closed, ms) == HandshakeState::Closed,
    decreases ms.len(),
{
    if ms.len() > 0 {
        lemma_closed_stays_closed(ms.skip(1));
    }
}

/// A fresh handshake reaches `Established` only when its first two messages
/// are an InitSyn and then an OpenSyn; any other order aborts it.
pub proof fn lemma_handshake_order_required(ms: Seq<Inbound>)
    requires
        run(HandshakeState::Listening, ms) == HandshakeState::Established,
    ensures
        ms.len() >= 2,
        ms[0] is InitSyn,
        ms[1] is OpenSyn,
{
    reveal_with_fuel(run, 3);
    if ms.len() > 0 {
        let t = ms.skip(1);
        if !(ms[0] is InitSyn) {
            lemma_closed_stays_closed(t);
        } else if t.len() > 0 {
            assert(t[0] == ms[1]);
            if !(ms[1] is OpenSyn) {
                lemma_closed_stays_closed(t.skip(1));
            }
        }
    }
}

/// An OpenSyn before the InitSyn aborts the handshake.
pub proof fn lemma_open_before_init_aborts(is_qos: bool, lease_ms: u64, initial_sn: u64)
    ensures
        run(
            HandshakeState::Listening,
            seq![Inbound::OpenSyn { lease_ms, initial_sn }, Inbound::InitSyn { is_qos }],
        ) == HandshakeState::Closed,
{
    reveal_with_fuel(run, 3);
    let ms = seq![Inbound::OpenSyn { lease_ms, initial_sn }, Inbound::InitSyn { is_qos }];
    assert(ms.skip(1) =~= seq![Inbound::InitSyn { is_qos }]);
    assert(ms.skip(1).skip(1) =~= Seq::<Inbound>::empty());
}

} // verus!
