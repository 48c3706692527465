//! What each benchmark does with an incoming message: one tagged message type
//! and one table from handler to action, every other message ignored.
use crate::probe::{probe_seq, u64_from_le, SEQ_BYTES};
use vstd::prelude::*;

verus! {

/// A message handed to a benchmark by the middleware.
#[derive(Debug, Clone, PartialEq, Eq)]
pub enum Incoming {
    Data { payload: Vec<u8> },
    Query { qid: u64 },
    ReplyData { qid: u64, payload: Vec<u8> },
    ReplyFinal { qid: u64 },
    /// A declaration, a pull or a close.
    Other,
}

/// The benchmark that receives the messages.
#[derive(Debug, Clone, Copy, PartialEq, Eq, Structural)]
pub enum Handler {
    /// Matches each data reply to the probe it carries the number of; any
    /// other message is unexpected, as is data too short for a number.
    Ping,
    /// Sends each data message back unchanged.
    Pong,
    /// Answers each query with `reply_size` zero bytes; data and query replies
    /// are unexpected.
    Eval { reply_size: usize },
    /// Matches each query reply to its query id and lets the end of a query
    /// pass; any other message is unexpected.
    Query,
    /// Counts every message.
    Count,
}

#[derive(Debug, Clone, PartialEq, Eq)]
pub enum Action {
    /// Complete the pending entry numbered `seq`.
    Complete { seq: u64 },
    /// Publish `payload` on the reply resource.
    Echo { payload: Vec<u8> },
    /// Reply to query `qid` with `payload`, then close the query.
    Reply { qid: u64, payload: Vec<u8> },
    /// Add one to the message counter.
    Count,
    /// Nothing to do: a callback that the benchmark leaves alone.
    Ignore,
    /// A message that this benchmark never receives: a fatal protocol error.
    Unexpected,
}

/// Whether `a` is what `h` does with `m`.
pub open spec fn acts(h: Handler, m: Incoming, a: Action) -> bool {
    match (h, m) {
        (Handler::Count, _) => a == Action::Count,
        (Handler::Pong, Incoming::Other) => a == Action::Ignore,
        (Handler::Eval { .. }, Incoming::Other) => a == Action::Ignore,
        (Handler::Ping, Incoming::Data { payload }) => if payload@.len() >= SEQ_BYTES {
            a == Action::Complete { seq: u64_from_le(payload@) }
        } else {
            a == Action::Unexpected
        },
        (Handler::Pong, Incoming::Data { payload }) => match a {
            Action::Echo { payload: p } => p@ == payload@,
            _ => false,
        },
        (Handler::Pong, _) => a == Action::Ignore,
        (Handler::Eval { reply_size }, Incoming::Query { qid }) => match a {
            Action::Reply { qid: q, payload } => q == qid && payload@ == Seq::new(
                reply_size as nat,
                |_i: int| 0u8,
            ),
            _ => false,
        },
        (Handler::Query, Incoming::ReplyData { qid, .. }) => a == Action::Complete { seq: qid },
        (Handler::Query, Incoming::ReplyFinal { .. }) => a == Action::Ignore,
        _ => a == Action::Unexpected,
    }
}

fn zeros(n: usize) -> (r: Vec<u8>)
    ensures
        r@ == Seq::new(n as nat, |_i: int| 0u8),
{
    let mut r: Vec<u8> = Vec::with_capacity(n);
    let mut i: usize = 0;
    while i < n
        invariant
            i <= n,
            r@ == Seq::new(i as nat, |_j: int| 0u8),
        decreases n - i,
    {
        r.push(0u8);
        i = i + 1;
        proof {
            assert(r@ =~= Seq::new(i as nat, |_j: int| 0u8));
        }
    }
    r
}

/// Decides what `h` does with `m`.
pub fn dispatch(h: Handler, m: Incoming) -> (r: Action)
    ensures
        acts(h, m, r),
{
    match (h, m) {
        (Handler::Count, _) => Action::Count,
        (Handler::Pong, Incoming::Other) => Action::Ignore,
        (Handler::Eval { .. }, Incoming::Other) => Action::Ignore,
        (Handler::Ping, Incoming::Data { payload }) => match probe_seq(payload.as_slice()) {
            Some(seq) => Action::Complete { seq },
            None => Action::Unexpected,
        },
        (Handler::Pong, Incoming::Data { payload }) => Action::Echo { payload },
        (Handler::Pong, _) => Action::Ignore,
        (Handler::Eval { reply_size }, Incoming::Query { qid }) => Action::Reply {
            qid,
            payload: zeros(reply_size),
        },
        (Handler::Query, Incoming::ReplyData { qid, .. }) => Action::Complete { seq: qid },
        (Handler::Query, Incoming::ReplyFinal { .. }) => Action::Ignore,
        _ => Action::Unexpected,
    }
}

} // verus!
