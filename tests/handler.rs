use zbench::handler::{dispatch, Action, Handler, Incoming};
use zbench::probe::probe_payload;

#[test]
fn ping_completes_probe() {
    let p = probe_payload(12, 32).unwrap();
    assert_eq!(dispatch(Handler::Ping, Incoming::Data { payload: p }), Action::Complete { seq: 12 });
    assert_eq!(dispatch(Handler::Ping, Incoming::Data { payload: vec![1, 2] }), Action::Unexpected);
    assert_eq!(dispatch(Handler::Ping, Incoming::Query { qid: 1 }), Action::Unexpected);
    assert_eq!(dispatch(Handler::Ping, Incoming::ReplyFinal { qid: 1 }), Action::Unexpected);
    assert_eq!(dispatch(Handler::Ping, Incoming::Other), Action::Unexpected);
}

#[test]
fn pong_echoes() {
    assert_eq!(
        dispatch(Handler::Pong, Incoming::Data { payload: vec![4, 5, 6] }),
        Action::Echo { payload: vec![4, 5, 6] }
    );
    assert_eq!(dispatch(Handler::Pong, Incoming::ReplyFinal { qid: 2 }), Action::Ignore);
}

#[test]
fn eval_replies_with_zeros() {
    assert_eq!(
        dispatch(Handler::Eval { reply_size: 4 }, Incoming::Query { qid: 9 }),
        Action::Reply { qid: 9, payload: vec![0, 0, 0, 0] }
    );
    assert_eq!(dispatch(Handler::Eval { reply_size: 4 }, Incoming::Other), Action::Ignore);
    assert_eq!(
        dispatch(Handler::Eval { reply_size: 4 }, Incoming::Data { payload: vec![] }),
        Action::Unexpected
    );
}

#[test]
fn query_completes_by_qid() {
    assert_eq!(
        dispatch(Handler::Query, Incoming::ReplyData { qid: 3, payload: vec![] }),
        Action::Complete { seq: 3 }
    );
    assert_eq!(dispatch(Handler::Query, Incoming::ReplyFinal { qid: 3 }), Action::Ignore);
    assert_eq!(
        dispatch(Handler::Query, Incoming::Data { payload: vec![0; 8] }),
        Action::Unexpected
    );
    assert_eq!(dispatch(Handler::Query, Incoming::Query { qid: 3 }), Action::Unexpected);
    assert_eq!(dispatch(Handler::Query, Incoming::Other), Action::Unexpected);
    assert_eq!(dispatch(Handler::Pong, Incoming::Other), Action::Ignore);
}

#[test]
fn count_counts_everything() {
    assert_eq!(dispatch(Handler::Count, Incoming::Other), Action::Count);
    assert_eq!(dispatch(Handler::Count, Incoming::Query { qid: 0 }), Action::Count);
}
