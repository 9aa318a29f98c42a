//! The connection state machine and the per-line replies.

use pdns_remote::{respond, step, CloseKind, ConnAction, ConnEvent, ConnState};

const TRUE_LINE: &[u8] = b"{\"result\":true}\n";
const FALSE_LINE: &[u8] = b"{\"result\":false}\n";

#[test]
fn respond_initialize_affirmative() {
    let out = respond(br#"{"method":"initialize", "parameters":{"path":"/path/to/socket"}}"#);
    assert_eq!(out, TRUE_LINE.to_vec());
    let with_timeout = respond(
        br#"{"method":"initialize", "parameters":{"path":"/path/to/socket", "timeout":"2000"}}"#,
    );
    assert_eq!(with_timeout, TRUE_LINE.to_vec());
}

#[test]
fn respond_lookup_negative() {
    let out = respond(
        br#"{"method":"lookup","parameters":{"qtype":"ANY","qname":"www.example.com.","zone-id":-1}}"#,
    );
    assert_eq!(out, FALSE_LINE.to_vec());
    let bare = respond(br#"{"method":"lookup","parameters":{"qtype":"A","qname":"x.","zone-id":0}}"#);
    assert_eq!(bare, FALSE_LINE.to_vec());
}

#[test]
fn respond_other_methods_negative() {
    let out = respond(br#"{"method":"getAllDomains","parameters":{"include_disabled":false}}"#);
    assert_eq!(out, FALSE_LINE.to_vec());
}

#[test]
fn respond_bad_lines_negative() {
    assert_eq!(respond(b"not json at all"), FALSE_LINE.to_vec());
    assert_eq!(
        respond(br#"{"method":"noSuchMethod","parameters":{}}"#),
        FALSE_LINE.to_vec()
    );
    assert_eq!(respond(b"{}"), FALSE_LINE.to_vec());
}

#[test]
fn connection_lifecycle_happy_path() {
    let (st, act) = step(ConnState::Accepted, ConnEvent::Start);
    assert_eq!(st, ConnState::ReadinessCheck);
    assert_eq!(act, ConnAction::WaitReady);

    let (st, act) = step(st, ConnEvent::Ready);
    assert_eq!(st, ConnState::Serving);
    assert_eq!(act, ConnAction::ReadLine);

    let line = br#"{"method":"initialize","parameters":{"path":"/s"}}"#.to_vec();
    let (st, act) = step(st, ConnEvent::Line(line));
    assert_eq!(st, ConnState::Replying);
    assert_eq!(act, ConnAction::Write(TRUE_LINE.to_vec()));

    let (st, act) = step(st, ConnEvent::Wrote);
    assert_eq!(st, ConnState::Serving);
    assert_eq!(act, ConnAction::ReadLine);

    let (st, act) = step(st, ConnEvent::Eof);
    assert_eq!(st, ConnState::Closed(CloseKind::Normal));
    assert_eq!(act, ConnAction::Stop);
}

#[test]
fn malformed_line_keeps_connection_open() {
    // A bad line is answered with the negative reply, the connection stays
    // up, and the next well-formed line is answered correctly.
    let (st, act) = step(ConnState::Serving, ConnEvent::Line(b"garbage".to_vec()));
    assert_eq!(st, ConnState::Replying);
    assert_eq!(act, ConnAction::Write(FALSE_LINE.to_vec()));

    let (st, _) = step(st, ConnEvent::Wrote);
    assert_eq!(st, ConnState::Serving);

    let good = br#"{"method":"initialize","parameters":{"path":"/s"}}"#.to_vec();
    let (st, act) = step(st, ConnEvent::Line(good));
    assert_eq!(st, ConnState::Replying);
    assert_eq!(act, ConnAction::Write(TRUE_LINE.to_vec()));
}

#[test]
fn idle_timeout_closes_without_error_or_reply() {
    let (st, act) = step(ConnState::Serving, ConnEvent::IdleTimeout);
    assert_eq!(st, ConnState::Closed(CloseKind::Normal));
    assert_eq!(act, ConnAction::Stop);
}

#[test]
fn readiness_timeout_closes_before_any_read() {
    let (st, act) = step(ConnState::ReadinessCheck, ConnEvent::ReadyTimeout);
    assert_eq!(st, ConnState::Closed(CloseKind::BrokenPipe));
    assert_eq!(act, ConnAction::Stop);
    // No event in the readiness state can make the machine write a reply.
    let (_, act) = step(ConnState::ReadinessCheck, ConnEvent::Eof);
    assert!(!matches!(act, ConnAction::Write(_)));
}

#[test]
fn write_failure_closes_with_io_error() {
    let (st, act) = step(ConnState::Replying, ConnEvent::WriteFailed);
    assert_eq!(st, ConnState::Closed(CloseKind::IoFailure));
    assert_eq!(act, ConnAction::Stop);
}

#[test]
fn closed_is_terminal() {
    let closed = ConnState::Closed(CloseKind::Normal);
    let (st, act) = step(closed, ConnEvent::Line(b"{}".to_vec()));
    assert_eq!(st, closed);
    assert_eq!(act, ConnAction::Stop);
}

#[test]
fn two_connections_lookup_concurrently() {
    // Two connections, each its own machine, send one lookup line each while
    // sharing one seeded store; both get the negative reply, in the order of
    // their own line, however the tasks interleave.
    let state = pdns_remote::State::new();
    state.seed("example".to_string(), 1);

    let rt = tokio::runtime::Builder::new_multi_thread()
        .worker_threads(2)
        .build()
        .unwrap();
    rt.block_on(async {
        let mut tasks = Vec::new();
        for _ in 0..2 {
            let st = state.clone();
            tasks.push(tokio::spawn(async move {
                let _ = st.get("example".to_string());
                let serving = {
                    let (s, _) = step(ConnState::Accepted, ConnEvent::Start);
                    let (s, _) = step(s, ConnEvent::Ready);
                    s
                };
                let line =
                    br#"{"method":"lookup","parameters":{"qtype":"ANY","qname":"www.example.com.","zone-id":-1}}"#
                        .to_vec();
                let (s, act) = step(serving, ConnEvent::Line(line));
                assert_eq!(s, ConnState::Replying);
                act
            }));
        }
        for t in tasks {
            let act = t.await.unwrap();
            assert_eq!(act, ConnAction::Write(FALSE_LINE.to_vec()));
        }
    });
    assert_eq!(state.get("example".to_string()), Some(1));
}
