//! The protocol over a real Unix domain socket: a minimal driver performs
//! the I/O that the library's verified state machine asks for, exactly as
//! the server binary does, and clients talk to it through tokio streams.

use std::time::{Duration, SystemTime, UNIX_EPOCH};

use tokio::io::{AsyncBufReadExt, AsyncReadExt, AsyncWriteExt, BufReader, BufWriter};
use tokio::net::{UnixListener, UnixStream};
use tokio::time::timeout;

use pdns_remote::{ConnAction, ConnEvent, ConnState};

/// A socket path that no other test uses.
fn fresh_socket_path(tag: &str) -> String {
    let nanos = SystemTime::now()
        .duration_since(UNIX_EPOCH)
        .unwrap()
        .as_nanos();
    format!("/tmp/pdns-remote-{}-{}.sock", tag, nanos)
}

/// Drives one accepted stream by the library's machine until it closes.
async fn drive_connection(stream: UnixStream, ready_window: Duration, idle_window: Duration) {
    let (read_half, write_half) = stream.into_split();
    let mut reader = BufReader::new(read_half);
    let mut writer = BufWriter::new(write_half);

    let (mut conn, mut action) = pdns_remote::step(ConnState::Accepted, ConnEvent::Start);
    loop {
        let event = match action {
            ConnAction::WaitReady => {
                let waited = timeout(ready_window, async {
                    reader.get_ref().readable().await?;
                    writer.get_ref().writable().await
                })
                .await;
                match waited {
                    Ok(Ok(())) => ConnEvent::Ready,
                    _ => ConnEvent::ReadyTimeout,
                }
            }
            ConnAction::ReadLine => {
                let mut buf: Vec<u8> = Vec::new();
                match timeout(idle_window, reader.read_until(b'\n', &mut buf)).await {
                    Err(_) => ConnEvent::IdleTimeout,
                    Ok(Err(_)) => ConnEvent::ReadFailed,
                    Ok(Ok(0)) => ConnEvent::Eof,
                    Ok(Ok(_)) => {
                        if buf.last() == Some(&b'\n') {
                            buf.pop();
                        }
                        ConnEvent::Line(buf)
                    }
                }
            }
            ConnAction::Write(bytes) => {
                let wrote = async {
                    writer.write_all(&bytes).await?;
                    writer.flush().await
                }
                .await;
                match wrote {
                    Ok(()) => ConnEvent::Wrote,
                    Err(_) => ConnEvent::WriteFailed,
                }
            }
            ConnAction::Stop => break,
        };
        let next = pdns_remote::step(conn, event);
        conn = next.0;
        action = next.1;
    }
}

/// Accepts connections forever, one driver task per connection.
async fn serve(listener: UnixListener, ready_window: Duration, idle_window: Duration) {
    loop {
        match listener.accept().await {
            Ok((stream, _)) => {
                tokio::spawn(drive_connection(stream, ready_window, idle_window));
            }
            Err(_) => {}
        }
    }
}

#[test]
fn one_connection_request_reply_in_order() {
    let path = fresh_socket_path("order");
    let rt = tokio::runtime::Builder::new_multi_thread()
        .worker_threads(2)
        .enable_all()
        .build()
        .unwrap();
    rt.block_on(async {
        let listener = UnixListener::bind(&path).unwrap();
        tokio::spawn(serve(
            listener,
            Duration::from_secs(5),
            Duration::from_secs(5),
        ));

        let stream = UnixStream::connect(&path).await.unwrap();
        let (read_half, write_half) = stream.into_split();
        let mut reader = BufReader::new(read_half);
        let mut writer = write_half;

        // A malformed line, then a well-formed initialize: the connection
        // survives the first and answers both, in order.
        writer.write_all(b"garbage\n").await.unwrap();
        writer
            .write_all(b"{\"method\":\"initialize\",\"parameters\":{\"path\":\"/s\"}}\n")
            .await
            .unwrap();
        writer.flush().await.unwrap();

        let mut first = String::new();
        reader.read_line(&mut first).await.unwrap();
        assert_eq!(first, "{\"result\":false}\n");

        let mut second = String::new();
        reader.read_line(&mut second).await.unwrap();
        assert_eq!(second, "{\"result\":true}\n");
    });
}

#[test]
fn idle_connection_is_closed_without_a_reply() {
    let path = fresh_socket_path("idle");
    let rt = tokio::runtime::Builder::new_multi_thread()
        .worker_threads(2)
        .enable_all()
        .build()
        .unwrap();
    rt.block_on(async {
        let listener = UnixListener::bind(&path).unwrap();
        tokio::spawn(serve(
            listener,
            Duration::from_secs(5),
            Duration::from_millis(300),
        ));

        let stream = UnixStream::connect(&path).await.unwrap();
        let (read_half, mut write_half) = stream.into_split();
        let mut reader = BufReader::new(read_half);

        // One request makes the stream ready and served...
        write_half
            .write_all(b"{\"method\":\"initialize\",\"parameters\":{\"path\":\"/s\"}}\n")
            .await
            .unwrap();
        write_half.flush().await.unwrap();
        let mut first = String::new();
        reader.read_line(&mut first).await.unwrap();
        assert_eq!(first, "{\"result\":true}\n");

        // ...then silence: within a few idle windows the server must close
        // the stream without sending anything more.
        let mut rest = String::new();
        let n = timeout(Duration::from_secs(5), reader.read_line(&mut rest))
            .await
            .expect("the server must close an idle connection")
            .unwrap();
        assert_eq!(n, 0);
        assert_eq!(rest, "");
    });
}

#[test]
fn two_connections_answer_independently() {
    let path = fresh_socket_path("pair");
    let rt = tokio::runtime::Builder::new_multi_thread()
        .worker_threads(4)
        .enable_all()
        .build()
        .unwrap();
    rt.block_on(async {
        let listener = UnixListener::bind(&path).unwrap();
        tokio::spawn(serve(
            listener,
            Duration::from_secs(5),
            Duration::from_secs(5),
        ));

        let mut clients = Vec::new();
        for _ in 0..2 {
            let path = path.clone();
            clients.push(tokio::spawn(async move {
                let stream = UnixStream::connect(&path).await.unwrap();
                let (read_half, mut write_half) = stream.into_split();
                let mut reader = BufReader::new(read_half);
                write_half
                    .write_all(
                        b"{\"method\":\"lookup\",\"parameters\":{\"qtype\":\"ANY\",\"qname\":\"www.example.com.\",\"zone-id\":-1}}\n",
                    )
                    .await
                    .unwrap();
                write_half.flush().await.unwrap();
                let mut line = String::new();
                reader.read_line(&mut line).await.unwrap();
                line
            }));
        }
        for c in clients {
            assert_eq!(c.await.unwrap(), "{\"result\":false}\n");
        }
    });
}

#[test]
fn never_ready_connection_is_closed_unanswered() {
    let path = fresh_socket_path("ready");
    let rt = tokio::runtime::Builder::new_multi_thread()
        .worker_threads(2)
        .enable_all()
        .build()
        .unwrap();
    rt.block_on(async {
        let listener = UnixListener::bind(&path).unwrap();
        tokio::spawn(serve(
            listener,
            Duration::from_millis(300),
            Duration::from_secs(5),
        ));

        // A client that never writes never makes the stream readable, so
        // the readiness window passes and the server drops the connection
        // without a single reply byte.
        let mut stream = UnixStream::connect(&path).await.unwrap();
        let mut buf = [0u8; 64];
        let n = timeout(Duration::from_secs(5), stream.read(&mut buf))
            .await
            .expect("the server must drop a never-ready connection")
            .unwrap();
        assert_eq!(n, 0);
    });
}
