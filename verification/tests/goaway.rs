use bytes::Bytes;
use http::{HeaderMap, Method};
use nlx_gateway::reverse_proxy::{
    is_h2_goaway_no_error, prepare, remove_hop_headers, Exchange, PreparedRequest, ProxyError,
    Request, Verdict,
};
use std::pin::Pin;
use std::sync::atomic::{AtomicUsize, Ordering};
use std::sync::Arc;
use std::task::{Context, Poll};
use tokio::io::{AsyncRead, AsyncReadExt, AsyncWrite, AsyncWriteExt, DuplexStream, ReadBuf};

const EMPTY_SETTINGS: [u8; 9] = [0, 0, 0, 4, 0, 0, 0, 0, 0];
const SETTINGS_ACK: [u8; 9] = [0, 0, 0, 4, 1, 0, 0, 0, 0];

// A GOAWAY frame: nothing was processed, and the code is `code`.
fn goaway(code: u8) -> [u8; 17] {
    [0, 0, 8, 7, 0, 0, 0, 0, 0, 0, 0, 0, 0, 0, 0, 0, code]
}

// Speaks just enough HTTP/2 to take a request in and to answer it with a
// GOAWAY frame that says that the request was not processed.
async fn refuse_with_goaway(mut socket: DuplexStream, code: u8) {
    socket.write_all(&EMPTY_SETTINGS).await.unwrap();
    let mut preface = [0u8; 24];
    socket.read_exact(&mut preface).await.unwrap();
    assert_eq!(&preface[..], &b"PRI * HTTP/2.0\r\n\r\nSM\r\n\r\n"[..]);
    loop {
        let mut head = [0u8; 9];
        socket.read_exact(&mut head).await.unwrap();
        let length = ((head[0] as usize) << 16) | ((head[1] as usize) << 8) | head[2] as usize;
        let mut payload = vec![0u8; length];
        socket.read_exact(&mut payload).await.unwrap();
        if head[3] == 1 {
            break;
        }
    }
    socket.write_all(&SETTINGS_ACK).await.unwrap();
    socket.write_all(&goaway(code)).await.unwrap();
    socket.flush().await.unwrap();
    // the client closes the connection once it has read the frame
    let mut rest = Vec::new();
    let _ = socket.read_to_end(&mut rest).await;
}

// Answers one request with 200 and the body "ok".
async fn answer_ok(socket: DuplexStream) {
    let mut connection = h2::server::handshake(socket).await.unwrap();
    while let Some(accepted) = connection.accept().await {
        let (request, mut respond) = match accepted {
            Ok(accepted) => accepted,
            Err(_) => break,
        };
        assert_eq!(request.uri().path(), "/users");
        assert!(request.headers().get("connection").is_none());
        assert_eq!(request.headers().get("x-kept").unwrap(), "yes");
        let response = http::Response::builder()
            .status(200)
            .header("x-answer", "1")
            .body(())
            .unwrap();
        let mut body = respond.send_response(response, false).unwrap();
        body.send_data(Bytes::from_static(b"ok"), true).unwrap();
    }
}

// One end of a connection in memory, as the client sees it.
struct Wire(DuplexStream);

impl AsyncRead for Wire {
    fn poll_read(
        mut self: Pin<&mut Self>,
        cx: &mut Context<'_>,
        buf: &mut ReadBuf<'_>,
    ) -> Poll<std::io::Result<()>> {
        Pin::new(&mut self.0).poll_read(cx, buf)
    }
}

impl AsyncWrite for Wire {
    fn poll_write(
        mut self: Pin<&mut Self>,
        cx: &mut Context<'_>,
        buf: &[u8],
    ) -> Poll<std::io::Result<usize>> {
        Pin::new(&mut self.0).poll_write(cx, buf)
    }

    fn poll_flush(mut self: Pin<&mut Self>, cx: &mut Context<'_>) -> Poll<std::io::Result<()>> {
        Pin::new(&mut self.0).poll_flush(cx)
    }

    fn poll_shutdown(mut self: Pin<&mut Self>, cx: &mut Context<'_>) -> Poll<std::io::Result<()>> {
        Pin::new(&mut self.0).poll_shutdown(cx)
    }
}

impl hyper::client::connect::Connection for Wire {
    fn connected(&self) -> hyper::client::connect::Connected {
        hyper::client::connect::Connected::new()
    }
}

// Connects to a server in memory that refuses the first `refusals`
// connections with a GOAWAY frame of the code `code` and answers the ones
// after them.
#[derive(Clone)]
struct Upstream {
    refusals: usize,
    code: u8,
    seen: Arc<AtomicUsize>,
}

impl hyper::service::Service<http::Uri> for Upstream {
    type Response = Wire;
    type Error = std::io::Error;
    type Future = std::future::Ready<Result<Wire, std::io::Error>>;

    fn poll_ready(&mut self, _: &mut Context<'_>) -> Poll<Result<(), Self::Error>> {
        Poll::Ready(Ok(()))
    }

    fn call(&mut self, _: http::Uri) -> Self::Future {
        let (near, far) = tokio::io::duplex(1 << 16);
        if self.seen.fetch_add(1, Ordering::SeqCst) < self.refusals {
            tokio::spawn(refuse_with_goaway(far, self.code));
        } else {
            tokio::spawn(answer_ok(far));
        }
        std::future::ready(Ok(Wire(near)))
    }
}

fn attempt(parts: &PreparedRequest) -> hyper::Request<hyper::Body> {
    let mut out = hyper::Request::new(hyper::Body::from(parts.body.clone()));
    *out.headers_mut() = parts.headers.clone();
    *out.method_mut() = parts.method.clone();
    *out.uri_mut() = parts.uri.clone();
    out
}

struct Outcome {
    attempts: usize,
    graceful: Vec<bool>,
    end: Result<(u16, HeaderMap, Bytes), ProxyError>,
}

// Sends one request as the gateway does: prepared once, and sent again as
// long as the exchange says so.
async fn exchange(refusals: usize, code: u8) -> Outcome {
    let upstream = "http://backend/";
    let seen = Arc::new(AtomicUsize::new(0));
    let client: hyper::Client<Upstream> = hyper::Client::builder()
        .http2_only(true)
        .build(Upstream { refusals, code, seen: Arc::clone(&seen) });
    let mut headers = HeaderMap::new();
    headers.insert("connection", "close".parse().unwrap());
    headers.insert("x-kept", "yes".parse().unwrap());
    headers.insert("host", "inway.example".parse().unwrap());
    let request =
        Request::new(Method::GET, "users".to_string(), String::new(), headers, Bytes::new());
    let mut exchange = Exchange::start(prepare(request, upstream).unwrap());
    let mut attempts = 0;
    let mut graceful = Vec::new();
    loop {
        attempts += 1;
        match client.request(attempt(exchange.prepared())).await {
            Ok(mut response) => {
                remove_hop_headers(response.headers_mut());
                let status = response.status().as_u16();
                let headers = response.headers().clone();
                let body = hyper::body::to_bytes(response.into_body()).await.unwrap();
                assert_eq!(seen.load(Ordering::SeqCst), attempts);
                return Outcome { attempts, graceful, end: Ok((status, headers, body)) };
            }
            Err(error) => {
                graceful.push(is_h2_goaway_no_error(&error));
                match exchange.on_error(error) {
                    Verdict::Retry(next) => exchange = next,
                    Verdict::Fail(error) => return Outcome { attempts, graceful, end: Err(error) },
                }
            }
        }
    }
}

fn run(refusals: usize, code: u8) -> Outcome {
    tokio::runtime::Builder::new_current_thread()
        .enable_all()
        .build()
        .unwrap()
        .block_on(exchange(refusals, code))
}

#[test]
fn goaway_twice_then_ok_takes_three_attempts() {
    let outcome = run(2, 0);
    assert_eq!(outcome.attempts, 3);
    assert_eq!(outcome.graceful, vec![true, true]);
    let (status, headers, body) = outcome.end.expect("the third attempt is answered");
    assert_eq!(status, 200);
    assert_eq!(body, Bytes::from_static(b"ok"));
    assert_eq!(headers.get("x-answer").unwrap(), "1");
}

#[test]
fn answer_at_once_takes_one_attempt() {
    let outcome = run(0, 0);
    assert_eq!(outcome.attempts, 1);
    assert!(outcome.graceful.is_empty());
    assert_eq!(outcome.end.unwrap().0, 200);
}

#[test]
fn goaway_three_times_ends_with_max_retries() {
    let outcome = run(3, 0);
    assert_eq!(outcome.attempts, 3);
    assert_eq!(outcome.graceful, vec![true, true, true]);
    assert!(matches!(outcome.end, Err(ProxyError::MaxRetries(_))));
}

#[test]
fn goaway_with_an_error_code_is_not_retried() {
    // the code 2 is INTERNAL_ERROR
    let outcome = run(1, 2);
    assert_eq!(outcome.attempts, 1);
    assert_eq!(outcome.graceful, vec![false]);
    assert!(matches!(outcome.end, Err(ProxyError::Hyper(_))));
}
