use nlx_gateway::backoff::{
    retry_with, Backoff, Retry, INITIAL_INTERVAL_NANOS, LAST_GROWING_INTERVAL_NANOS,
    MAX_INTERVAL_NANOS,
};
use nlx_gateway::inway::reverse_proxy::{backend_url, copy_headers, Header, Request};
use nlx_gateway::path::{is_rooted, segment_at, tail_from};
use nlx_gateway::poller::{end_round, Poll, Poller, Round, POLL_INTERVAL_SECS};
use nlx_gateway::text::{
    ascii_lower_chars, chars_of, contains, ends_with_char, lower_char, occurs_at, same_text,
};
use nlx_gateway::text_map::TextMap;
use std::time::Duration;

fn chars(text: &str) -> Vec<char> {
    text.chars().collect()
}

#[test]
fn characters_of_a_text() {
    assert_eq!(chars_of("a\u{e9}z"), vec!['a', '\u{e9}', 'z']);
    assert!(chars_of("").is_empty());
}

#[test]
fn lower_case_of_ascii_letters() {
    assert_eq!(lower_char('A'), 'a');
    assert_eq!(lower_char('Z'), 'z');
    assert_eq!(lower_char('a'), 'a');
    assert_eq!(lower_char('@'), '@');
    assert_eq!(lower_char('['), '[');
    assert_eq!(lower_char('\u{c9}'), '\u{c9}');
    assert_eq!(ascii_lower_chars("Keep-ALIVE \u{c9}"), chars("keep-alive \u{c9}"));
}

#[test]
fn search_in_a_text() {
    let text = chars("a://b");
    assert!(contains(&text, &chars("://")));
    assert!(contains(&text, &chars("")));
    assert!(contains(&text, &chars("a://b")));
    assert!(!contains(&text, &chars("a://bc")));
    assert!(!contains(&text, &chars(":/b")));
    assert!(!contains(&chars(""), &chars("x")));
    assert!(contains(&chars(""), &chars("")));
    assert!(occurs_at(&text, &chars("://"), 1));
    assert!(!occurs_at(&text, &chars("://"), 0));
    assert!(!occurs_at(&text, &chars("://"), 3));
    assert!(occurs_at(&text, &chars(""), 5));
    assert!(!occurs_at(&text, &chars(""), 6));
    assert!(ends_with_char(&text, 'b'));
    assert!(!ends_with_char(&text, 'a'));
    assert!(!ends_with_char(&chars(""), 'a'));
    assert!(same_text("abc", "abc"));
    assert!(!same_text("abc", "abd"));
    assert!(!same_text("abc", "ab"));
    assert!(same_text("", ""));
}

#[test]
fn text_map_keeps_one_value_for_each_key() {
    let mut map: TextMap<u32> = TextMap::new();
    assert_eq!(map.len(), 0);
    assert_eq!(map.get("a"), None);
    assert!(!map.insert("a".to_string(), 1));
    assert!(!map.insert("b".to_string(), 2));
    assert!(map.insert("a".to_string(), 3));
    assert_eq!(map.len(), 2);
    assert_eq!(map.get("a"), Some(&3));
    assert_eq!(map.get("b"), Some(&2));
    assert_eq!(map.get("c"), None);
    assert!(map.contains_key("a"));
    assert!(!map.contains_key("A"));
    assert_eq!(map.key_at(0), "a");
    assert_eq!(*map.value_at(0), 3);
    assert_eq!(map.key_at(1), "b");
    let copy = map.clone();
    assert_eq!(copy.len(), 2);
    assert_eq!(copy.get("a"), Some(&3));
    assert_eq!(map.remove("a"), Some(3));
    assert_eq!(map.remove("a"), None);
    assert_eq!(map.len(), 1);
    assert_eq!(map.key_at(0), "b");
    assert_eq!(map.get("a"), None);
    assert_eq!(map.get("b"), Some(&2));
    assert_eq!(copy.get("a"), Some(&3));
}

#[test]
fn segments_of_a_path() {
    assert_eq!(segment_at("/svc-a/users", 1), Some(("svc-a".to_string(), 7)));
    assert_eq!(segment_at("/svc-a/users", 7), Some(("users".to_string(), 12)));
    assert_eq!(segment_at("/svc-a/users", 12), None);
    assert_eq!(segment_at("/svc-a/users", 13), None);
    assert_eq!(segment_at("/svc-a/users", 0), None);
    assert_eq!(segment_at("//x", 1), None);
    assert_eq!(segment_at("/d\u{e9}j\u{e0}/vu", 1), Some(("d\u{e9}j\u{e0}".to_string(), 6)));
    assert_eq!(tail_from("/svc-a/users/1", 7), "users/1");
    assert_eq!(tail_from("/svc-a", 6), "");
    assert_eq!(tail_from("/svc-a", 7), "");
    assert_eq!(tail_from("/d\u{e9}j\u{e0}/vu", 6), "vu");
    assert!(is_rooted("/"));
    assert!(is_rooted("/a"));
    assert!(!is_rooted(""));
    assert!(!is_rooted("a/"));
}

#[test]
fn failed_attempt_is_followed_by_a_growing_delay() {
    let mut backoff = Backoff::new();
    let mut lower = 250u64;
    let mut upper = 750u64;
    // each delay lies within half of the interval around the interval,
    // and the interval grows by half each time: 500 ms, 750 ms, 1125 ms
    for _ in 0..5 {
        match backoff.failed() {
            Retry::After(delay) => {
                let millis = delay.as_millis() as u64;
                assert!(lower <= millis && millis <= upper, "{} <= {} <= {}", lower, millis, upper);
            }
            Retry::AtOnce => panic!("the policy never gives up"),
        }
        lower = lower * 3 / 2;
        upper = upper * 3 / 2 + 1;
    }
}

#[test]
fn every_delay_fits_its_interval() {
    assert_eq!(INITIAL_INTERVAL_NANOS, 500_000_000);
    assert_eq!(MAX_INTERVAL_NANOS, 60_000_000_000);
    assert_eq!(LAST_GROWING_INTERVAL_NANOS, 40_000_000_000);
    let mut backoff = Backoff::new();
    let mut interval = INITIAL_INTERVAL_NANOS as u128;
    let mut intervals = Vec::new();
    for _ in 0..30 {
        intervals.push(interval);
        match backoff.failed() {
            Retry::After(delay) => {
                let nanos = delay.as_nanos();
                assert!(interval / 2 <= nanos, "{} in {}", nanos, interval);
                assert!(nanos <= interval + interval / 2 + 1, "{} in {}", nanos, interval);
            }
            Retry::AtOnce => panic!("the policy never gives up"),
        }
        interval = if interval >= LAST_GROWING_INTERVAL_NANOS as u128 {
            MAX_INTERVAL_NANOS as u128
        } else {
            interval + interval / 2
        };
    }
    assert_eq!(&intervals[..4], &[500_000_000, 750_000_000, 1_125_000_000, 1_687_500_000]);
    assert_eq!(intervals[29], 60_000_000_000);
}

#[test]
fn delay_never_exceeds_the_longest_interval() {
    let mut backoff = Backoff::new();
    for _ in 0..40 {
        match backoff.failed() {
            Retry::After(delay) => assert!(delay <= Duration::from_secs(90)),
            Retry::AtOnce => panic!("the policy never gives up"),
        }
    }
    // by now the interval is at its maximum of a minute
    match backoff.failed() {
        Retry::After(delay) => assert!(delay >= Duration::from_secs(30)),
        Retry::AtOnce => panic!("the policy never gives up"),
    }
}

#[test]
fn success_starts_the_policy_anew() {
    let mut backoff = Backoff::new();
    for _ in 0..10 {
        backoff.failed();
    }
    backoff.succeeded();
    match backoff.failed() {
        Retry::After(delay) => assert!(delay <= Duration::from_millis(750)),
        Retry::AtOnce => panic!("the policy never gives up"),
    }
}

#[test]
fn retry_follows_what_the_policy_says() {
    assert!(matches!(
        retry_with(Some(Duration::from_millis(500))),
        Retry::After(delay) if delay == Duration::from_millis(500)
    ));
    assert!(matches!(retry_with(None), Retry::AtOnce));
}

struct Counter {
    polls: u32,
    fail_at: u32,
}

impl Poll for Counter {
    type Error = String;

    fn poll(&mut self) -> Result<(), String> {
        self.polls += 1;
        if self.polls == self.fail_at {
            Err(format!("poll {} failed", self.polls))
        } else {
            Ok(())
        }
    }
}

#[test]
fn poller_asks_its_source_once_a_round() {
    assert_eq!(POLL_INTERVAL_SECS, 10);
    let mut poller = Poller::new(
        Counter { polls: 0, fail_at: 3 },
        Duration::from_secs(POLL_INTERVAL_SECS),
    );
    assert_eq!(poller.duration(), Duration::from_secs(10));
    assert_eq!(poller.poll(), Ok(()));
    assert_eq!(poller.poll(), Ok(()));
    assert_eq!(poller.poll(), Err("poll 3 failed".to_string()));
    assert_eq!(poller.poll(), Ok(()));
    assert_eq!(poller.duration(), Duration::from_secs(10));
}

#[test]
fn failed_round_is_followed_by_a_delay_and_a_good_one_starts_anew() {
    let mut poller = Poller::new(Counter { polls: 0, fail_at: 2 }, Duration::from_secs(10));
    let mut backoff = Backoff::new();
    for _ in 0..10 {
        backoff.failed();
    }
    // a good round starts the backoff anew
    assert!(matches!(poller.round(&mut backoff), Round::Polled));
    match poller.round(&mut backoff) {
        Round::Failed(error, Retry::After(delay)) => {
            assert_eq!(error, "poll 2 failed");
            assert!(delay <= Duration::from_millis(750));
        }
        _ => panic!("the second poll fails and is followed by a delay"),
    }
    assert!(matches!(poller.round(&mut backoff), Round::Polled));
    assert_eq!(poller.duration(), Duration::from_secs(10));
}

#[test]
fn round_ends_as_the_source_answered() {
    let mut backoff = Backoff::new();
    assert!(matches!(end_round(Ok::<(), String>(()), &mut backoff), Round::Polled));
    match end_round(Err("no answer".to_string()), &mut backoff) {
        Round::Failed(error, Retry::After(delay)) => {
            assert_eq!(error, "no answer");
            assert!(delay >= Duration::from_millis(250) && delay <= Duration::from_millis(750));
        }
        _ => panic!("a failure is handed on with a delay"),
    }
    // a success in between starts the backoff anew
    for _ in 0..10 {
        end_round(Err("no answer".to_string()), &mut backoff);
    }
    assert!(matches!(end_round(Ok::<(), String>(()), &mut backoff), Round::Polled));
    match end_round(Err("again".to_string()), &mut backoff) {
        Round::Failed(_, Retry::After(delay)) => assert!(delay <= Duration::from_millis(750)),
        _ => panic!("a failure is handed on with a delay"),
    }
}

fn header(name: &str, value: &str) -> Header {
    Header { name: name.to_string(), value: value.as_bytes().to_vec() }
}

fn pairs(headers: &[Header]) -> Vec<(String, String)> {
    headers
        .iter()
        .map(|h| (h.name.clone(), String::from_utf8(h.value.clone()).unwrap()))
        .collect()
}

fn pair(name: &str, value: &str) -> (String, String) {
    (name.to_string(), value.to_string())
}

#[test]
fn copy_headers_appends_what_is_not_hop_by_hop() {
    let mut dest = vec![header("x-first", "0")];
    copy_headers(
        vec![
            header("Connection", "close"),
            header("Accept", "a"),
            header("TE", "trailers"),
            header("accept", "b"),
            header("upgrade", "h2c"),
            header("Host", "inway"),
        ],
        &mut dest,
    );
    assert_eq!(
        pairs(&dest),
        vec![pair("x-first", "0"), pair("Accept", "a"), pair("accept", "b"), pair("Host", "inway")]
    );
    let mut untouched = vec![header("connection", "kept")];
    copy_headers(Vec::new(), &mut untouched);
    assert_eq!(pairs(&untouched), vec![pair("connection", "kept")]);
}

#[test]
fn backend_url_joins_the_path_to_the_base() {
    assert_eq!(backend_url("http://backend/", "users", "").unwrap(), "http://backend/users");
    assert_eq!(
        backend_url("http://backend/", "users", "id=1").unwrap(),
        "http://backend/users?id=1"
    );
    assert_eq!(backend_url("http://backend/api/", "users", "").unwrap(), "http://backend/api/users");
    // a base without a slash at its end loses its last segment
    assert_eq!(backend_url("http://backend/api", "users", "").unwrap(), "http://backend/users");
    assert_eq!(backend_url("http://backend/", "", "a=b&c=d").unwrap(), "http://backend/?a=b&c=d");
    assert_eq!(backend_url("http://backend/", "a b", "").unwrap(), "http://backend/a%20b");
}

#[test]
fn backend_url_refuses_a_base_that_is_no_url() {
    assert!(backend_url("backend", "users", "").is_err());
    assert!(backend_url("", "users", "id=1").is_err());
}

#[test]
fn request_for_the_backend() {
    let request = Request::new(
        http::Method::PUT,
        "users/1".to_string(),
        "force=1".to_string(),
        vec![header("Keep-Alive", "5"), header("content-type", "text/plain")],
        vec![1u8, 2, 3],
    );
    let parts = request.into_reqwest("http://backend/").unwrap();
    assert_eq!(parts.method, http::Method::PUT);
    assert_eq!(parts.url, "http://backend/users/1?force=1");
    assert_eq!(pairs(&parts.headers), vec![pair("content-type", "text/plain")]);
    assert_eq!(parts.body, vec![1u8, 2, 3]);

    let refused = Request::new(http::Method::GET, "x".to_string(), String::new(), Vec::new(), ());
    assert!(refused.into_reqwest("no url").is_err());
}
