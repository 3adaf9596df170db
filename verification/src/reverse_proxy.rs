//! Preparing one incoming request for the upstream, and deciding what
//! follows a failed attempt.
//!
//! The request is prepared once: its URL is composed and parsed, and its
//! headers are copied without the hop-by-hop set and without `Host`. The
//! attempts that follow read the prepared parts and never change them.

use crate::text::{
    lemma_lower_of_lower_case, spec_ascii_lower, spec_eq_ignore_ascii_case, spec_no_ascii_upper,
};
use vstd::prelude::*;

verus! {

/// The header fields of an HTTP message, as the `http` crate keeps them.
#[verifier::external_type_specification]
#[verifier::external_body]
#[verifier::reject_recursive_types(T)]
pub struct ExHeaderMap<T>(http::HeaderMap<T>);

/// The value of one header field.
#[verifier::external_type_specification]
#[verifier::external_body]
pub struct ExHeaderValue(http::HeaderValue);

/// Header fields as plain values: from a name to the values of that name.
pub type Fields = Map<Seq<char>, Seq<Seq<u8>>>;

/// What a header map holds: each field name, in the lower case in which the
/// map keeps it, with the values of that name in the order in which they
/// were added.
pub uninterp spec fn header_fields(headers: http::HeaderMap<http::HeaderValue>) -> Fields;

/// The names that a proxy does not forward: they concern one hop only.
pub open spec fn hop_headers() -> Seq<Seq<char>> {
    seq![
        "connection"@,
        "keep-alive"@,
        "proxy-authenticate"@,
        "proxy-authorization"@,
        "te"@,
        "trailers"@,
        "transfer-encoding"@,
        "upgrade"@,
    ]
}

/// Whether a header name is hop-by-hop; the case of ASCII letters is ignored.
pub open spec fn spec_is_hop_header(name: Seq<char>) -> bool {
    hop_headers().contains(spec_ascii_lower(name))
}

/// Whether a header name is `Host`; the case of ASCII letters is ignored.
pub open spec fn spec_is_host_header(name: Seq<char>) -> bool {
    spec_eq_ignore_ascii_case(name, "host"@)
}

/// Every name in the map is in lower case.
pub open spec fn spec_lower_case_names(fields: Fields) -> bool {
    forall|name: Seq<char>| #[trigger] fields.dom().contains(name) ==> spec_no_ascii_upper(name)
}

/// The fields without the hop-by-hop ones.
pub open spec fn spec_strip_hop_headers(fields: Fields) -> Fields {
    fields.restrict(Set::new(|name: Seq<char>| !spec_is_hop_header(name)))
}

/// The fields that go to the upstream: neither hop-by-hop nor `Host`.
pub open spec fn spec_upstream_headers(fields: Fields) -> Fields {
    fields.restrict(
        Set::new(|name: Seq<char>| !spec_is_hop_header(name) && !spec_is_host_header(name)),
    )
}

/// The hop-by-hop names are written in lower case.
pub proof fn lemma_hop_headers_lower_case()
    ensures
        hop_headers().len() == 8,
        forall|i: int| 0 <= i < 8 ==> spec_no_ascii_upper(#[trigger] hop_headers()[i]),
        spec_no_ascii_upper("host"@),
{
    reveal_strlit("connection");
    reveal_strlit("keep-alive");
    reveal_strlit("proxy-authenticate");
    reveal_strlit("proxy-authorization");
    reveal_strlit("te");
    reveal_strlit("trailers");
    reveal_strlit("transfer-encoding");
    reveal_strlit("upgrade");
    reveal_strlit("host");
    assert(spec_no_ascii_upper(hop_headers()[0]));
    assert(spec_no_ascii_upper(hop_headers()[1]));
    assert(spec_no_ascii_upper(hop_headers()[2]));
    assert(spec_no_ascii_upper(hop_headers()[3]));
    assert(spec_no_ascii_upper(hop_headers()[4]));
    assert(spec_no_ascii_upper(hop_headers()[5]));
    assert(spec_no_ascii_upper(hop_headers()[6]));
    assert(spec_no_ascii_upper(hop_headers()[7]));
}

/// No hop-by-hop field is forwarded, whatever the case of its name, and
/// every other field is forwarded as it is.
pub proof fn lemma_hop_headers_not_forwarded(fields: Fields, name: Seq<char>)
    ensures
        spec_is_hop_header(name) ==> !spec_strip_hop_headers(fields).dom().contains(name),
        spec_is_hop_header(name) ==> !spec_upstream_headers(fields).dom().contains(name),
        spec_is_host_header(name) ==> !spec_upstream_headers(fields).dom().contains(name),
        !spec_is_hop_header(name) && fields.dom().contains(name) ==> spec_strip_hop_headers(
            fields,
        ).dom().contains(name) && spec_strip_hop_headers(fields)[name] == fields[name],
        !spec_is_hop_header(name) && !spec_is_host_header(name) && fields.dom().contains(name)
            ==> spec_upstream_headers(fields).dom().contains(name) && spec_upstream_headers(
            fields,
        )[name] == fields[name],
{
}

/// The hop-by-hop names, for the executable code.
pub fn hop_header_names() -> (names: Vec<&'static str>)
    ensures
        names@.len() == hop_headers().len(),
        forall|i: int| 0 <= i < names@.len() ==> (#[trigger] names@[i])@ == hop_headers()[i],
{
    let mut names: Vec<&'static str> = Vec::new();
    names.push("connection");
    names.push("keep-alive");
    names.push("proxy-authenticate");
    names.push("proxy-authorization");
    names.push("te");
    names.push("trailers");
    names.push("transfer-encoding");
    names.push("upgrade");
    names
}

/// `HeaderMap::new` of the `http` crate: a map that holds no field.
#[verifier::external_body]
fn new_headers() -> (headers: http::HeaderMap<http::HeaderValue>)
    ensures
        header_fields(headers) == Fields::empty(),
{
    http::HeaderMap::new()
}

/// `HeaderMap::clone` of the `http` crate: the copy holds the fields of the
/// map it was made from.
#[verifier::external_body]
fn clone_headers(headers: &http::HeaderMap<http::HeaderValue>) -> (copy: http::HeaderMap<
    http::HeaderValue,
>)
    ensures
        header_fields(copy) == header_fields(*headers),
{
    headers.clone()
}

/// `HeaderMap::remove` of the `http` crate, called with a name in lower
/// case: every value of that name leaves the map and the other fields stay.
/// The names that a map keeps are in lower case.
#[verifier::external_body]
fn remove_header(headers: &mut http::HeaderMap<http::HeaderValue>, name: &str)
    requires
        spec_no_ascii_upper(name@),
    ensures
        header_fields(*final(headers)) == header_fields(*old(headers)).remove(name@),
        spec_lower_case_names(header_fields(*final(headers))),
{
    headers.remove(name);
}

/// Removes the hop-by-hop fields from a header map and leaves every other
/// field as it was.
pub fn remove_hop_headers(headers: &mut http::HeaderMap<http::HeaderValue>)
    ensures
        header_fields(*final(headers)) == spec_strip_hop_headers(header_fields(*old(headers))),
        spec_lower_case_names(header_fields(*final(headers))),
        spec_lower_case_names(header_fields(*old(headers))),
{
    let names = hop_header_names();
    let ghost before = header_fields(*headers);
    proof {
        lemma_hop_headers_lower_case();
    }
    let mut k: usize = 0;
    while k < names.len()
        invariant
            k <= names@.len(),
            names@.len() == hop_headers().len(),
            hop_headers().len() == 8,
            forall|i: int| 0 <= i < names@.len() ==> (#[trigger] names@[i])@ == hop_headers()[i],
            forall|i: int| 0 <= i < 8 ==> spec_no_ascii_upper(#[trigger] hop_headers()[i]),
            header_fields(*headers) == before.remove_keys(
                Set::new(|name: Seq<char>| exists|i: int| 0 <= i < k && hop_headers()[i] == name),
            ),
            k > 0 ==> spec_lower_case_names(header_fields(*headers)),
        decreases names@.len() - k,
    {
        let ghost done = Set::new(
            |name: Seq<char>| exists|i: int| 0 <= i < k && hop_headers()[i] == name,
        );
        let ghost next = Set::new(
            |name: Seq<char>| exists|i: int| 0 <= i < k + 1 && hop_headers()[i] == name,
        );
        assert(spec_no_ascii_upper(hop_headers()[k as int]));
        remove_header(headers, names[k]);
        proof {
            assert(next.contains(hop_headers()[k as int]));
            assert forall|name: Seq<char>| next.contains(name) <==> (done.contains(name) || name
                == hop_headers()[k as int]) by {
                if done.contains(name) {
                    let i = choose|i: int| 0 <= i < k && hop_headers()[i] == name;
                    assert(0 <= i < k + 1 && hop_headers()[i] == name);
                }
            }
            assert(before.remove_keys(done).remove(hop_headers()[k as int]) =~= before.remove_keys(
                next,
            ));
        }
        k += 1;
    }
    proof {
        let removed = Set::new(
            |name: Seq<char>| exists|i: int| 0 <= i < 8 && hop_headers()[i] == name,
        );
        assert forall|name: Seq<char>| #[trigger] before.dom().contains(name) implies spec_no_ascii_upper(
            name,
        ) by {
            if removed.contains(name) {
                let i = choose|i: int| 0 <= i < 8 && hop_headers()[i] == name;
                assert(spec_no_ascii_upper(hop_headers()[i]));
            } else {
                assert(before.remove_keys(removed).dom().contains(name));
            }
        }
        assert forall|name: Seq<char>| before.dom().contains(name) implies (removed.contains(name)
            <==> spec_is_hop_header(name)) by {
            lemma_lower_of_lower_case(name);
            if removed.contains(name) {
                let i = choose|i: int| 0 <= i < 8 && hop_headers()[i] == name;
                assert(hop_headers()[i] == name);
            }
            if spec_is_hop_header(name) {
                let i = choose|i: int| 0 <= i < hop_headers().len() && hop_headers()[i] == name;
                assert(0 <= i < 8 && hop_headers()[i] == name);
            }
        }
        assert(before.remove_keys(removed) =~= spec_strip_hop_headers(before));
    }
}

/// Replaces `dest` by `headers` without the hop-by-hop fields.
pub fn copy_headers(
    headers: http::HeaderMap<http::HeaderValue>,
    dest: &mut http::HeaderMap<http::HeaderValue>,
)
    ensures
        header_fields(*final(dest)) == spec_strip_hop_headers(header_fields(headers)),
        spec_lower_case_names(header_fields(headers)),
{
    *dest = headers;
    remove_hop_headers(dest);
}

/// The method of an HTTP request.
#[verifier::external_type_specification]
#[verifier::external_body]
pub struct ExMethod(http::Method);

/// A parsed request target.
#[verifier::external_type_specification]
#[verifier::external_body]
pub struct ExUri(http::Uri);

/// Why a text is no request target.
#[verifier::external_type_specification]
#[verifier::external_body]
pub struct ExInvalidUri(http::uri::InvalidUri);

/// The bytes of a message body, shared without copying.
#[verifier::external_type_specification]
#[verifier::external_body]
pub struct ExBytes(bytes::Bytes);

/// The error of an HTTP client call.
#[verifier::external_type_specification]
#[verifier::external_body]
pub struct ExHyperError(hyper::Error);

/// How often one request is sent to the upstream at most.
pub const MAX_RETRIES: usize = 3;

/// The HTTP/2 error code `NO_ERROR`.
pub const H2_NO_ERROR: u32 = 0;

/// Why a request could not be prepared.
#[derive(Debug)]
pub enum IntoRequestError {
    /// The composed URL is no valid request target.
    InvalidUri(http::uri::InvalidUri),
}

/// Why a prepared request got no response.
#[derive(Debug)]
pub enum ProxyError {
    /// The client call failed and is not tried again.
    Hyper(hyper::Error),
    /// The last attempt that was allowed failed like the ones before it.
    MaxRetries(hyper::Error),
}

/// An incoming request as the listener hands it over: the method, the part
/// of the path behind the matched prefix, the raw query string, the headers
/// and the body.
pub struct Request {
    method: http::Method,
    path: String,
    query: String,
    headers: http::HeaderMap<http::HeaderValue>,
    body: bytes::Bytes,
}

impl Request {
    /// The method.
    pub closed spec fn spec_method(&self) -> http::Method {
        self.method
    }

    /// The path tail, as text.
    pub closed spec fn spec_path(&self) -> Seq<char> {
        self.path@
    }

    /// The query string, as text; empty where the request had none.
    pub closed spec fn spec_query(&self) -> Seq<char> {
        self.query@
    }

    /// The header fields.
    pub closed spec fn spec_headers(&self) -> Fields {
        header_fields(self.headers)
    }

    /// The body.
    pub closed spec fn spec_body(&self) -> bytes::Bytes {
        self.body
    }

    /// Puts the parts of an incoming request together.
    pub fn new(
        method: http::Method,
        path: String,
        query: String,
        headers: http::HeaderMap<http::HeaderValue>,
        body: bytes::Bytes,
    ) -> (request: Self)
        ensures
            request.spec_method() == method,
            request.spec_path() == path@,
            request.spec_query() == query@,
            request.spec_headers() == header_fields(headers),
            request.spec_body() == body,
    {
        Self { method, path, query, headers, body }
    }

    /// The path tail.
    pub fn path(&self) -> (path: &str)
        ensures
            path@ == self.spec_path(),
    {
        self.path.as_str()
    }

    /// The query string.
    pub fn query(&self) -> (query: &str)
        ensures
            query@ == self.spec_query(),
    {
        self.query.as_str()
    }

    /// The method.
    pub fn method(&self) -> (method: &http::Method)
        ensures
            *method == self.spec_method(),
    {
        &self.method
    }

    /// The body.
    pub fn body(&self) -> (body: &bytes::Bytes)
        ensures
            *body == self.spec_body(),
    {
        &self.body
    }
}

/// The URL of the upstream request: the base, the path tail and, where the
/// query is not empty, `?` and the query.
pub open spec fn spec_upstream_url(upstream: Seq<char>, path: Seq<char>, query: Seq<char>) -> Seq<
    char,
> {
    if query.len() == 0 {
        upstream + path
    } else {
        upstream + path + seq!['?'] + query
    }
}

/// Composes the URL of the upstream request as text.
pub fn compose_url(upstream: &str, path: &str, query: &str) -> (url: String)
    ensures
        url@ == spec_upstream_url(upstream@, path@, query@),
{
    let mut url = String::from_str(upstream);
    url.append(path);
    if !query.is_empty() {
        proof {
            reveal_strlit("?");
            assert("?"@ =~= seq!['?']);
        }
        url.append("?");
        url.append(query);
    }
    url
}

/// What the `http` crate makes of a text that is to be a request target:
/// the parsed target, or the reason for which it is refused.
pub uninterp spec fn uri_parse_result(text: Seq<char>) -> Result<http::Uri, http::uri::InvalidUri>;

/// `Uri::try_from` of the `http` crate on an owned string: the result is a
/// function of the text alone.
#[verifier::external_body]
fn parse_uri(text: String) -> (parsed: Result<http::Uri, http::uri::InvalidUri>)
    ensures
        parsed == uri_parse_result(text@),
{
    http::Uri::try_from(text)
}

/// Composes the URL of the upstream request and parses it.
pub fn build_uri(req: &Request, upstream: &str) -> (uri: Result<http::Uri, http::uri::InvalidUri>)
    ensures
        uri == uri_parse_result(spec_upstream_url(upstream@, req.spec_path(), req.spec_query())),
{
    let url = compose_url(upstream, req.path.as_str(), req.query.as_str());
    parse_uri(url)
}

/// The headers of the upstream request: those of the incoming one without
/// the hop-by-hop fields and without `Host`, which the client sets itself.
pub fn prepare_headers(req: &Request) -> (headers: http::HeaderMap<http::HeaderValue>)
    ensures
        header_fields(headers) == spec_upstream_headers(req.spec_headers()),
{
    let mut headers = new_headers();
    copy_headers(clone_headers(&req.headers), &mut headers);
    proof {
        lemma_hop_headers_lower_case();
    }
    remove_header(&mut headers, "host");
    proof {
        let before = req.spec_headers();
        assert forall|name: Seq<char>| before.dom().contains(name) implies (spec_is_host_header(
            name,
        ) <==> name == "host"@) by {
            lemma_lower_of_lower_case(name);
            lemma_lower_of_lower_case("host"@);
        }
        assert(spec_strip_hop_headers(before).remove("host"@) =~= spec_upstream_headers(before));
    }
    headers
}

/// The parts of the upstream request. They are made once, before the first
/// attempt, and every attempt reads them.
pub struct PreparedRequest {
    pub method: http::Method,
    pub uri: http::Uri,
    pub headers: http::HeaderMap<http::HeaderValue>,
    pub body: bytes::Bytes,
}

/// What preparing a request gives, for each outcome of parsing its URL.
pub open spec fn spec_prepared(
    request: Request,
    parsed: Result<http::Uri, http::uri::InvalidUri>,
    prepared: Result<PreparedRequest, IntoRequestError>,
) -> bool {
    match parsed {
        Ok(uri) => {
            &&& prepared matches Ok(parts)
            &&& parts.uri == uri
            &&& parts.method == request.spec_method()
            &&& parts.body == request.spec_body()
            &&& header_fields(parts.headers) == spec_upstream_headers(request.spec_headers())
        },
        Err(reason) => prepared == Err::<PreparedRequest, IntoRequestError>(
            IntoRequestError::InvalidUri(reason),
        ),
    }
}

/// Prepares the upstream request: the URL is composed from the base, the
/// path tail and the query and then parsed; the headers lose the hop-by-hop
/// fields and `Host`; method and body pass unchanged. A URL that does not
/// parse is refused.
pub fn prepare(request: Request, upstream: &str) -> (prepared: Result<
    PreparedRequest,
    IntoRequestError,
>)
    ensures
        spec_prepared(
            request,
            uri_parse_result(
                spec_upstream_url(upstream@, request.spec_path(), request.spec_query()),
            ),
            prepared,
        ),
{
    match build_uri(&request, upstream) {
        Ok(uri) => {
            let headers = prepare_headers(&request);
            Ok(PreparedRequest { method: request.method, uri, headers, body: request.body })
        },
        Err(reason) => Err(IntoRequestError::InvalidUri(reason)),
    }
}

/// What an HTTP/2 error says of itself: whether it stands for a `GOAWAY`
/// frame, whether the remote side sent it, and the error code it carries.
#[derive(Debug, Clone, Copy)]
pub struct H2Cause {
    pub go_away: bool,
    pub remote: bool,
    pub reason: Option<u32>,
}

/// The chain of causes of a `hyper` error, from its own source downwards:
/// for each cause that is an `h2` error what that error says of itself,
/// and `None` for each other cause.
pub uninterp spec fn h2_causes_of(error: hyper::Error) -> Seq<Option<H2Cause>>;

/// `Error::source` of a `hyper` error and of each cause below it, each
/// read as an `h2` error where it is one, with `is_go_away`, `is_remote`
/// and `reason` of that error as plain values. The chain is a function of
/// the error alone.
#[verifier::external_body]
fn h2_causes(error: &hyper::Error) -> (causes: Vec<Option<H2Cause>>)
    ensures
        causes@ == h2_causes_of(*error),
{
    std::iter::successors(std::error::Error::source(error), |cause| cause.source())
        .map(|cause| {
            cause.downcast_ref::<h2::Error>().map(|h2| H2Cause {
                go_away: h2.is_go_away(),
                remote: h2.is_remote(),
                reason: h2.reason().map(u32::from),
            })
        })
        .collect()
}

/// A connection that the remote side closed gracefully: a `GOAWAY` frame,
/// received from the remote, with the code `NO_ERROR`.
pub open spec fn spec_is_goaway_no_error(cause: Option<H2Cause>) -> bool {
    match cause {
        Some(h2) => h2.go_away && h2.remote && h2.reason == Some(H2_NO_ERROR),
        None => false,
    }
}

/// Tells whether the cause of a failed attempt is a graceful shutdown of
/// the connection by the remote side.
pub fn is_goaway_no_error(cause: &Option<H2Cause>) -> (graceful: bool)
    ensures
        graceful == spec_is_goaway_no_error(*cause),
{
    match cause {
        Some(h2) => {
            let code_is_no_error = match h2.reason {
                Some(code) => code == H2_NO_ERROR,
                None => false,
            };
            h2.go_away && h2.remote && code_is_no_error
        },
        None => false,
    }
}

/// A chain of causes holds a graceful shutdown of the connection by the
/// remote side.
pub open spec fn spec_has_goaway_no_error(causes: Seq<Option<H2Cause>>) -> bool {
    exists|i: int| 0 <= i < causes.len() && spec_is_goaway_no_error(#[trigger] causes[i])
}

/// Tells whether a chain of causes holds a graceful shutdown of the
/// connection by the remote side.
pub fn has_goaway_no_error(causes: &Vec<Option<H2Cause>>) -> (graceful: bool)
    ensures
        graceful == spec_has_goaway_no_error(causes@),
{
    let mut at: usize = 0;
    while at < causes.len()
        invariant
            at <= causes@.len(),
            forall|i: int| 0 <= i < at ==> !spec_is_goaway_no_error(#[trigger] causes@[i]),
        decreases causes@.len() - at,
    {
        if is_goaway_no_error(&causes[at]) {
            return true;
        }
        at += 1;
    }
    false
}

/// Tells whether a client error stems from a graceful shutdown of the
/// HTTP/2 connection by the remote side: whether the chain of its causes
/// holds a `GOAWAY` frame from the remote with the code `NO_ERROR`.
pub fn is_h2_goaway_no_error(error: &hyper::Error) -> (graceful: bool)
    ensures
        graceful == spec_has_goaway_no_error(h2_causes_of(*error)),
{
    let causes = h2_causes(error);
    has_goaway_no_error(&causes)
}

/// One request on its way to the upstream: the prepared parts and the
/// number of attempts that are still allowed, the current one included.
pub struct Exchange {
    prepared: PreparedRequest,
    retries: usize,
}

/// What follows a failed attempt.
pub enum Verdict {
    /// The same prepared request is sent again.
    Retry(Exchange),
    /// The error goes to the client.
    Fail(ProxyError),
}

/// The attempts left after a failed one, or `None` where the exchange ends:
/// only a graceful shutdown is tried again, and only while an attempt is
/// left behind the current one.
pub open spec fn spec_attempts_after_failure(left: nat, graceful: bool) -> Option<nat> {
    if graceful && left > 1 {
        Some((left - 1) as nat)
    } else {
        None
    }
}

/// The number of attempts that an exchange with `left` allowed attempts
/// makes when its attempts fail as `failures` says, one entry for each
/// failed attempt: `true` for a graceful shutdown, `false` for any other
/// error. The attempt behind the last entry succeeds.
pub open spec fn spec_attempts_made(left: nat, failures: Seq<bool>) -> nat
    decreases failures.len(),
{
    if left == 0 {
        0
    } else if failures.len() == 0 {
        1
    } else {
        match spec_attempts_after_failure(left, failures[0]) {
            Some(rest) => 1 + spec_attempts_made(rest, failures.drop_first()),
            None => 1,
        }
    }
}

impl Exchange {
    #[verifier::type_invariant]
    spec fn well_formed(self) -> bool {
        1 <= self.retries <= MAX_RETRIES
    }

    /// The prepared parts.
    pub closed spec fn spec_prepared_request(&self) -> PreparedRequest {
        self.prepared
    }

    /// The attempts still allowed, the current one included.
    pub closed spec fn spec_attempts_left(&self) -> nat {
        self.retries as nat
    }

    /// Starts an exchange with all its attempts left.
    pub fn start(prepared: PreparedRequest) -> (exchange: Self)
        ensures
            exchange.spec_prepared_request() == prepared,
            exchange.spec_attempts_left() == MAX_RETRIES,
    {
        Exchange { prepared, retries: MAX_RETRIES }
    }

    /// The prepared parts, to read for an attempt.
    pub fn prepared(&self) -> (prepared: &PreparedRequest)
        ensures
            *prepared == self.spec_prepared_request(),
    {
        &self.prepared
    }

    /// The attempts still allowed, the current one included: between 1 and
    /// `MAX_RETRIES`.
    pub fn attempts_left(&self) -> (left: usize)
        ensures
            left == self.spec_attempts_left(),
            1 <= left <= MAX_RETRIES,
    {
        proof {
            use_type_invariant(self);
        }
        self.retries
    }

    /// What follows a failed attempt. A graceful shutdown is tried again
    /// with the same prepared parts and one attempt less while an attempt
    /// is left behind the current one; when none is left the error is
    /// returned as `MaxRetries`. Any other error is returned as `Hyper`.
    pub open spec fn spec_after_failure(
        self,
        graceful: bool,
        error: hyper::Error,
        verdict: Verdict,
    ) -> bool {
        match verdict {
            Verdict::Retry(next) => {
                &&& spec_attempts_after_failure(self.spec_attempts_left(), graceful) == Some(
                    next.spec_attempts_left(),
                )
                &&& next.spec_prepared_request() == self.spec_prepared_request()
            },
            Verdict::Fail(ProxyError::MaxRetries(cause)) => {
                &&& graceful
                &&& self.spec_attempts_left() == 1
                &&& cause == error
            },
            Verdict::Fail(ProxyError::Hyper(cause)) => !graceful && cause == error,
        }
    }

    /// Decides what follows a failed attempt. A graceful shutdown is tried
    /// again with the same prepared parts while an attempt is left; when
    /// none is left the error is returned as `MaxRetries`. Any other error
    /// is returned as `Hyper` at once.
    pub fn after_failure(self, graceful: bool, error: hyper::Error) -> (verdict: Verdict)
        ensures
            self.spec_after_failure(graceful, error, verdict),
    {
        proof {
            use_type_invariant(&self);
        }
        if graceful {
            let retries = self.retries - 1;
            if retries == 0 {
                return Verdict::Fail(ProxyError::MaxRetries(error));
            }
            return Verdict::Retry(Exchange { prepared: self.prepared, retries });
        }
        Verdict::Fail(ProxyError::Hyper(error))
    }

    /// Decides what follows an attempt that failed with `error`: it goes on
    /// as `after_failure` says, and the failure counts as a graceful
    /// shutdown where the chain of causes of the error holds a `GOAWAY`
    /// frame from the remote with the code `NO_ERROR`.
    pub fn on_error(self, error: hyper::Error) -> (verdict: Verdict)
        ensures
            self.spec_after_failure(
                spec_has_goaway_no_error(h2_causes_of(error)),
                error,
                verdict,
            ),
    {
        let graceful = is_h2_goaway_no_error(&error);
        self.after_failure(graceful, error)
    }
}

/// An exchange never makes more attempts than it has left when it starts,
/// however its attempts fail: one that starts with `MAX_RETRIES` makes at
/// most `MAX_RETRIES`.
pub proof fn lemma_attempts_bounded(left: nat, failures: Seq<bool>)
    ensures
        spec_attempts_made(left, failures) <= left,
        spec_attempts_made(MAX_RETRIES as nat, failures) <= MAX_RETRIES,
    decreases failures.len(),
{
    if left > 0 && failures.len() > 0 {
        match spec_attempts_after_failure(left, failures[0]) {
            Some(rest) => lemma_attempts_bounded(rest, failures.drop_first()),
            None => {},
        }
    }
    if failures.len() > 0 {
        match spec_attempts_after_failure(MAX_RETRIES as nat, failures[0]) {
            Some(rest) => lemma_attempts_bounded(rest, failures.drop_first()),
            None => {},
        }
    }
}

} // verus!
