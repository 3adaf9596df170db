//! The request of an inway to a backend, made for a client that takes a
//! URL and a list of headers: the URL is the backend's with the path of
//! the request joined to it, and the headers are those of the request
//! without the hop-by-hop ones.

use crate::reverse_proxy::{hop_header_names, hop_headers, spec_is_hop_header};
use crate::text::{ascii_lower_chars, chars_of, spec_ascii_lower};
use vstd::prelude::*;

verus! {

/// Why two texts do not join to a URL.
#[verifier::external_type_specification]
#[verifier::external_body]
pub struct ExUrlParseError(url::ParseError);

/// Tells whether a header name belongs to the hop-by-hop set, whatever the
/// case of its letters.
pub fn is_hop_header(name: &str) -> (hop: bool)
    ensures
        hop == spec_is_hop_header(name@),
{
    let lower = ascii_lower_chars(name);
    let names = hop_header_names();
    let mut k: usize = 0;
    while k < names.len()
        invariant
            k <= names@.len(),
            names@.len() == hop_headers().len(),
            forall|i: int| 0 <= i < names@.len() ==> (#[trigger] names@[i])@ == hop_headers()[i],
            lower@ == spec_ascii_lower(name@),
            forall|i: int| 0 <= i < k ==> hop_headers()[i] != lower@,
        decreases names@.len() - k,
    {
        let candidate = chars_of(names[k]);
        if same_chars(&lower, &candidate) {
            assert(hop_headers()[k as int] == lower@);
            return true;
        }
        k += 1;
    }
    false
}

/// Whether two vectors hold the same characters.
fn same_chars(a: &Vec<char>, b: &Vec<char>) -> (same: bool)
    ensures
        same == (a@ == b@),
{
    if a.len() != b.len() {
        return false;
    }
    let mut k: usize = 0;
    while k < a.len()
        invariant
            k <= a.len(),
            a.len() == b.len(),
            forall|j: int| 0 <= j < k ==> a@[j] == b@[j],
        decreases a.len() - k,
    {
        if a[k] != b[k] {
            return false;
        }
        k += 1;
    }
    assert(a@ =~= b@);
    true
}

/// One header field as plain values.
#[derive(Debug, Clone)]
pub struct Header {
    pub name: String,
    pub value: Vec<u8>,
}

/// A header field as plain values.
pub struct HeaderView {
    pub name: Seq<char>,
    pub value: Seq<u8>,
}

impl View for Header {
    type V = HeaderView;

    open spec fn view(&self) -> HeaderView {
        HeaderView { name: self.name@, value: self.value@ }
    }
}

/// Header fields as plain values.
pub open spec fn spec_header_views(headers: Seq<Header>) -> Seq<HeaderView> {
    Seq::new(headers.len(), |i: int| headers[i]@)
}

/// The fields of a list that are not hop-by-hop, in their order.
pub open spec fn spec_forwarded(headers: Seq<HeaderView>) -> Seq<HeaderView> {
    headers.filter(|header: HeaderView| !spec_is_hop_header(header.name))
}

/// Appends to `dest` every field of `headers` that is not hop-by-hop, in
/// the order of `headers`; what `dest` held stays in front.
pub fn copy_headers(headers: Vec<Header>, dest: &mut Vec<Header>)
    ensures
        spec_header_views(final(dest)@) == spec_header_views(old(dest)@) + spec_forwarded(
            spec_header_views(headers@),
        ),
{
    let ghost all = spec_header_views(headers@);
    let ghost start = spec_header_views(dest@);
    let ghost keep = |header: HeaderView| !spec_is_hop_header(header.name);
    proof {
        assert(all.take(0).filter(keep) =~= Seq::<HeaderView>::empty());
        assert(spec_header_views(dest@) =~= start + all.take(0).filter(keep));
    }
    for header in it: headers
        invariant
            it.seq().len() == all.len(),
            forall|i: int| 0 <= i < all.len() ==> (#[trigger] it.seq()[i])@ == all[i],
            keep == (|header: HeaderView| !spec_is_hop_header(header.name)),
            spec_header_views(dest@) == start + all.take(it.index() as int).filter(keep),
    {
        let ghost done = it.index() as int;
        assert(header@ == all[done]);
        proof {
            assert(all.take(done + 1) =~= all.take(done).push(all[done]));
            all.take(done).lemma_filter_push(all[done], keep);
        }
        if !is_hop_header(header.name.as_str()) {
            let ghost before = spec_header_views(dest@);
            dest.push(header);
            assert(spec_header_views(dest@) =~= before.push(all[done]));
            assert(spec_header_views(dest@) =~= start + all.take(done + 1).filter(keep));
        }
    }
    assert(all.take(all.len() as int) =~= all);
}

/// Why a request could not be made for the backend.
#[derive(Debug)]
pub struct UrlParseError(pub url::ParseError);

/// The URL that the `url` crate gives for a base URL with a reference
/// joined to it, as text, or `None` where it refuses the base or the
/// reference.
pub uninterp spec fn spec_url_join(base: Seq<char>, reference: Seq<char>) -> Option<Seq<char>>;

/// The URL that the `url` crate gives for a URL with its query replaced,
/// as text, or `None` where it refuses the URL.
pub uninterp spec fn spec_url_with_query(url: Seq<char>, query: Seq<char>) -> Option<Seq<char>>;

/// `Url::join` of the `url` crate on a base that `Url::parse` reads from
/// its text. The outcome is a function of the two texts alone.
#[verifier::external_body]
fn join_url(base: &str, reference: &str) -> (joined: Result<String, url::ParseError>)
    ensures
        match joined {
            Ok(url) => spec_url_join(base@, reference@) == Some(url@),
            Err(_) => spec_url_join(base@, reference@) is None,
        },
{
    url::Url::parse(base).and_then(|url| url.join(reference)).map(String::from)
}

/// `Url::set_query` of the `url` crate on a URL that `Url::parse` reads
/// from its text. The outcome is a function of the two texts alone.
#[verifier::external_body]
fn set_url_query(url: &str, query: &str) -> (changed: Result<String, url::ParseError>)
    ensures
        match changed {
            Ok(text) => spec_url_with_query(url@, query@) == Some(text@),
            Err(_) => spec_url_with_query(url@, query@) is None,
        },
{
    let mut parsed = url::Url::parse(url)?;
    parsed.set_query(Some(query));
    Ok(String::from(parsed))
}

/// The URL of the request to the backend, for each outcome of joining:
/// the path is joined to the URL of the backend, and a query that is not
/// empty replaces the query of the result.
pub open spec fn spec_backend_url(
    upstream: Seq<char>,
    path: Seq<char>,
    query: Seq<char>,
    url: Result<String, UrlParseError>,
) -> bool {
    match spec_url_join(upstream, path) {
        None => url is Err,
        Some(joined) => if query.len() == 0 {
            url matches Ok(text) && text@ == joined
        } else {
            match spec_url_with_query(joined, query) {
                None => url is Err,
                Some(changed) => url matches Ok(text) && text@ == changed,
            }
        },
    }
}

/// Makes the URL of the request to the backend.
pub fn backend_url(upstream: &str, path: &str, query: &str) -> (url: Result<String, UrlParseError>)
    ensures
        spec_backend_url(upstream@, path@, query@, url),
{
    let joined = match join_url(upstream, path) {
        Ok(joined) => joined,
        Err(reason) => {
            return Err(UrlParseError(reason));
        },
    };
    if query.is_empty() {
        return Ok(joined);
    }
    match set_url_query(joined.as_str(), query) {
        Ok(changed) => Ok(changed),
        Err(reason) => Err(UrlParseError(reason)),
    }
}

/// An incoming request as the listener hands it over; the body is any
/// value that the client can send.
pub struct Request<S> {
    method: http::Method,
    path: String,
    query: String,
    headers: Vec<Header>,
    body: S,
}

/// The parts of the request to the backend.
pub struct BackendRequest<S> {
    pub method: http::Method,
    pub url: String,
    pub headers: Vec<Header>,
    pub body: S,
}

impl<S> Request<S> {
    /// The method.
    pub closed spec fn spec_method(&self) -> http::Method {
        self.method
    }

    /// The path behind the name of the service.
    pub closed spec fn spec_path(&self) -> Seq<char> {
        self.path@
    }

    /// The query; empty where the request had none.
    pub closed spec fn spec_query(&self) -> Seq<char> {
        self.query@
    }

    /// The header fields.
    pub closed spec fn spec_headers(&self) -> Seq<HeaderView> {
        spec_header_views(self.headers@)
    }

    /// The body.
    pub closed spec fn spec_body(&self) -> S {
        self.body
    }

    /// Puts the parts of an incoming request together.
    pub fn new(method: http::Method, path: String, query: String, headers: Vec<Header>, body: S) -> (request: Self)
        ensures
            request.spec_method() == method,
            request.spec_path() == path@,
            request.spec_query() == query@,
            request.spec_headers() == spec_header_views(headers@),
            request.spec_body() == body,
    {
        Self { method, path, query, headers, body }
    }

    /// Makes the request to the backend: its URL is made from the URL of
    /// the backend, the path and the query; its headers are those of the
    /// request without the hop-by-hop ones; method and body pass unchanged.
    /// A URL that cannot be made is refused.
    pub fn into_reqwest(self, upstream: &str) -> (made: Result<BackendRequest<S>, UrlParseError>)
        ensures
            match made {
                Ok(parts) => {
                    &&& spec_backend_url(
                        upstream@,
                        self.spec_path(),
                        self.spec_query(),
                        Ok::<String, UrlParseError>(parts.url),
                    )
                    &&& parts.method == self.spec_method()
                    &&& parts.body == self.spec_body()
                    &&& spec_header_views(parts.headers@) == spec_forwarded(self.spec_headers())
                },
                Err(reason) => spec_backend_url(
                    upstream@,
                    self.spec_path(),
                    self.spec_query(),
                    Err::<String, UrlParseError>(reason),
                ),
            },
    {
        let url = match backend_url(upstream, self.path.as_str(), self.query.as_str()) {
            Ok(url) => url,
            Err(reason) => {
                return Err(reason);
            },
        };
        let mut headers: Vec<Header> = Vec::new();
        assert(spec_header_views(headers@) =~= Seq::<HeaderView>::empty());
        copy_headers(self.headers, &mut headers);
        assert(Seq::<HeaderView>::empty() + spec_forwarded(self.spec_headers()) =~= spec_forwarded(
            self.spec_headers(),
        ));
        Ok(BackendRequest { method: self.method, url, headers, body: self.body })
    }
}

} // verus!
