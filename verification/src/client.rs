//! The two sides of a comparison that touch the network only through their
//! caller: which request goes to a backend, and what two responses amount
//! to.
//!
//! Nothing here sends anything. [`RequestClient::request`] says what is to
//! be sent to one backend; [`Tester::requests`] says it for both;
//! [`Tester::compare`] takes what came back from each and gives the verdict.

use crate::comparator::compare_json_types;
use crate::encoding::encode_query;
use crate::encoding::query_encoding;
use crate::error::path_view;
use crate::error::PathSegment;
use crate::error::TesterError;
use crate::error::TesterErrorView;
use crate::json::Json;
use crate::json::JsonView;
use crate::shape::divergence;
use crate::shape::reports;
use crate::shape::same_shape;
use vstd::prelude::*;
use vstd::string::StringExecFns;

verus! {

/// The HTTP methods, under the names that they have on the wire.
#[allow(non_camel_case_types)]
#[derive(Clone, Copy, Debug, PartialEq, Eq, Hash, Structural)]
pub enum Method {
    OPTIONS,
    GET,
    POST,
    PUT,
    DELETE,
    HEAD,
    TRACE,
    CONNECT,
    PATCH,
}

/// How a request carries its body.
#[derive(Clone, Copy, Debug, PartialEq, Eq, Structural)]
pub enum BodyPlacement {
    /// Encoded into the query string.
    Query,
    /// As the JSON payload.
    Payload,
    /// Not at all.
    Dropped,
}

impl Method {
    /// How a request of this method carries a body: `GET` and `DELETE` in
    /// the query string, `POST` and `PUT` as the payload, the others not at
    /// all.
    pub open spec fn spec_body_placement(self) -> BodyPlacement {
        match self {
            Method::GET | Method::DELETE => BodyPlacement::Query,
            Method::POST | Method::PUT => BodyPlacement::Payload,
            _ => BodyPlacement::Dropped,
        }
    }

    /// How a request of this method carries a body.
    #[verifier::when_used_as_spec(spec_body_placement)]
    pub fn body_placement(self) -> (placement: BodyPlacement)
        ensures
            placement == self.spec_body_placement(),
    {
        match self {
            Method::GET | Method::DELETE => BodyPlacement::Query,
            Method::POST | Method::PUT => BodyPlacement::Payload,
            _ => BodyPlacement::Dropped,
        }
    }
}

/// A request, ready to be sent: the method, the URL, the pairs to append to
/// the URL as its query string, and the JSON payload.
#[derive(Debug, PartialEq, Eq)]
pub struct Request {
    pub method: Method,
    pub url: String,
    pub query: Vec<(String, String)>,
    pub json: Option<Json>,
}

/// The mathematical value of a [`Request`].
pub struct RequestView {
    pub method: Method,
    pub url: Seq<char>,
    pub query: Seq<(Seq<char>, Seq<char>)>,
    pub json: Option<JsonView>,
}

impl View for Request {
    type V = RequestView;

    open spec fn view(&self) -> RequestView {
        RequestView {
            method: self.method,
            url: self.url@,
            query: self.query@.map_values(|pair: (String, String)| (pair.0@, pair.1@)),
            json: match self.json {
                Some(json) => Some(json@),
                None => None,
            },
        }
    }
}

/// The URL of `endpoint` at the backend `base_url`.
pub open spec fn url_of(base_url: Seq<char>, endpoint: Seq<char>) -> Seq<char> {
    base_url + "/"@ + endpoint
}

/// The request that takes `body` along in the query string, where
/// `encoded` is the body's encoding: one pair, named `data`.
pub open spec fn query_request_view(method: Method, url: Seq<char>, encoded: Seq<char>) -> RequestView {
    RequestView { method, url, query: seq![("data"@, encoded)], json: None }
}

/// What becomes of a request that takes its body along in the query
/// string, given the outcome of encoding the body: the request with the
/// encoding, or the failure with the cause.
pub open spec fn query_request_outcome(
    method: Method,
    url: Seq<char>,
    endpoint: Seq<char>,
    encoded: Result<Seq<char>, Seq<char>>,
) -> Result<RequestView, TesterErrorView> {
    match encoded {
        Ok(text) => Ok(query_request_view(method, url, text)),
        Err(cause) => Err(TesterErrorView::SerializationFailure { endpoint, cause }),
    }
}

/// The request for `endpoint` at `base_url`, or the failure where the body
/// has to go into the query string and has no encoding.
pub open spec fn request_outcome(
    base_url: Seq<char>,
    method: Method,
    endpoint: Seq<char>,
    body: Option<JsonView>,
) -> Result<RequestView, TesterErrorView> {
    let url = url_of(base_url, endpoint);
    match (method.spec_body_placement(), body) {
        (BodyPlacement::Query, Some(body)) => query_request_outcome(
            method,
            url,
            endpoint,
            query_encoding(body),
        ),
        (BodyPlacement::Payload, Some(body)) => Ok(
            RequestView { method, url, query: Seq::empty(), json: Some(body) },
        ),
        _ => Ok(RequestView { method, url, query: Seq::empty(), json: None }),
    }
}

/// The result `r` is the outcome `outcome`: the same request, or the same
/// failure.
pub open spec fn is_outcome(
    r: Result<Request, TesterError>,
    outcome: Result<RequestView, TesterErrorView>,
) -> bool {
    match outcome {
        Ok(request) => r matches Ok(planned) && planned@ == request,
        Err(failure) => r matches Err(e) && e@ == failure,
    }
}

/// The view of an encoding's outcome.
pub open spec fn encoded_view(encoded: Result<String, String>) -> Result<Seq<char>, Seq<char>> {
    match encoded {
        Ok(text) => Ok(text@),
        Err(cause) => Err(cause@),
    }
}

/// The view of an optional body.
pub open spec fn body_view(body: Option<&Json>) -> Option<JsonView> {
    match body {
        Some(body) => Some(body@),
        None => None,
    }
}

/// One backend, known by its base URL.
#[derive(Debug, PartialEq, Eq)]
pub struct RequestClient {
    base_url: String,
}

impl View for RequestClient {
    type V = Seq<char>;

    /// The base URL.
    closed spec fn view(&self) -> Seq<char> {
        self.base_url@
    }
}

impl RequestClient {
    /// The backend at `base_url`.
    pub fn new(base_url: String) -> (client: Self)
        ensures
            client@ == base_url@,
    {
        Self { base_url }
    }

    /// The base URL of this backend.
    pub fn base_url(&self) -> (base_url: &str)
        ensures
            base_url@ == self@,
    {
        self.base_url.as_str()
    }

    /// The URL of `endpoint` at this backend: the base URL, a slash and
    /// the endpoint.
    pub fn url(&self, endpoint: &str) -> (url: String)
        ensures
            url@ == url_of(self@, endpoint@),
    {
        let mut url = self.base_url.clone();
        url.append("/");
        url.append(endpoint);
        url
    }

    /// The request that takes a body along in the query string, given
    /// what became of encoding the body: the text, or the reason why there
    /// is none. With a text the request has the one pair `data` and no
    /// payload; without, nothing is to be sent and the error says why.
    pub fn query_request(&self, method: Method, endpoint: &str, encoded: Result<String, String>) -> (r:
        Result<Request, TesterError>)
        ensures
            is_outcome(
                r,
                query_request_outcome(
                    method,
                    url_of(self@, endpoint@),
                    endpoint@,
                    encoded_view(encoded),
                ),
            ),
    {
        match encoded {
            Ok(text) => {
                let mut query: Vec<(String, String)> = Vec::new();
                query.push((String::from_str("data"), text));
                let request = Request { method, url: self.url(endpoint), query, json: None };
                assert(request@.query =~= seq![("data"@, text@)]);
                Ok(request)
            },
            Err(cause) => Err(TesterError::serialization(endpoint, cause)),
        }
    }

    /// The request to send to this backend for `endpoint`.
    ///
    /// The URL is that of the endpoint at this backend. A `GET` or
    /// `DELETE` takes the body along in the query string, as the one pair
    /// `data` whose value is the body's encoding; where the body has no
    /// encoding the result is a `SerializationFailure` for the endpoint and
    /// nothing is to be sent. A `POST` or `PUT` takes the body along as its
    /// JSON payload, as it is. Any other method takes no body along.
    pub fn request(&self, method: Method, endpoint: &str, body: Option<&Json>) -> (r: Result<
        Request,
        TesterError,
    >)
        ensures
            is_outcome(r, request_outcome(self@, method, endpoint@, body_view(body))),
    {
        match (method.body_placement(), body) {
            (BodyPlacement::Query, Some(body)) => {
                let encoded = encode_query(body);
                self.query_request(method, endpoint, encoded)
            },
            (BodyPlacement::Payload, Some(body)) => {
                let request = Request {
                    method,
                    url: self.url(endpoint),
                    query: Vec::new(),
                    json: Some(body.clone()),
                };
                assert(request@.query =~= Seq::empty());
                Ok(request)
            },
            _ => {
                let request = Request {
                    method,
                    url: self.url(endpoint),
                    query: Vec::new(),
                    json: None,
                };
                assert(request@.query =~= Seq::empty());
                Ok(request)
            },
        }
    }
}

/// What two responses amount to: the candidate's failure where it failed,
/// else the reference's failure where that failed, else what the comparison
/// of the two bodies finds, from the root.
pub open spec fn verdict(
    endpoint: Seq<char>,
    client_response: Result<Json, TesterError>,
    actual_response: Result<Json, TesterError>,
    r: Result<(), TesterError>,
) -> bool {
    match (client_response, actual_response) {
        (Err(e), _) => r == Err::<(), TesterError>(e),
        (Ok(_), Err(e)) => r == Err::<(), TesterError>(e),
        (Ok(a), Ok(b)) => reports(r, endpoint, divergence(a@, b@, Seq::empty())),
    }
}

/// The two backends of a test run: the candidate, `client`, and the
/// reference that it is held against, `actual`.
#[derive(Debug, PartialEq, Eq)]
pub struct Tester {
    client: RequestClient,
    actual: RequestClient,
}

impl Tester {
    /// The candidate backend.
    pub closed spec fn spec_client(&self) -> &RequestClient {
        &self.client
    }

    /// The reference backend.
    pub closed spec fn spec_actual(&self) -> &RequestClient {
        &self.actual
    }

    /// A tester for the candidate at `test_url` and the reference at
    /// `server_url`.
    pub fn new(test_url: String, server_url: String) -> (tester: Self)
        ensures
            tester.spec_client()@ == test_url@,
            tester.spec_actual()@ == server_url@,
    {
        Self { client: RequestClient::new(test_url), actual: RequestClient::new(server_url) }
    }

    /// The candidate backend.
    #[verifier::when_used_as_spec(spec_client)]
    pub fn client(&self) -> (client: &RequestClient)
        ensures
            client == self.spec_client(),
    {
        &self.client
    }

    /// The reference backend.
    #[verifier::when_used_as_spec(spec_actual)]
    pub fn actual(&self) -> (actual: &RequestClient)
        ensures
            actual == self.spec_actual(),
    {
        &self.actual
    }

    /// The two requests of one test case: the same method, endpoint and
    /// body, first to the candidate, then to the reference. Fails where
    /// the body has to be encoded as a query string and cannot be: then
    /// nothing is to be sent to either.
    pub fn requests(&self, endpoint: &str, method: Method, body: Option<&Json>) -> (r: Result<
        (Request, Request),
        TesterError,
    >)
        ensures
            match (
                request_outcome(self.spec_client()@, method, endpoint@, body_view(body)),
                request_outcome(self.spec_actual()@, method, endpoint@, body_view(body)),
            ) {
                (Ok(to_client), Ok(to_actual)) => r matches Ok(pair) && pair.0@ == to_client
                    && pair.1@ == to_actual,
                (Err(failure), _) => r matches Err(e) && e@ == failure,
                (Ok(_), Err(failure)) => r matches Err(e) && e@ == failure,
            },
    {
        let to_client = match self.client.request(method, endpoint, body) {
            Ok(request) => request,
            Err(e) => {
                return Err(e);
            },
        };
        let to_actual = match self.actual.request(method, endpoint, body) {
            Ok(request) => request,
            Err(e) => {
                return Err(e);
            },
        };
        Ok((to_client, to_actual))
    }

    /// The verdict on one test case, given what came back from the
    /// candidate and from the reference: for each the parsed body, or the
    /// failure of the call.
    ///
    /// A failed call ends the comparison with its own error, the
    /// candidate's before the reference's, and the bodies are not looked
    /// at. Two bodies are compared from the root: the result is success
    /// exactly where they have the same shape, else the mismatch at the
    /// first place where they differ.
    pub fn compare(
        &self,
        endpoint: &str,
        client_response: Result<Json, TesterError>,
        actual_response: Result<Json, TesterError>,
    ) -> (r: Result<(), TesterError>)
        ensures
            verdict(endpoint@, client_response, actual_response, r),
            client_response is Ok && actual_response is Ok ==> (r is Ok <==> same_shape(
                client_response->Ok_0@,
                actual_response->Ok_0@,
            )),
    {
        let body_client = match client_response {
            Ok(body) => body,
            Err(e) => {
                return Err(e);
            },
        };
        let body_actual = match actual_response {
            Ok(body) => body,
            Err(e) => {
                return Err(e);
            },
        };
        let mut path: Vec<PathSegment> = Vec::new();
        assert(path_view(path@) =~= Seq::empty());
        compare_json_types(&body_client, &body_actual, endpoint, &mut path)
    }
}

} // verus!
