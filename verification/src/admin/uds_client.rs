//! Requests to the daemon over its Unix socket: what is sent, and what can go
//! wrong.
use vstd::prelude::*;

use crate::text::{cat, cat4, pair_views};

verus! {

/// Why a request over the socket failed.
#[derive(Debug)]
pub enum UdsClientError {
    /// The socket could not be opened.
    Connect { path: String, source: String },
    /// The connection could not be set up.
    Handshake(String),
    /// The request could not be sent.
    Request(String),
    /// The answer could not be read.
    Body(String),
    /// A header cannot be sent.
    Header(String),
    /// The method or the path cannot be sent.
    BuildRequest(String),
}

/// What a [`UdsClientError`] says.
pub ghost enum UdsFault {
    Connect { path: Seq<char>, source: Seq<char> },
    Handshake(Seq<char>),
    Request(Seq<char>),
    Body(Seq<char>),
    Header(Seq<char>),
    BuildRequest(Seq<char>),
}

impl View for UdsClientError {
    type V = UdsFault;

    open spec fn view(&self) -> UdsFault {
        match self {
            UdsClientError::Connect { path, source } => UdsFault::Connect {
                path: path@,
                source: source@,
            },
            UdsClientError::Handshake(e) => UdsFault::Handshake(e@),
            UdsClientError::Request(e) => UdsFault::Request(e@),
            UdsClientError::Body(e) => UdsFault::Body(e@),
            UdsClientError::Header(e) => UdsFault::Header(e@),
            UdsClientError::BuildRequest(e) => UdsFault::BuildRequest(e@),
        }
    }
}

/// The message of an error.
pub open spec fn uds_message(e: UdsFault) -> Seq<char> {
    match e {
        UdsFault::Connect { path, source } => "connect "@ + path + ": "@ + source,
        UdsFault::Handshake(m) => "handshake: "@ + m,
        UdsFault::Request(m) => "request: "@ + m,
        UdsFault::Body(m) => "body: "@ + m,
        UdsFault::Header(m) => "invalid header value: "@ + m,
        UdsFault::BuildRequest(m) => "invalid method/uri: "@ + m,
    }
}

impl UdsClientError {
    /// The message of the error.
    pub fn message(&self) -> (r: String)
        ensures
            r@ == uds_message(self@),
    {
        match self {
            UdsClientError::Connect { path, source } => cat4(
                "connect ",
                path.as_str(),
                ": ",
                source.as_str(),
            ),
            UdsClientError::Handshake(m) => cat("handshake: ", m.as_str()),
            UdsClientError::Request(m) => cat("request: ", m.as_str()),
            UdsClientError::Body(m) => cat("body: ", m.as_str()),
            UdsClientError::Header(m) => cat("invalid header value: ", m.as_str()),
            UdsClientError::BuildRequest(m) => cat("invalid method/uri: ", m.as_str()),
        }
    }
}

/// A request as it goes over the socket.
pub struct UdsRequest {
    pub socket: String,
    pub method: String,
    pub path: String,
    pub headers: Vec<(String, String)>,
    pub body: Vec<u8>,
}

/// What a [`UdsRequest`] says.
#[verifier::ext_equal]
pub ghost struct UdsRequestView {
    pub socket: Seq<char>,
    pub method: Seq<char>,
    pub path: Seq<char>,
    pub headers: Seq<(Seq<char>, Seq<char>)>,
    pub body: Seq<u8>,
}

impl View for UdsRequest {
    type V = UdsRequestView;

    open spec fn view(&self) -> UdsRequestView {
        UdsRequestView {
            socket: self.socket@,
            method: self.method@,
            path: self.path@,
            headers: pair_views(self.headers@),
            body: self.body@,
        }
    }
}

/// The client of one socket.
pub struct UdsClient {
    socket: String,
}

impl UdsClient {
    /// The socket.
    pub closed spec fn path(self) -> Seq<char> {
        self.socket@
    }

    /// The client of the socket at a path.
    pub fn new(socket: &str) -> (r: UdsClient)
        ensures
            r.path() == socket@,
    {
        UdsClient { socket: socket.to_owned() }
    }

    /// The request that goes over the socket: a host is named before the given
    /// headers, and a request without a body has an empty one.
    pub fn request(
        &self,
        method: &str,
        path: &str,
        headers: &Vec<(String, String)>,
        body: Option<Vec<u8>>,
    ) -> (r: UdsRequest)
        ensures
            r@ == (UdsRequestView {
                socket: self.path(),
                method: method@,
                path: path@,
                headers: seq![("host"@, "locksmith.local"@)] + pair_views(headers@),
                body: match body {
                    Some(b) => b@,
                    None => Seq::empty(),
                },
            }),
    {
        let mut all: Vec<(String, String)> = Vec::new();
        all.push(("host".to_owned(), "locksmith.local".to_owned()));
        let mut i: usize = 0;
        let ghost first = seq![("host"@, "locksmith.local"@)];
        assert(pair_views(all@) =~= first + pair_views(headers@).take(0));
        while i < headers.len()
            invariant
                i <= headers@.len(),
                pair_views(all@) == first + pair_views(headers@).take(i as int),
            decreases headers.len() - i,
        {
            let ghost before = all@;
            all.push((headers[i].0.clone(), headers[i].1.clone()));
            assert(pair_views(all@) =~= pair_views(before).push(
                (headers@[i as int].0@, headers@[i as int].1@),
            ));
            assert(pair_views(all@) =~= first + pair_views(headers@).take(i + 1));
            i = i + 1;
        }
        assert(pair_views(headers@).take(headers@.len() as int) =~= pair_views(headers@));
        UdsRequest {
            socket: self.socket.clone(),
            method: method.to_owned(),
            path: path.to_owned(),
            headers: all,
            body: match body {
                Some(b) => b,
                None => Vec::new(),
            },
        }
    }
}

impl Clone for UdsClient {
    fn clone(&self) -> (r: UdsClient)
        ensures
            r.path() == self.path(),
    {
        UdsClient { socket: self.socket.clone() }
    }
}

/// The message of an error ends in what the socket said, and the one about a connection names
/// the socket.
pub proof fn law_messages_end_in_what_the_socket_said(path: Seq<char>, m: Seq<char>)
    ensures
        crate::text::ends_in(uds_message(UdsFault::Connect { path, source: m }), path + ": "@ + m),
        crate::text::ends_in(uds_message(UdsFault::Handshake(m)), m),
        crate::text::ends_in(uds_message(UdsFault::Request(m)), m),
        crate::text::ends_in(uds_message(UdsFault::Body(m)), m),
        crate::text::ends_in(uds_message(UdsFault::Header(m)), m),
        crate::text::ends_in(uds_message(UdsFault::BuildRequest(m)), m),
{
    broadcast use crate::text::lemma_ends_in;

    assert("connect "@ + path + ": "@ + m =~= "connect "@ + (path + ": "@ + m));
}

} // verus!
