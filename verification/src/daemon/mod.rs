//! The resident process: the line it is spoken to in, and what it answers.
//!
//! One line per connection: the absolute path of a file to preview, or the word
//! `show`. The answer is `ok` or `err`.
use vstd::prelude::*;
use vstd::utf8;

pub mod laws;
pub mod name;
pub mod unix;
pub mod windows;

use crate::config::Platform;
use crate::path::{self, holds_byte, FilePath, PathView};
use crate::text::{self, chars_of, leading_space, push_decimal, push_str, string_of, utf8};

verus! {

/// The longest request, its line end included.
pub const MAX_MESSAGE: usize = 4096;

/// How many times in a row accepting may fail before the process stops
/// listening.
pub const MAX_ACCEPT_ERRORS: usize = 16;

// ---------------------------------------------------------------------------
// Requests
// ---------------------------------------------------------------------------
/// Why a message is no request.
#[derive(Debug, PartialEq, Eq)]
pub enum ProtocolError {
    /// Nothing but white space and line ends arrived.
    Empty,
    /// The line is longer than a request may be.
    TooLong,
    /// It is not UTF-8.
    NotUtf8,
    /// The path is relative, and the other process has another directory.
    NotAbsolute,
    /// The path holds a byte that the line cannot carry.
    Unrepresentable,
    /// The connection failed, and why.
    Io(String),
}

impl ProtocolError {
    /// What is logged.
    pub open spec fn told(&self) -> Seq<char> {
        match self {
            ProtocolError::Empty => "empty request"@,
            ProtocolError::TooLong => "request longer than "@ + text::decimal(MAX_MESSAGE as nat)
                + " bytes"@,
            ProtocolError::NotUtf8 => "request is not valid UTF-8"@,
            ProtocolError::NotAbsolute => "path is not absolute"@,
            ProtocolError::Unrepresentable => "path contains a NUL or newline"@,
            ProtocolError::Io(why) => "socket error: "@ + why@,
        }
    }

    /// What is logged.
    pub fn message(&self) -> (r: String)
        ensures
            r@ == self.told(),
    {
        match self {
            ProtocolError::Empty => "empty request".to_owned(),
            ProtocolError::TooLong => {
                let mut out = chars_of("request longer than ");
                push_decimal(&mut out, MAX_MESSAGE as u64);
                push_str(&mut out, " bytes");
                string_of(out.as_slice())
            },
            ProtocolError::NotUtf8 => "request is not valid UTF-8".to_owned(),
            ProtocolError::NotAbsolute => "path is not absolute".to_owned(),
            ProtocolError::Unrepresentable => "path contains a NUL or newline".to_owned(),
            ProtocolError::Io(why) => {
                let mut out = chars_of("socket error: ");
                push_str(&mut out, why.as_str());
                string_of(out.as_slice())
            },
        }
    }
}

/// What another process asks of the resident one.
#[derive(Debug, PartialEq)]
pub enum Request {
    /// Preview this path.
    Preview(FilePath),
    /// Put the window on screen, whatever it shows.
    Show,
}

/// A [`Request`], by the path in it.
pub enum RequestView {
    Preview(PathView),
    Show,
}

impl View for Request {
    type V = RequestView;

    open spec fn view(&self) -> RequestView {
        match *self {
            Request::Preview(path) => RequestView::Preview(path@),
            Request::Show => RequestView::Show,
        }
    }
}

/// The byte that ends a line.
pub const NEWLINE: u8 = 0x0a;

/// The byte that may stand before it.
pub const RETURN: u8 = 0x0d;

/// The word that asks for the window.
pub open spec fn show_word() -> Seq<u8> {
    seq![0x73u8, 0x68u8, 0x6fu8, 0x77u8]
}

/// Whether the line can carry `b`.
pub open spec fn carried(b: Seq<u8>) -> bool {
    !b.contains(NEWLINE) && !b.contains(RETURN) && !b.contains(0u8)
}

/// The message for a request, or why there is none.
pub open spec fn message_of(request: RequestView) -> Result<Seq<u8>, ProtocolError> {
    match request {
        RequestView::Show => Ok(show_word().push(NEWLINE)),
        RequestView::Preview(p) => if !utf8::valid_utf8(p.bytes) {
            Err(ProtocolError::NotUtf8)
        } else if p.bytes.len() == 0 {
            Err(ProtocolError::Empty)
        } else if !path::absolute(p) {
            Err(ProtocolError::NotAbsolute)
        } else if !carried(p.bytes) {
            Err(ProtocolError::Unrepresentable)
        } else if p.bytes.len() + 1 > MAX_MESSAGE {
            Err(ProtocolError::TooLong)
        } else {
            Ok(p.bytes.push(NEWLINE))
        },
    }
}

/// `b` without the line ends it ends in.
pub open spec fn line_of(b: Seq<u8>) -> Seq<u8>
    decreases b.len(),
{
    if b.len() > 0 && (b.last() == NEWLINE || b.last() == RETURN) {
        line_of(b.drop_last())
    } else {
        b
    }
}

/// Whether the text that `b` encodes is white space and line ends alone.
pub open spec fn says_nothing(b: Seq<u8>) -> bool {
    forall|i: int|
        0 <= i < utf8::decode_utf8(b).len() ==> text::white_space(
            #[trigger] utf8::decode_utf8(b)[i],
        )
}

/// The request that a message is where paths are those of `platform`, or why it is
/// none.
pub open spec fn request_on(platform: Platform, b: Seq<u8>) -> Result<RequestView, ProtocolError> {
    let line = line_of(b);
    if b.len() > MAX_MESSAGE {
        Err(ProtocolError::TooLong)
    } else if !utf8::valid_utf8(b) {
        Err(ProtocolError::NotUtf8)
    } else if says_nothing(b) {
        Err(ProtocolError::Empty)
    } else if line == show_word() {
        Ok(RequestView::Show)
    } else if line.contains(0u8) {
        Err(ProtocolError::Unrepresentable)
    } else if !path::absolute((PathView { platform, bytes: line })) {
        Err(ProtocolError::NotAbsolute)
    } else {
        Ok(RequestView::Preview(PathView { platform, bytes: line }))
    }
}

/// The request that a message is where paths are those of Unix, or why it is none.
pub open spec fn request_of(b: Seq<u8>) -> Result<RequestView, ProtocolError> {
    request_on(Platform::Unix, b)
}

/// How much of a stream the first line takes, its line end included, as far as a
/// request may go.
pub open spec fn line_extent(stream: Seq<u8>, i: int) -> int
    decreases MAX_MESSAGE - i,
{
    if i < 0 || i >= stream.len() || i >= MAX_MESSAGE {
        i
    } else if stream[i] == NEWLINE {
        i + 1
    } else {
        line_extent(stream, i + 1)
    }
}

/// The request that a stream begins with where paths are those of `platform`: no more
/// than the first line is looked at, and no more of that than a request may hold.
pub open spec fn first_request_on(platform: Platform, stream: Seq<u8>) -> Result<
    RequestView,
    ProtocolError,
> {
    let n = line_extent(stream, 0);
    let line = stream.subrange(0, n);
    if n >= MAX_MESSAGE && line.last() != NEWLINE {
        Err(ProtocolError::TooLong)
    } else {
        request_on(platform, line)
    }
}

/// The request that a stream begins with where paths are those of Unix.
pub open spec fn first_request(stream: Seq<u8>) -> Result<RequestView, ProtocolError> {
    first_request_on(Platform::Unix, stream)
}

/// Whether a result is the one that is specified.
pub open spec fn answers(
    r: Result<Request, ProtocolError>,
    wanted: Result<RequestView, ProtocolError>,
) -> bool {
    match (r, wanted) {
        (Ok(request), Ok(view)) => request@ == view,
        (Err(e), Err(w)) => e == w,
        _ => false,
    }
}

/// The bytes that a request is sent as; an error for what the line cannot carry.
pub fn encode_request(request: &Request) -> (r: Result<Vec<u8>, ProtocolError>)
    ensures
        match (r, message_of(request@)) {
            (Ok(message), Ok(wanted)) => message@ == wanted,
            (Err(e), Err(w)) => e == w,
            _ => false,
        },
{
    let path = match request {
        Request::Show => {
            let mut out: Vec<u8> = Vec::new();
            out.push(0x73);
            out.push(0x68);
            out.push(0x6f);
            out.push(0x77);
            out.push(NEWLINE);
            assert(out@ =~= show_word().push(NEWLINE));
            return Ok(out);
        },
        Request::Preview(path) => path,
    };
    let b = path.as_bytes();
    if utf8(b).is_none() {
        return Err(ProtocolError::NotUtf8);
    }
    if b.len() == 0 {
        return Err(ProtocolError::Empty);
    }
    if !path.is_absolute() {
        return Err(ProtocolError::NotAbsolute);
    }
    if holds_byte(b, NEWLINE) || holds_byte(b, RETURN) || holds_byte(b, 0) {
        return Err(ProtocolError::Unrepresentable);
    }
    if b.len() >= MAX_MESSAGE {
        return Err(ProtocolError::TooLong);
    }
    let mut out = vstd::slice::slice_to_vec(b);
    out.push(NEWLINE);
    Ok(out)
}

/// The request that one line is where paths are those of Unix.
pub fn parse_request(bytes: &[u8]) -> (r: Result<Request, ProtocolError>)
    ensures
        answers(r, request_of(bytes@)),
{
    parse_request_on(Platform::Unix, bytes)
}

/// The request that one line is where paths are those of `platform`.
pub fn parse_request_on(platform: Platform, bytes: &[u8]) -> (r: Result<Request, ProtocolError>)
    ensures
        answers(r, request_on(platform, bytes@)),
{
    if bytes.len() > MAX_MESSAGE {
        return Err(ProtocolError::TooLong);
    }
    let told = match utf8(bytes) {
        Some(told) => told,
        None => return Err(ProtocolError::NotUtf8),
    };
    let cs = chars_of(told.as_str());
    proof {
        utf8::encode_utf8_decode_utf8(told@);
    }
    let n: usize = leading_space(cs.as_slice());
    if n == cs.len() {
        assert(says_nothing(bytes@));
        return Err(ProtocolError::Empty);
    }
    assert(!says_nothing(bytes@)) by {
        assert(!text::white_space(cs@[n as int]));
    }
    let mut n: usize = bytes.len();
    assert(bytes@.subrange(0, bytes@.len() as int) =~= bytes@);
    while n > 0 && (bytes[n - 1] == NEWLINE || bytes[n - 1] == RETURN)
        invariant
            n <= bytes.len(),
            line_of(bytes@) == line_of(bytes@.subrange(0, n as int)),
        decreases n,
    {
        assert(bytes@.subrange(0, n as int).drop_last() =~= bytes@.subrange(0, n - 1));
        n = n - 1;
    }
    let line = vstd::slice::slice_subrange(bytes, 0, n);
    assert(line@ == line_of(bytes@));
    if n == 4 && line[0] == 0x73 && line[1] == 0x68 && line[2] == 0x6f && line[3] == 0x77 {
        assert(line@ =~= show_word());
        return Ok(Request::Show);
    }
    assert(line@ != show_word());
    if holds_byte(line, 0) {
        return Err(ProtocolError::Unrepresentable);
    }
    let path = FilePath::from_bytes_on(platform, vstd::slice::slice_to_vec(line));
    if !path.is_absolute() {
        return Err(ProtocolError::NotAbsolute);
    }
    Ok(Request::Preview(path))
}

/// The request that a stream begins with where paths are those of Unix.
pub fn read_request(stream: &[u8]) -> (r: Result<Request, ProtocolError>)
    ensures
        answers(r, first_request(stream@)),
{
    read_request_on(Platform::Unix, stream)
}

/// The request that a stream begins with where paths are those of `platform`.
pub fn read_request_on(platform: Platform, stream: &[u8]) -> (r: Result<Request, ProtocolError>)
    ensures
        answers(r, first_request_on(platform, stream@)),
{
    let mut n: usize = 0;
    let mut ended = false;
    while n < stream.len() && n < MAX_MESSAGE && !ended
        invariant
            n <= stream.len(),
            n <= MAX_MESSAGE,
            !ended ==> line_extent(stream@, 0) == line_extent(stream@, n as int),
            ended ==> line_extent(stream@, 0) == n && n > 0 && stream@[n - 1] == NEWLINE,
        decreases stream.len() - n,
    {
        if stream[n] == NEWLINE {
            ended = true;
        }
        n = n + 1;
    }
    assert(n == line_extent(stream@, 0));
    let line = vstd::slice::slice_subrange(stream, 0, n);
    if n >= MAX_MESSAGE && line[n - 1] != NEWLINE {
        return Err(ProtocolError::TooLong);
    }
    parse_request_on(platform, line)
}

// ---------------------------------------------------------------------------
// The resident side
// ---------------------------------------------------------------------------
/// What a connection turned out to be.
#[derive(Debug, PartialEq)]
pub enum Accepted {
    /// A request.
    Request(Request),
    /// One that closed without a word: another process looking whether this one
    /// is there.
    Probe,
    /// No request.
    Rejected,
}

/// What is done about a connection.
#[derive(Debug)]
pub struct Answer {
    /// What it turned out to be.
    pub accepted: Accepted,
    /// What is written back.
    pub reply: Vec<u8>,
    /// What is logged, where there is something to log.
    pub log: Option<String>,
}

/// What is written back to a request that was understood.
pub open spec fn ok_reply() -> Seq<u8> {
    seq![0x6fu8, 0x6bu8, NEWLINE]
}

/// What is written back to anything else.
pub open spec fn err_reply() -> Seq<u8> {
    seq![0x65u8, 0x72u8, 0x72u8, NEWLINE]
}

/// What is done about a connection, by what was read from it. The reply says
/// nothing of what was sent: bytes that are not understood are not sent back.
pub fn answer(read: Result<Request, ProtocolError>) -> (r: Answer)
    ensures
        match read {
            Ok(request) => {
                &&& r.accepted == Accepted::Request(request)
                &&& r.reply@ == ok_reply()
                &&& r.log is None
            },
            Err(ProtocolError::Empty) => {
                &&& r.accepted is Probe
                &&& r.reply@ == Seq::<u8>::empty()
                &&& r.log is None
            },
            Err(e) => {
                &&& r.accepted is Rejected
                &&& r.reply@ == err_reply()
                &&& r.log is Some
                &&& r.log->0@ == "sekio-gui: ignoring malformed request ("@ + e.told() + ")"@
            },
        },
{
    let mut reply: Vec<u8> = Vec::new();
    match read {
        Ok(request) => {
            reply.push(0x6f);
            reply.push(0x6b);
            reply.push(NEWLINE);
            assert(reply@ =~= ok_reply());
            Answer { accepted: Accepted::Request(request), reply, log: None }
        },
        Err(ProtocolError::Empty) => Answer { accepted: Accepted::Probe, reply, log: None },
        Err(e) => {
            reply.push(0x65);
            reply.push(0x72);
            reply.push(0x72);
            reply.push(NEWLINE);
            assert(reply@ =~= err_reply());
            let mut out = chars_of("sekio-gui: ignoring malformed request (");
            let why = e.message();
            push_str(&mut out, why.as_str());
            push_str(&mut out, ")");
            Answer { accepted: Accepted::Rejected, reply, log: Some(string_of(out.as_slice())) }
        },
    }
}

/// The process that listens: how often in a row accepting has failed.
#[derive(Debug)]
pub struct Serving {
    errors: usize,
}

impl Serving {
    /// How often in a row accepting has failed.
    pub closed spec fn failures(&self) -> nat {
        self.errors as nat
    }

    /// It has not given up yet.
    pub open spec fn wf(&self) -> bool {
        self.failures() <= MAX_ACCEPT_ERRORS
    }

    /// A process that has just begun to listen.
    pub fn new() -> (r: Serving)
        ensures
            r.wf(),
            r.failures() == 0,
    {
        Serving { errors: 0 }
    }

    /// A connection was accepted. Returns the request to hand on, if it was one.
    pub fn accepted(&mut self, accepted: Accepted) -> (r: Option<Request>)
        ensures
            final(self).wf(),
            final(self).failures() == 0,
            match accepted {
                Accepted::Request(request) => r == Some(request),
                _ => r is None,
            },
    {
        self.errors = 0;
        match accepted {
            Accepted::Request(request) => Some(request),
            Accepted::Probe => None,
            Accepted::Rejected => None,
        }
    }

    /// Accepting failed. Returns whether it is time to stop listening: a listener
    /// that fails again and again will not come back.
    pub fn failed(&mut self) -> (r: bool)
        requires
            old(self).wf(),
        ensures
            final(self).wf(),
            r == (old(self).failures() + 1 >= MAX_ACCEPT_ERRORS),
            final(self).failures() == (if old(self).failures() < MAX_ACCEPT_ERRORS {
                old(self).failures() + 1
            } else {
                old(self).failures()
            }),
    {
        if self.errors < MAX_ACCEPT_ERRORS {
            self.errors = self.errors + 1;
        }
        self.errors >= MAX_ACCEPT_ERRORS
    }
}

// ---------------------------------------------------------------------------
// The other side
// ---------------------------------------------------------------------------
/// What offering a request to the resident process came to.
#[derive(Debug, PartialEq, Eq)]
pub enum Handoff {
    /// It was taken.
    Delivered,
    /// There is nobody to take it, and why.
    Unavailable(String),
}

impl Handoff {
    /// Why nobody took it.
    pub open spec fn why(&self) -> Option<Seq<char>> {
        match self {
            Handoff::Delivered => None,
            Handoff::Unavailable(why) => Some(why@),
        }
    }
}

/// How the reason begins that a request cannot be handed off on `platform`.
pub open spec fn no_handoff(platform: Platform) -> Seq<char> {
    match platform {
        Platform::Unix => "cannot hand off this path: "@,
        Platform::Windows => "cannot hand off this request: "@,
    }
}

/// The message to send on `platform`, or what the handoff comes to where there is
/// none.
pub fn handoff_message(platform: Platform, request: &Request) -> (r: Result<Vec<u8>, Handoff>)
    ensures
        match (message_of(request@), r) {
            (Ok(wanted), Ok(message)) => message@ == wanted,
            (Err(e), Err(handoff)) => handoff.why() == Some(no_handoff(platform) + e.told()),
            _ => false,
        },
{
    match encode_request(request) {
        Ok(message) => Ok(message),
        Err(e) => {
            let mut out = match platform {
                Platform::Unix => chars_of("cannot hand off this path: "),
                Platform::Windows => chars_of("cannot hand off this request: "),
            };
            let why = e.message();
            push_str(&mut out, why.as_str());
            Err(Handoff::Unavailable(string_of(out.as_slice())))
        },
    }
}

/// What the answer of the resident process comes to: anything but `ok` is a
/// refusal.
pub fn acknowledged(ack: &[u8]) -> (r: Handoff)
    ensures
        r.why() == (if ack@.len() >= 2 && ack@[0] == 0x6f && ack@[1] == 0x6b {
            None
        } else {
            Some("daemon refused the request ("@ + text::decimal(ack@.len()) + " bytes)"@)
        }),
{
    if ack.len() >= 2 && ack[0] == 0x6f && ack[1] == 0x6b {
        return Handoff::Delivered;
    }
    let mut out = chars_of("daemon refused the request (");
    push_decimal(&mut out, ack.len() as u64);
    push_str(&mut out, " bytes)");
    Handoff::Unavailable(string_of(out.as_slice()))
}

} // verus!
