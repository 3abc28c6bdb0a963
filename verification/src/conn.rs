//! The per-request context threaded through a pipeline: halting flag,
//! write-once response state machine, status, headers, response buffer,
//! deferred callbacks, and the underlying request. Every step of a
//! pipeline mutates the connection and nothing else.

use vstd::prelude::*;

use crate::request::{Headers, Request, RequestModel};
use crate::assoc::StrAssoc;
use vstd::string::StringSliceAdditionalSpecFns;

verus! {

/// The response lifecycle: a connection starts `Waiting`, and moves to
/// `Sent` once a response is buffered. `Chunked` marks a streamed
/// response, which this core does not produce.
#[derive(PartialEq, Eq, Structural, Clone, Copy, Debug)]
pub enum RespState {
    Waiting,
    Chunked,
    Sent,
}

/// Ghost image of a `Conn` over plug type `P`.
#[verifier::ext_equal]
pub struct ConnModel<P> {
    pub halting: bool,
    pub state: RespState,
    pub status: u16,
    pub headers: Map<Seq<char>, Seq<Seq<char>>>,
    pub body: Seq<u8>,
    pub req: RequestModel,
    pub callbacks: Seq<P>,
}

/// Halting only raises the flag; the pipeline driver observes it.
pub open spec fn spec_halt<P>(c: ConnModel<P>) -> ConnModel<P> {
    ConnModel { halting: true, ..c }
}

/// Registering a deferred callback appends it; nothing runs yet.
pub open spec fn spec_register<P>(c: ConnModel<P>, cb: P) -> ConnModel<P> {
    ConnModel { callbacks: c.callbacks.push(cb), ..c }
}

/// Sending a response writes the bytes and seals the connection.
pub open spec fn spec_send_resp<P>(c: ConnModel<P>, status: u16, bytes: Seq<u8>) -> ConnModel<P> {
    ConnModel { state: RespState::Sent, status: status, body: c.body + bytes, ..c }
}

/// A guarded send: it writes only when the connection is still `Waiting`,
/// and otherwise leaves the connection untouched.
pub open spec fn spec_try_send_resp<P>(c: ConnModel<P>, status: u16, bytes: Seq<u8>) -> ConnModel<
    P,
> {
    if c.state is Waiting {
        spec_send_resp(c, status, bytes)
    } else {
        c
    }
}

/// The fixed body written when a file cannot be opened for a response.
pub open spec fn file_error_text() -> Seq<u8> {
    "unexpected server error: could not open file.".spec_bytes()
}

/// Serving a file cannot fail outward: loaded contents are sent under
/// status 200 whatever status was asked for, and a failed load turns into
/// a fixed 500 response.
pub open spec fn spec_send_file<P>(c: ConnModel<P>, loaded: Option<Seq<u8>>) -> ConnModel<P> {
    match loaded {
        Some(bytes) => ConnModel {
            state: RespState::Sent,
            status: 200u16,
            body: c.body + bytes,
            ..c
        },
        None => ConnModel {
            state: RespState::Sent,
            status: 500u16,
            body: c.body + file_error_text(),
            ..c
        },
    }
}

/// The connection with its request swapped for `r`.
pub open spec fn spec_with_req<P>(c: ConnModel<P>, r: RequestModel) -> ConnModel<P> {
    ConnModel { req: r, ..c }
}

/// The model of a connection freshly built around a request.
pub open spec fn spec_new_conn<P>(req: RequestModel) -> ConnModel<P> {
    ConnModel {
        halting: false,
        state: RespState::Waiting,
        status: 200u16,
        headers: Map::empty(),
        body: Seq::empty(),
        req: req,
        callbacks: Seq::empty(),
    }
}

/// The mutable per-request state handed to every plug of a pipeline over
/// plug type `P`.
pub struct Conn<P> {
    pub(crate) halting: bool,
    pub(crate) state: RespState,
    pub(crate) status_code: u16,
    pub(crate) headers: Headers,
    pub(crate) body: Vec<u8>,
    pub(crate) request: Request,
    pub(crate) callbacks: Vec<P>,
}

impl<P> View for Conn<P> {
    type V = ConnModel<P>;

    closed spec fn view(&self) -> ConnModel<P> {
        ConnModel {
            halting: self.halting,
            state: self.state,
            status: self.status_code,
            headers: self.headers@,
            body: self.body@,
            req: self.request@,
            callbacks: self.callbacks@,
        }
    }
}

impl<P> Conn<P> {
    /// Wraps a freshly accepted request: waiting for a response, status
    /// 200, empty buffer, no callbacks.
    pub fn new(request: Request) -> (r: Conn<P>)
        ensures
            r@ == spec_new_conn::<P>(request@),
    {
        let c = Conn {
            halting: false,
            state: RespState::Waiting,
            status_code: 200,
            headers: StrAssoc::new(),
            body: Vec::new(),
            request,
            callbacks: Vec::new(),
        };
        proof {
            assert(c@ =~= spec_new_conn::<P>(c.request@));
        }
        c
    }

    /// Halts the pipeline: steps after the current one will not run.
    pub fn halt(&mut self)
        ensures
            final(self)@ == spec_halt(old(self)@),
    {
        self.halting = true;
    }

    /// Registers a callback to be fired after the main phase, before the
    /// response is materialized.
    pub fn register_before_send(&mut self, callback: P)
        ensures
            final(self)@ == spec_register(old(self)@, callback),
    {
        self.callbacks.push(callback);
    }

    /// Writes a response into the buffer and seals the connection. The
    /// connection must still be waiting: sending twice is a defect in the
    /// calling composition, which `try_send_resp` reports dynamically.
    pub fn send_resp(&mut self, status: u16, body: &str)
        requires
            old(self)@.state is Waiting,
        ensures
            final(self)@ == spec_send_resp(old(self)@, status, body.spec_bytes()),
    {
        self.status_code = status;
        self.body.extend_from_slice(body.as_bytes());
        self.state = RespState::Sent;
        proof {
            assert(self@ =~= spec_send_resp(old(self)@, status, body.spec_bytes()));
        }
    }

    /// Sends only when the connection is still waiting; reports whether
    /// the write happened. A second send leaves the first response intact.
    pub fn try_send_resp(&mut self, status: u16, body: &str) -> (r: bool)
        ensures
            final(self)@ == spec_try_send_resp(old(self)@, status, body.spec_bytes()),
            r == (old(self)@.state is Waiting),
    {
        match self.state {
            RespState::Waiting => {
                self.send_resp(status, body);
                true
            },
            _ => false,
        }
    }

    /// Finishes a file response from the loaded contents, `None` standing
    /// for a file that could not be opened or read. The status argument is
    /// accepted but not honored: a served file always reports 200, a
    /// failed load always 500.
    pub fn send_file(&mut self, _status: u16, contents: Option<Vec<u8>>)
        ensures
            final(self)@ == spec_send_file(
                old(self)@,
                match contents {
                    Some(ref b) => Some(b@),
                    None => None,
                },
            ),
    {
        let ghost loaded: Option<Seq<u8>> = match contents {
            Some(ref b) => Some(b@),
            None => None,
        };
        match contents {
            Some(bytes) => {
                self.status_code = 200;
                self.state = RespState::Sent;
                self.body.extend_from_slice(bytes.as_slice());
            },
            None => {
                self.body.extend_from_slice(
                    "unexpected server error: could not open file.".as_bytes(),
                );
                self.status_code = 500;
                self.state = RespState::Sent;
            },
        }
        proof {
            assert(self@ =~= spec_send_file(old(self)@, loaded));
        }
    }

    /// Borrows the underlying request.
    pub fn req(&self) -> (r: &Request)
        ensures
            r@ == self@.req,
    {
        &self.request
    }

    /// Borrows the underlying request mutably.
    pub fn req_mut(&mut self) -> (r: &mut Request)
        ensures
            r@ == old(self)@.req,
            final(self)@ == spec_with_req(old(self)@, final(r)@),
    {
        &mut self.request
    }

    /// Whether a plug has asked the pipeline to halt.
    pub fn is_halting(&self) -> (r: bool)
        ensures
            r == self@.halting,
    {
        self.halting
    }

    /// Where the response lifecycle stands.
    pub fn resp_state(&self) -> (r: RespState)
        ensures
            r == self@.state,
    {
        self.state
    }

    /// The status code the response will carry.
    pub fn status(&self) -> (r: u16)
        ensures
            r == self@.status,
    {
        self.status_code
    }

    /// The response bytes buffered so far.
    pub fn body(&self) -> (r: &Vec<u8>)
        ensures
            r@ == self@.body,
    {
        &self.body
    }

    /// Surrenders the pieces a response is materialized from: status,
    /// headers, and the buffered body.
    pub(crate) fn into_response_data(self) -> (r: (u16, Headers, Vec<u8>))
        ensures
            r.0 == self@.status,
            r.1@ == self@.headers,
            r.2@ == self@.body,
    {
        (self.status_code, self.headers, self.body)
    }

    /// Takes ownership of the deferred callbacks, leaving none registered,
    /// so one run cannot fire a callback twice.
    pub(crate) fn take_callbacks(&mut self) -> (r: Vec<P>)
        ensures
            r@ == old(self)@.callbacks,
            final(self)@ == (ConnModel { callbacks: Seq::empty(), ..old(self)@ }),
    {
        let mut out: Vec<P> = Vec::new();
        std::mem::swap(&mut out, &mut self.callbacks);
        out
    }
}

/// A sent connection is terminal: no operation reopens it, a guarded
/// send leaves it untouched, and the halt flag, once raised, stays
/// raised under every operation.
pub proof fn lemma_sent_is_terminal<P>(
    c: ConnModel<P>,
    status: u16,
    bytes: Seq<u8>,
    loaded: Option<Seq<u8>>,
    cb: P,
)
    ensures
        c.state is Sent ==> spec_halt(c).state is Sent && spec_register(c, cb).state is Sent
            && spec_try_send_resp(c, status, bytes) == c && spec_send_file(c, loaded).state
            is Sent,
        c.halting ==> spec_register(c, cb).halting && spec_try_send_resp(
            c,
            status,
            bytes,
        ).halting && spec_send_file(c, loaded).halting,
{
}

/// The outbound response materialized from a finished connection.
pub struct Response {
    pub status: u16,
    pub headers: Headers,
    pub body: Vec<u8>,
}

/// Ghost image of a `Response`.
#[verifier::ext_equal]
pub struct ResponseModel {
    pub status: u16,
    pub headers: Map<Seq<char>, Seq<Seq<char>>>,
    pub body: Seq<u8>,
}

impl View for Response {
    type V = ResponseModel;

    open spec fn view(&self) -> ResponseModel {
        ResponseModel { status: self.status, headers: self.headers@, body: self.body@ }
    }
}

} // verus!
