//! The pipeline: an ordered list of plugs run against one connection,
//! with halt/continue control flow, a deferred-callback phase, and the
//! materialization of the final response. A plug is any unit of request
//! processing; it declares its effect on the connection model and its
//! invocation is held to that declaration.

use vstd::prelude::*;

use crate::conn::{
    Conn, ConnModel, RespState, Response, ResponseModel, spec_new_conn, spec_try_send_resp,
};
use crate::request::Request;
use vstd::string::StringSliceAdditionalSpecFns;
use vstd::utf8::encode_utf8;

verus! {

/// A unit of request processing composed into a pipeline. Side effects
/// are expressed entirely through the connection: writing a response,
/// halting, registering a deferred callback, touching the request's
/// extension store.
pub trait Plug: Sized {
    /// What one invocation does to the connection, as a function of the
    /// plug and the connection model it sees.
    spec fn effect(&self, pre: ConnModel<Self>) -> ConnModel<Self>;

    /// Applies the plug; the connection afterwards is exactly what the
    /// declared effect says.
    fn call(&self, conn: &mut Conn<Self>)
        ensures
            final(conn)@ == self.effect(old(conn)@),
    ;
}

/// The main phase: plugs run in registration order; after each one the
/// halting flag is checked and the rest are skipped once it is raised.
pub open spec fn main_phase<P: Plug>(plugs: Seq<P>, c: ConnModel<P>) -> ConnModel<P>
    decreases plugs.len(),
{
    if plugs.len() == 0 {
        c
    } else {
        let c2 = plugs[0].effect(c);
        if c2.halting {
            c2
        } else {
            main_phase(plugs.skip(1), c2)
        }
    }
}

/// The deferred-callback phase: every callback runs, in registration
/// order, with no halt check.
pub open spec fn callback_phase<P: Plug>(cbs: Seq<P>, c: ConnModel<P>) -> ConnModel<P>
    decreases cbs.len(),
{
    if cbs.len() == 0 {
        c
    } else {
        callback_phase(cbs.skip(1), cbs[0].effect(c))
    }
}

/// The connection with its callback list taken away.
pub open spec fn clear_callbacks<P>(c: ConnModel<P>) -> ConnModel<P> {
    ConnModel { callbacks: Seq::empty(), ..c }
}

/// Body of the synthesized response when no plug produced one.
pub open spec fn no_response_text() -> Seq<u8> {
    "pipeline produced no response".spec_bytes()
}

/// Body of the synthesized response when a streamed response was asked
/// for, which this core does not implement.
pub open spec fn chunked_text() -> Seq<u8> {
    "chunked responses are not supported".spec_bytes()
}

/// The response materialized from a finished connection. A sent
/// connection yields its status, headers and buffered body. A connection
/// still waiting, or marked for streaming, is a composition defect; it is
/// turned into a fixed 500 response rather than tearing down the worker.
pub open spec fn finalize<P>(c: ConnModel<P>) -> ResponseModel {
    match c.state {
        RespState::Sent => ResponseModel { status: c.status, headers: c.headers, body: c.body },
        RespState::Waiting => ResponseModel {
            status: 500u16,
            headers: c.headers,
            body: no_response_text(),
        },
        RespState::Chunked => ResponseModel {
            status: 500u16,
            headers: c.headers,
            body: chunked_text(),
        },
    }
}

/// The full request lifecycle against a plug list: main phase, then the
/// deferred callbacks taken at that point, then materialization.
pub open spec fn run_model<P: Plug>(plugs: Seq<P>, req: crate::request::RequestModel)
    -> ResponseModel {
    let mid = main_phase(plugs, spec_new_conn(req));
    let after = callback_phase(mid.callbacks, clear_callbacks(mid));
    finalize(after)
}

/// An ordered list of plugs executed against one connection.
pub struct Pipeline<P> {
    stack: Vec<P>,
}

impl<P: Plug> Pipeline<P> {
    /// The registered plugs, in order.
    pub closed spec fn plugs(&self) -> Seq<P> {
        self.stack@
    }

    /// An empty pipeline.
    pub fn new() -> (r: Self)
        ensures
            r.plugs() == Seq::<P>::empty(),
    {
        Pipeline { stack: Vec::new() }
    }

    /// Connects a plug to the end of the pipeline.
    pub fn register(&mut self, plug: P)
        ensures
            final(self).plugs() == old(self).plugs().push(plug),
    {
        self.stack.push(plug);
    }

    /// Connects a plug to the end of the pipeline, builder style.
    pub fn then(self, plug: P) -> (r: Self)
        ensures
            r.plugs() == self.plugs().push(plug),
    {
        let mut this = self;
        this.register(plug);
        this
    }

    /// Runs only the main phase against an existing connection: this is
    /// how a pipeline nests inside another pipeline, sharing the outer
    /// connection and leaving the callback and materialization steps to
    /// the outermost run.
    pub fn run_main(&self, conn: &mut Conn<P>)
        ensures
            final(conn)@ == main_phase(self.plugs(), old(conn)@),
    {
        let n: usize = self.stack.len();
        let ghost target = main_phase(self.plugs(), old(conn)@);
        let mut i: usize = 0;
        proof {
            assert(self.plugs().skip(0) =~= self.plugs());
        }
        while i < n
            invariant
                i <= n,
                n == self.plugs().len(),
                target == main_phase(self.plugs(), old(conn)@),
                main_phase(self.plugs().skip(i as int), conn@) == target,
            decreases n - i,
        {
            let ghost pre = conn@;
            proof {
                assert(self.plugs().skip(i as int)[0] == self.plugs()[i as int]);
                assert(self.plugs().skip(i as int).skip(1) =~= self.plugs().skip(i + 1));
            }
            self.stack[i].call(conn);
            proof {
                assert(conn@ == self.plugs()[i as int].effect(pre));
            }
            if conn.is_halting() {
                proof {
                    assert(main_phase(self.plugs().skip(i as int), pre) == conn@);
                }
                return ;
            }
            i += 1;
        }
        proof {
            assert(self.plugs().skip(n as int) =~= Seq::<P>::empty());
        }
    }

    /// Executes the full request lifecycle: the main phase with its halt
    /// checks, then the deferred callbacks registered by that point, then
    /// the response materialized from the connection.
    pub fn run(&self, request: Request) -> (r: Response)
        ensures
            r@ == run_model(self.plugs(), request@),
    {
        let mut conn: Conn<P> = Conn::new(request);
        self.run_main(&mut conn);
        let cbs = conn.take_callbacks();
        let ghost mid = conn@;
        let m: usize = cbs.len();
        let mut j: usize = 0;
        proof {
            assert(cbs@.skip(0) =~= cbs@);
        }
        while j < m
            invariant
                j <= m,
                m == cbs@.len(),
                callback_phase(cbs@.skip(j as int), conn@) == callback_phase(cbs@, mid),
            decreases m - j,
        {
            proof {
                assert(cbs@.skip(j as int)[0] == cbs@[j as int]);
                assert(cbs@.skip(j as int).skip(1) =~= cbs@.skip(j + 1));
            }
            cbs[j].call(&mut conn);
            j += 1;
        }
        proof {
            assert(cbs@.skip(m as int) =~= Seq::<P>::empty());
        }
        let state = conn.resp_state();
        let (status, headers, body) = conn.into_response_data();
        let out = match state {
            RespState::Sent => Response { status, headers, body },
            RespState::Waiting => Response {
                status: 500,
                headers,
                body: "pipeline produced no response".as_bytes_vec(),
            },
            RespState::Chunked => Response {
                status: 500,
                headers,
                body: "chunked responses are not supported".as_bytes_vec(),
            },
        };
        proof {
            assert(out@ =~= run_model(self.plugs(), request@));
        }
        out
    }
}

/// Sending a response twice on any waiting connection: the first send is
/// written and seals the connection, the second changes nothing — no
/// state, status or body of the second call is ever recorded — and the
/// buffer holds what was there before plus exactly the first send's
/// bytes. A connection fresh from `spec_new_conn` has an empty buffer,
/// so there the buffered body is exactly the first call's argument. A
/// verified caller cannot even make the second unguarded send: `send_resp`
/// requires the waiting state, so the double send is reachable only
/// through the guarded variant, which reports the refusal.
pub proof fn lemma_double_send_refused<P>(
    c: ConnModel<P>,
    s1: u16,
    b1: Seq<u8>,
    s2: u16,
    b2: Seq<u8>,
)
    requires
        c.state is Waiting,
    ensures
        ({
            let after1 = spec_try_send_resp(c, s1, b1);
            let after2 = spec_try_send_resp(after1, s2, b2);
            !(after1.state is Waiting) && after2 == after1 && after1.body == c.body + b1
                && after1.status == s1
        }),
        c.body == Seq::<u8>::empty() ==> spec_try_send_resp(c, s1, b1).body == b1,
{
    let after1 = spec_try_send_resp(c, s1, b1);
    if c.body == Seq::<u8>::empty() {
        assert(after1.body =~= b1);
    }
}

/// A step that halts cuts the main phase short: the steps after it never
/// run, and the connection comes out of the main phase exactly as that
/// step left it.
pub proof fn lemma_halt_skips_rest<P: Plug>(first: P, rest: Seq<P>, c: ConnModel<P>)
    requires
        first.effect(c).halting,
    ensures
        main_phase(seq![first] + rest, c) == first.effect(c),
{
    let plugs = seq![first] + rest;
    assert(plugs.len() > 0);
    assert(plugs[0] == first);
}

/// A halt does not cancel the deferred callbacks: when the first step
/// halts, the whole run is that step's effect followed by the callbacks
/// it registered, run in order, and the response materialized from the
/// result.
pub proof fn lemma_halted_callbacks_still_run<P: Plug>(
    first: P,
    rest: Seq<P>,
    req: crate::request::RequestModel,
)
    requires
        first.effect(spec_new_conn(req)).halting,
    ensures
        run_model(seq![first] + rest, req) == ({
            let mid = first.effect(spec_new_conn(req));
            finalize(callback_phase(mid.callbacks, clear_callbacks(mid)))
        }),
{
    lemma_halt_skips_rest(first, rest, spec_new_conn(req));
}

/// The adapter that lets a fixed response act as a plug: it sends its
/// status and body if the connection is still waiting, and touches
/// nothing otherwise. A pipeline usually ends with one as the catch-all.
pub struct Responder {
    pub status: u16,
    pub body: String,
}

impl Plug for Responder {
    open spec fn effect(&self, pre: ConnModel<Self>) -> ConnModel<Self> {
        spec_try_send_resp(pre, self.status, encode_utf8(self.body@))
    }

    fn call(&self, conn: &mut Conn<Self>) {
        conn.try_send_resp(self.status, self.body.as_str());
    }
}

/// The failure an application handler reports outward when it cannot
/// produce its page.
#[derive(Debug)]
pub enum MemeFailure {
    NoLulz(String),
}

impl MemeFailure {
    /// The human-readable description of the failure.
    pub fn message(&self) -> (r: &String)
        ensures
            self matches MemeFailure::NoLulz(m) && r@ == m@,
    {
        match self {
            MemeFailure::NoLulz(msg) => msg,
        }
    }
}

} // verus!
