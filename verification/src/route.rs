//! A route: a compiled path expression paired with the handler to invoke
//! on a match. Invoking the handler first parks the captured path
//! parameters in the request's extension store, where the handler and any
//! later step can read them.

use vstd::prelude::*;

pub use crate::ext::MatchContext;

use crate::conn::{Conn, ConnModel};
use crate::ext::{ExtModel, MATCH_CONTEXT_KEY};
use crate::plug::Plug;
use crate::re::regex_match;
use crate::request::RequestModel;
use crate::template::{spec_compile, spec_map_path, Expression, TemplateError};

verus! {

/// Ghost image of a route: the matcher source, the ordered parameter
/// names, and the handler.
#[verifier::ext_equal]
pub struct RouteModel<P> {
    pub names: Seq<Seq<char>>,
    pub source: Seq<char>,
    pub handler: P,
}

/// A compiled matcher together with an invokable handler.
pub struct Route<P> {
    matcher: Expression,
    handler: P,
}

/// The connection with a match context stored in its request's
/// extensions, replacing the context of any outer dispatch.
pub open spec fn spec_insert_params<P>(c: ConnModel<P>, mc: Map<Seq<char>, Seq<char>>) -> ConnModel<
    P,
> {
    ConnModel {
        req: RequestModel {
            exts: c.req.exts.insert(MATCH_CONTEXT_KEY, ExtModel::Params(mc)),
            ..c.req
        },
        ..c
    }
}

/// What invoking a route does: the captures of the current path go into
/// the extension store, then the handler runs.
pub open spec fn route_invoke_effect<P: Plug>(r: RouteModel<P>, pre: ConnModel<P>) -> ConnModel<P> {
    r.handler.effect(spec_insert_params(pre, spec_map_path(r.names, r.source, pre.req.path)))
}

impl<P> Route<P> {
    /// Ghost image of this route.
    pub closed spec fn model(&self) -> RouteModel<P> {
        RouteModel {
            names: self.matcher.names_view(),
            source: self.matcher.source_view(),
            handler: self.handler,
        }
    }

    /// The route's matcher is really the compiled form of its source.
    pub closed spec fn wf(&self) -> bool {
        self.matcher.wf()
    }

    /// Creates a route from a template string and a handler; a malformed
    /// template fails here, at registration time, never at request time,
    /// and a well-formed one whose generated matcher the engine accepts
    /// is owed a route.
    pub fn new(template: &str, handler: P) -> (r: Result<Route<P>, TemplateError>)
        ensures
            match spec_compile(template@) {
                Err(e) => r matches Err(re) && re == e,
                Ok(sp) => (r is Ok <==> crate::re::regex_compiles(sp.0)) && match r {
                    Ok(route) => route.wf() && route.model() == (RouteModel {
                        names: sp.1,
                        source: sp.0,
                        handler: handler,
                    }),
                    Err(re) => re == TemplateError::BadPattern,
                },
            },
    {
        match Expression::from_template(template) {
            Ok(matcher) => Ok(Route { matcher, handler }),
            Err(e) => Err(e),
        }
    }

    /// Whether this route matches the path.
    pub fn matches(&self, path: &str) -> (r: bool)
        requires
            self.wf(),
        ensures
            r == regex_match(self.model().source, path@),
    {
        self.matcher.is_match(path)
    }

    /// The match context this route extracts from the path.
    pub fn get_context(&self, path: &str) -> (r: MatchContext)
        requires
            self.wf(),
        ensures
            r@ == spec_map_path(self.model().names, self.model().source, path@),
    {
        self.matcher.map_path(path)
    }
}

impl<P: Plug> Route<P> {
    /// Stores the parameters captured from the current path into the
    /// request's extensions, then gives the handler its chance to write
    /// the response.
    pub fn invoke_handler(&self, conn: &mut Conn<P>)
        requires
            self.wf(),
        ensures
            final(conn)@ == route_invoke_effect(self.model(), old(conn)@),
    {
        let context = self.get_context(conn.req().path.as_str());
        let req = conn.req_mut();
        req.extensions.insert_match_context(context);
        proof {
            assert(conn@ =~= spec_insert_params(
                old(conn)@,
                spec_map_path(self.model().names, self.model().source, old(conn)@.req.path),
            ));
        }
        self.handler.call(conn)
    }
}

} // verus!
