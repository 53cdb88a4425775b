//! The dispatch orchestrator and listener configuration.
//!
//! Per inbound request the orchestrator runs the middleware chain, and — if
//! nothing stopped it — buffers the body into the worker-side request and
//! routes it.  The transport, the worker pool and the deadline race live
//! outside this crate; what they need from here is [`HttpService::process`]
//! (the whole synchronous pipeline), [`HttpService::handle_buffered`] (the
//! unit of work submitted to the pool), [`timeout_response`] (what the race
//! returns when the deadline fires first; the dispatched work is not
//! cancelled, its result is discarded), and [`default_failure_response`]
//! (the fallback when a handler panic prevented constructing a response).

use vstd::prelude::*;
use vstd::utf8::encode_utf8;

use crate::controller::Controller;
use crate::message::{
    assembly_error_text, built_view, headers_well_formed, BinReqView, BinaryRequest, BuilderView,
    ReqView, Request, RequestContinuation, RespView, Response, ResponseBuilder,
};
use crate::middleware::{chain_from, ChainOutcome, Middleware, MiddlewareRule, MiddlewareStack};
use crate::router::{first_route_from, is_prefix_of, stripped, Router};

verus! {

/// The timeout applied to a listener that configured none.
pub const DEFAULT_REQUEST_TIMEOUT_MS: u64 = 15000;

/// A fresh response builder's value.
pub open spec fn empty_builder() -> BuilderView {
    BuilderView { status: None, headers: Seq::empty(), body: Seq::empty() }
}

/// What assembling a builder produces: its response when every header is
/// well-formed, and otherwise a 500 carrying the assembly error text.
pub open spec fn finalize_spec(b: BuilderView) -> RespView {
    if headers_well_formed(b.headers) {
        built_view(b)
    } else {
        RespView { status: 500, headers: Seq::empty(), body: encode_utf8(assembly_error_text()) }
    }
}

/// Assemble the builder into a response, converting an assembly failure
/// into a 500 whose body is the error text.
pub fn build_or_failure(builder: ResponseBuilder) -> (resp: Response)
    ensures
        resp@ == finalize_spec(builder@),
{
    match builder.build() {
        Ok(resp) => resp,
        Err(e) => {
            let body = e.as_str().as_bytes_vec();
            let resp = Response { status: 500, headers: Vec::new(), body };
            assert(resp@ =~= finalize_spec(builder@));
            resp
        }
    }
}

/// The response synthesized when the deadline fires before the worker-pool
/// signal: 408, empty.  The dispatched unit of work is not cancelled; it
/// completes and its result is discarded.
pub fn timeout_response() -> (resp: Response)
    ensures
        resp@.status == 408,
        resp@.headers == Seq::<(Seq<char>, Seq<char>)>::empty(),
        resp@.body == Seq::<u8>::empty(),
{
    let resp = Response { status: 408, headers: Vec::new(), body: Vec::new() };
    assert(resp@.headers =~= Seq::<(Seq<char>, Seq<char>)>::empty());
    assert(resp@.body =~= Seq::<u8>::empty());
    resp
}

/// The fallback when a handler panic on the worker pool prevented
/// constructing a response: 500, empty.
pub fn default_failure_response() -> (resp: Response)
    ensures
        resp@.status == 500,
        resp@.headers == Seq::<(Seq<char>, Seq<char>)>::empty(),
        resp@.body == Seq::<u8>::empty(),
{
    let resp = Response { status: 500, headers: Vec::new(), body: Vec::new() };
    assert(resp@.headers =~= Seq::<(Seq<char>, Seq<char>)>::empty());
    assert(resp@.body =~= Seq::<u8>::empty());
    resp
}

/// What routing a buffered request writes into a response builder: 404 when
/// no base path prefixes the request path, otherwise the first matching
/// controller's effect on the prefix-stripped request.
pub open spec fn routed_written<C: Controller>(
    routes: Seq<(String, C)>,
    bin: BinReqView,
    res: BuilderView,
) -> BuilderView {
    match first_route_from(routes, bin.head.path, 0) {
        None => res.with_status(404),
        Some(i) => routes[i].1.effect(stripped(bin, routes[i].0@.len() as int), res),
    }
}

/// The response of the whole pipeline on one request: the chain decides
/// first; a stopped request never reaches the router, a passed one is
/// buffered with `body` and routed.
pub open spec fn process_spec<M: Middleware, C: Controller>(
    mws: Seq<(MiddlewareRule, M)>,
    routes: Seq<(String, C)>,
    req: ReqView,
    body: Seq<u8>,
) -> RespView {
    match chain_from(mws, 0, req, empty_builder()) {
        ChainOutcome::Stopped { index, req: r2, res: rs2 } => finalize_spec(rs2),
        ChainOutcome::Passed { req: r2 } => finalize_spec(
            routed_written(routes, BinReqView { head: r2, body }, empty_builder()),
        ),
    }
}

/// The per-listener request pipeline: middleware chain, router, and the
/// deadline the embedding transport races the worker-pool signal against
/// (milliseconds; 0 disables the timeout).
pub struct HttpService<C, M> {
    /// Routes buffered requests to controllers.
    pub router: Router<C>,
    /// Runs before routing; may mutate or stop the request.
    pub middleware_stack: MiddlewareStack<M>,
    /// Deadline for the race against the worker-pool signal; 0 disables it.
    pub request_timeout: u64,
}

impl<C: Controller, M: Middleware> HttpService<C, M> {
    /// The unit of work submitted to the worker pool: route the buffered
    /// request into a fresh builder and assemble the response, converting an
    /// assembly failure into a 500.
    pub fn handle_buffered(&self, req: &mut BinaryRequest) -> (resp: Response)
        ensures
            resp@ == finalize_spec(
                routed_written(self.router.routes@, old(req)@, empty_builder()),
            ),
    {
        let mut res = ResponseBuilder::new();
        let _ = self.router.dispatch(req, &mut res);
        build_or_failure(res)
    }

    /// The whole synchronous pipeline on one request: resolve the middleware
    /// chain; when it stops, its response is assembled with no router
    /// involvement; when it passes, the body bytes the transport collected
    /// are attached (the buffering boundary) and the request is routed.
    pub fn process(&self, req: Request, body: Vec<u8>) -> (resp: Response)
        ensures
            resp@ == process_spec(
                self.middleware_stack.middlewares@,
                self.router.routes@,
                req@,
                body@,
            ),
    {
        let mut req = req;
        let mut res = ResponseBuilder::new();
        let c = self.middleware_stack.resolve(&mut req, &mut res);
        match c {
            RequestContinuation::Stop => build_or_failure(res),
            RequestContinuation::Continue => {
                let ghost passed = req@;
                let mut bin = BinaryRequest::from_http_request_parts(req, body);
                proof {
                    assert(bin@ =~= BinReqView { head: passed, body: body@ });
                }
                self.handle_buffered(&mut bin)
            }
        }
    }
}

/// The assembled server: the per-request pipeline plus the listener
/// configuration.  Binding, accepting and TLS belong to the embedding
/// transport; it reads both fields and drives [`HttpService`].
pub struct Server<C, M> {
    /// The per-request pipeline.
    pub service: HttpService<C, M>,
    /// Where and how to listen.
    pub listener_config: ListenerConfig,
}

impl<C: Controller, M: Middleware> Server<C, M> {
    /// Start assembling a server.
    pub fn builder() -> (r: Builder<C, M>)
        ensures
            r.middleware_stack is None,
            r.router is None,
            r.listener_config is None,
    {
        Builder::new()
    }
}

/// Assembles a [`Server`] from its three parts; whatever is not configured
/// falls back to a default (an empty router, an empty chain, the default
/// listener configuration).
pub struct Builder<C, M> {
    /// The middleware chain, if one was configured.
    pub middleware_stack: Option<MiddlewareStack<M>>,
    /// The router, if one was configured.
    pub router: Option<Router<C>>,
    /// The listener configuration, if one was made.
    pub listener_config: Option<ListenerConfig>,
}

impl<C: Controller, M: Middleware> Builder<C, M> {
    /// An empty builder.
    pub fn new() -> (r: Self)
        ensures
            r.middleware_stack is None,
            r.router is None,
            r.listener_config is None,
    {
        Builder { middleware_stack: None, router: None, listener_config: None }
    }

    /// Use this router.
    pub fn configure_router(self, router: Router<C>) -> (r: Self)
        ensures
            r.router == Some(router),
            r.middleware_stack == self.middleware_stack,
            r.listener_config == self.listener_config,
    {
        Builder { router: Some(router), ..self }
    }

    /// Use this middleware chain.
    pub fn configure_middlewares(self, middleware_stack: MiddlewareStack<M>) -> (r: Self)
        ensures
            r.middleware_stack == Some(middleware_stack),
            r.router == self.router,
            r.listener_config == self.listener_config,
    {
        Builder { middleware_stack: Some(middleware_stack), ..self }
    }

    /// Use this listener configuration.
    pub fn configure_listener(self, listener_config: ListenerConfig) -> (r: Self)
        ensures
            r.listener_config == Some(listener_config),
            r.router == self.router,
            r.middleware_stack == self.middleware_stack,
    {
        Builder { listener_config: Some(listener_config), ..self }
    }

    /// Build the server: missing parts get their defaults, and the service's
    /// deadline is the configured request timeout.
    pub fn build(self) -> (r: Server<C, M>)
        ensures
            self.router matches Some(rt) ==> r.service.router == rt,
            self.router is None ==> r.service.router.routes@ == Seq::<(String, C)>::empty(),
            self.middleware_stack matches Some(ms) ==> r.service.middleware_stack == ms,
            self.middleware_stack is None ==> r.service.middleware_stack.middlewares@ == Seq::<
                (MiddlewareRule, M),
            >::empty(),
            self.listener_config matches Some(c) ==> r.listener_config == c
                && r.service.request_timeout == c.request_timeout_ms,
            self.listener_config is None ==> {
                &&& r.listener_config.request_timeout_ms == DEFAULT_REQUEST_TIMEOUT_MS
                &&& r.listener_config.uri is None
                &&& r.listener_config.cert_path is None
                &&& r.listener_config.key_path is None
                &&& r.service.request_timeout == DEFAULT_REQUEST_TIMEOUT_MS
            },
    {
        let Builder { middleware_stack, router, listener_config } = self;
        let listener_config = match listener_config {
            Some(c) => c,
            None => ListenerConfig::new(),
        };
        let router = match router {
            Some(rt) => rt,
            None => Router::new(),
        };
        let middleware_stack = match middleware_stack {
            Some(ms) => ms,
            None => MiddlewareStack::new(),
        };
        let request_timeout = listener_config.request_timeout_ms;
        Server {
            service: HttpService { router, middleware_stack, request_timeout },
            listener_config,
        }
    }
}

/// Middleware short-circuit: when the chain stops a request, the response is
/// decided without the router — any two routers give the same response.
pub proof fn lemma_stop_blinds_router<M: Middleware, C1: Controller, C2: Controller>(
    mws: Seq<(MiddlewareRule, M)>,
    routes1: Seq<(String, C1)>,
    routes2: Seq<(String, C2)>,
    req: ReqView,
    body: Seq<u8>,
)
    requires
        chain_from(mws, 0, req, empty_builder()) is Stopped,
    ensures
        process_spec(mws, routes1, req, body) == process_spec(mws, routes2, req, body),
{
}

/// The scheme of a listener URI.
#[derive(Clone, Copy, PartialEq, Eq, Structural, Debug)]
pub enum Scheme {
    Http,
    Https,
}

/// Errors configuring or starting a listener.
#[derive(Clone, Copy, PartialEq, Eq, Structural, Debug)]
pub enum ServerError {
    /// The authority part is malformed.
    InvalidUri,
    /// The URI scheme is neither `http` nor `https`.
    UnsupportedUriScheme,
    /// The listener configuration is unusable (for instance an empty
    /// authority).
    BadListenerConfig,
}

/// The characters `http://`.
pub open spec fn http_prefix() -> Seq<char> {
    "http://"@
}

/// The characters `https://`.
pub open spec fn https_prefix() -> Seq<char> {
    "https://"@
}

/// What parsing `<scheme>://<interface>:<port>` gives for an authority part:
/// it must be non-empty and contain no `/`.
pub open spec fn authority_spec(s: Scheme, a: Seq<char>) -> Result<(Scheme, Seq<char>), ServerError> {
    if a.len() == 0 {
        Err(ServerError::BadListenerConfig)
    } else if exists|i: int| 0 <= i < a.len() && a[i] == '/' {
        Err(ServerError::InvalidUri)
    } else {
        Ok((s, a))
    }
}

/// What parsing a listener URI gives: scheme and authority, or the error.
pub open spec fn parse_uri_spec(u: Seq<char>) -> Result<(Scheme, Seq<char>), ServerError> {
    if is_prefix_of(http_prefix(), u) {
        authority_spec(Scheme::Http, u.skip(7))
    } else if is_prefix_of(https_prefix(), u) {
        authority_spec(Scheme::Https, u.skip(8))
    } else {
        Err(ServerError::UnsupportedUriScheme)
    }
}

/// Split a listener URI of the form `<scheme>://<interface>:<port>` into its
/// scheme and authority.  The scheme must be `http` or `https`; the
/// authority must be non-empty and contain no `/`.
#[verifier::loop_isolation(false)]
pub fn parse_listener_uri(uri: &str) -> (r: Result<(Scheme, String), ServerError>)
    ensures
        match r {
            Ok((s, a)) => parse_uri_spec(uri@) == Ok::<(Scheme, Seq<char>), ServerError>((s, a@)),
            Err(e) => parse_uri_spec(uri@) == Err::<(Scheme, Seq<char>), ServerError>(e),
        },
{
    proof {
        reveal_strlit("http://");
        reveal_strlit("https://");
    }
    let ulen = uri.unicode_len();
    let (scheme, alen, skip) = if str_prefix(uri, "http://") {
        (Scheme::Http, ulen - 7, 7usize)
    } else if str_prefix(uri, "https://") {
        (Scheme::Https, ulen - 8, 8usize)
    } else {
        return Err(ServerError::UnsupportedUriScheme);
    };
    let authority = uri.substring_char(skip, ulen);
    proof {
        assert(authority@ == uri@.skip(skip as int));
    }
    if alen == 0 {
        return Err(ServerError::BadListenerConfig);
    }
    let mut i: usize = 0;
    while i < alen
        invariant
            0 <= i <= alen,
            alen == authority@.len(),
            forall|k: int| 0 <= k < i ==> authority@[k] != '/',
        decreases alen - i,
    {
        if authority.get_char(i) == '/' {
            return Err(ServerError::InvalidUri);
        }
        i = i + 1;
    }
    assert(!(exists|k: int| 0 <= k < authority@.len() && authority@[k] == '/'));
    Ok((scheme, authority.to_owned()))
}

/// Whether `prefix` begins `s`, comparing character by character.
fn str_prefix(s: &str, prefix: &str) -> (r: bool)
    ensures
        r == is_prefix_of(prefix@, s@),
{
    let plen = prefix.unicode_len();
    let slen = s.unicode_len();
    if plen > slen {
        return false;
    }
    let mut i: usize = 0;
    while i < plen
        invariant
            0 <= i <= plen,
            plen == prefix@.len(),
            slen == s@.len(),
            plen <= slen,
            forall|k: int| 0 <= k < i ==> s@[k] == prefix@[k],
        decreases plen - i,
    {
        if s.get_char(i) != prefix.get_char(i) {
            assert(!is_prefix_of(prefix@, s@)) by {
                if is_prefix_of(prefix@, s@) {
                    assert(prefix@[i as int] == s@.subrange(0, prefix@.len() as int)[i as int]);
                }
            }
            return false;
        }
        i = i + 1;
    }
    assert(s@.subrange(0, plen as int) =~= prefix@);
    true
}

/// Accumulates a listener configuration.
pub struct ListenerBuilder {
    /// Deadline in milliseconds; 0 disables the timeout.
    pub request_timeout_ms: u64,
    /// The listener URI, `<scheme>://<interface>:<port>`.
    pub uri: Option<String>,
    /// Path of the PEM-encoded certificate file.
    pub cert_path: Option<String>,
    /// Path of the RSA or PKCS8 key file.
    pub key_path: Option<String>,
}

impl ListenerBuilder {
    /// A builder with the default timeout and nothing else set.
    pub fn new() -> (r: Self)
        ensures
            r.request_timeout_ms == DEFAULT_REQUEST_TIMEOUT_MS,
            r.uri is None,
            r.cert_path is None,
            r.key_path is None,
    {
        ListenerBuilder {
            request_timeout_ms: DEFAULT_REQUEST_TIMEOUT_MS,
            uri: None,
            cert_path: None,
            key_path: None,
        }
    }

    /// Set the request timeout in milliseconds; 0 disables it.
    pub fn set_request_timeout_ms(self, timeout: u64) -> (r: Self)
        ensures
            r.request_timeout_ms == timeout,
            r.uri == self.uri,
            r.cert_path == self.cert_path,
            r.key_path == self.key_path,
    {
        ListenerBuilder { request_timeout_ms: timeout, ..self }
    }

    /// Set the listener URI (`<scheme>://<interface>:<port>`).
    pub fn set_uri(self, uri: &str) -> (r: Self)
        ensures
            r.request_timeout_ms == self.request_timeout_ms,
            r.uri matches Some(u) && u@ == uri@,
            r.cert_path == self.cert_path,
            r.key_path == self.key_path,
    {
        ListenerBuilder { uri: Some(uri.to_owned()), ..self }
    }

    /// Set the TLS certificate and key file paths.  The certificate must be
    /// PEM encoded; the key may be RSA or PKCS8.
    pub fn set_ssl_certificates(self, cert_path: &str, key_path: &str) -> (r: Self)
        ensures
            r.request_timeout_ms == self.request_timeout_ms,
            r.uri == self.uri,
            r.cert_path matches Some(c) && c@ == cert_path@,
            r.key_path matches Some(k) && k@ == key_path@,
    {
        ListenerBuilder {
            cert_path: Some(cert_path.to_owned()),
            key_path: Some(key_path.to_owned()),
            ..self
        }
    }

    /// Build the listener configuration.
    pub fn build(self) -> (r: ListenerConfig)
        ensures
            r.request_timeout_ms == self.request_timeout_ms,
            r.uri == self.uri,
            r.cert_path == self.cert_path,
            r.key_path == self.key_path,
    {
        let ListenerBuilder { request_timeout_ms, uri, cert_path, key_path } = self;
        ListenerConfig { request_timeout_ms, uri, cert_path, key_path }
    }
}

/// A listener configuration: URI, timeout and TLS file paths.
pub struct ListenerConfig {
    /// Deadline in milliseconds; 0 disables the timeout.
    pub request_timeout_ms: u64,
    /// The listener URI, `<scheme>://<interface>:<port>`.
    pub uri: Option<String>,
    /// Path of the PEM-encoded certificate file.
    pub cert_path: Option<String>,
    /// Path of the RSA or PKCS8 key file.
    pub key_path: Option<String>,
}

impl ListenerConfig {
    /// The default configuration: default timeout, nothing else set.
    pub fn new() -> (r: Self)
        ensures
            r.request_timeout_ms == DEFAULT_REQUEST_TIMEOUT_MS,
            r.uri is None,
            r.cert_path is None,
            r.key_path is None,
    {
        ListenerConfig {
            request_timeout_ms: DEFAULT_REQUEST_TIMEOUT_MS,
            uri: None,
            cert_path: None,
            key_path: None,
        }
    }

    /// The configured URI, if any.
    pub fn uri(&self) -> (r: Option<String>)
        ensures
            r == self.uri,
    {
        match &self.uri {
            Some(u) => Some(u.clone()),
            None => None,
        }
    }

    /// The configured certificate and key paths.
    pub fn ssl_files_path(&self) -> (r: (Option<String>, Option<String>))
        ensures
            r.0 == self.cert_path,
            r.1 == self.key_path,
    {
        let cert = match &self.cert_path {
            Some(c) => Some(c.clone()),
            None => None,
        };
        let key = match &self.key_path {
            Some(k) => Some(k.clone()),
            None => None,
        };
        (cert, key)
    }
}

} // verus!
