//! Controllers: guards, dispatch tables and the method/pattern matching
//! rules.
//!
//! A controller owns an append-only table of entries `(method, pattern,
//! guards, handler)`.  Dispatch filters by method (405 when nothing has the
//! request's method), picks the first entry whose pattern matches the path in
//! registration order (400 when none does), runs the entry's guards in order
//! (the first `Stop` wins), and otherwise invokes the handler.  The whole
//! decision is the spec function [`dispatch_decision`], and what ends up in
//! the response builder is [`dispatch_written`].

use vstd::prelude::*;

use crate::message::{
    BinReqView, BinaryRequest, BuilderView, Method, RequestContinuation, ResponseBuilder,
};
use crate::pattern::{regex_accepts, regex_compiles, Pattern};

verus! {

/// A pre-handler veto predicate.  Guards only inspect the request; a guard
/// may write to the response builder only when it stops.
pub trait RequestGuard {
    /// Whether the guard vetoes this request.
    spec fn stops(&self, req: BinReqView) -> bool;

    /// What the guard leaves in the response builder when it vetoes.
    spec fn stop_write(&self, req: BinReqView, res: BuilderView) -> BuilderView;

    /// Inspect the request; `Stop` vetoes it and makes the builder the
    /// response.
    fn validate(&self, req: &BinaryRequest, res: &mut ResponseBuilder) -> (c: RequestContinuation)
        ensures
            (c is Stop) == self.stops(req@),
            self.stops(req@) ==> final(res)@ == self.stop_write(req@, old(res)@),
            !self.stops(req@) ==> final(res)@ == old(res)@,
    ;
}

/// An ordered list of guards, evaluated strictly in registration order.
pub struct RequestGuardCollection<G> {
    guards: Vec<G>,
}

impl<G> View for RequestGuardCollection<G> {
    type V = Seq<G>;

    closed spec fn view(&self) -> Seq<G> {
        self.guards@
    }
}

impl<G: RequestGuard> RequestGuardCollection<G> {
    /// An empty guard list.
    pub fn new() -> (r: Self)
        ensures
            r@ == Seq::<G>::empty(),
    {
        let r = RequestGuardCollection { guards: Vec::new() };
        assert(r@ =~= Seq::<G>::empty());
        r
    }

    /// Append a guard; it will run after every guard added before it.
    pub fn add(&mut self, guard: G)
        ensures
            final(self)@ == old(self)@.push(guard),
    {
        self.guards.push(guard);
    }

    /// Append an already boxed guard.
    pub fn add_boxed(&mut self, guard: Box<G>)
        ensures
            final(self)@ == old(self)@.push(*guard),
    {
        self.guards.push(*guard);
    }
}

/// Guard requiring a non-empty request body; it stops with a client-error
/// status otherwise.
pub struct BodyGuard;

impl RequestGuard for BodyGuard {
    open spec fn stops(&self, req: BinReqView) -> bool {
        req.body.len() == 0
    }

    open spec fn stop_write(&self, req: BinReqView, res: BuilderView) -> BuilderView {
        res.with_status(400)
    }

    fn validate(&self, req: &BinaryRequest, res: &mut ResponseBuilder) -> (c: RequestContinuation)
    {
        if req.body().len() == 0 {
            res.status(400);
            RequestContinuation::Stop
        } else {
            RequestContinuation::Continue
        }
    }
}

/// A request handler: a callable over the controller's fixed context value.
/// Its whole observable effect is what it writes to the response builder,
/// given by the `on` specification.
pub trait Handler<T> {
    /// The response builder the handler leaves behind.
    spec fn on(&self, ctx: T, req: BinReqView, res: BuilderView) -> BuilderView;

    /// Handle the request by writing to the response builder.
    fn handle(&self, ctx: &T, req: &BinaryRequest, res: &mut ResponseBuilder)
        ensures
            final(res)@ == self.on(*ctx, req@, old(res)@),
    ;
}

/// A handler that answers with a fixed status, fixed headers and a fixed
/// body, for any context.
pub struct StaticHandler {
    /// The status it sets.
    pub status: u16,
    /// The headers it appends, in order.
    pub headers: Vec<(String, String)>,
    /// The body it sets, as text.
    pub body: String,
}

impl StaticHandler {
    /// A handler with a status and a body and no headers.
    pub fn text(status: u16, body: &str) -> (r: StaticHandler)
        ensures
            r.status == status,
            r.headers.deep_view() == Seq::<(Seq<char>, Seq<char>)>::empty(),
            r.body@ == body@,
    {
        let r = StaticHandler { status, headers: Vec::new(), body: String::from_str(body) };
        assert(r.headers.deep_view() =~= Seq::<(Seq<char>, Seq<char>)>::empty());
        r
    }
}

impl<T> Handler<T> for StaticHandler {
    open spec fn on(&self, ctx: T, req: BinReqView, res: BuilderView) -> BuilderView {
        BuilderView {
            status: Some(self.status),
            headers: res.headers + self.headers.deep_view(),
            body: vstd::utf8::encode_utf8(self.body@),
        }
    }

    #[verifier::loop_isolation(false)]
    fn handle(&self, ctx: &T, req: &BinaryRequest, res: &mut ResponseBuilder) {
        res.status(self.status);
        res.body(self.body.as_str().as_bytes_vec());
        let ghost start = res@.headers;
        let mut i: usize = 0;
        let n = self.headers.len();
        while i < n
            invariant
                0 <= i <= n,
                res@.status == Some(self.status),
                res@.body == vstd::utf8::encode_utf8(self.body@),
                res@.headers == start + self.headers.deep_view().take(i as int),
            decreases n - i,
        {
            let key = self.headers[i].0.clone();
            let value = self.headers[i].1.clone();
            let ghost before = res@.headers;
            res.header(key, value);
            proof {
                assert(self.headers.deep_view()[i as int] == (
                    self.headers@[i as int].0@,
                    self.headers@[i as int].1@,
                ));
                assert(res@.headers =~= start + self.headers.deep_view().take(i + 1));
            }
            i = i + 1;
        }
        proof {
            assert(self.headers.deep_view().take(n as int) =~= self.headers.deep_view());
            assert(res@ =~= BuilderView {
                status: Some(self.status),
                headers: start + self.headers.deep_view(),
                body: vstd::utf8::encode_utf8(self.body@),
            });
        }
    }
}

/// One dispatch-table entry: method, compiled path pattern, optional guard
/// list, handler.
pub struct Delegate<H, G> {
    pub method: Method,
    pub pattern: Pattern,
    pub guards: Option<RequestGuardCollection<G>>,
    pub handler: H,
}

/// The guards of an entry; an absent guard list is the empty list.
pub open spec fn guards_of<H, G>(d: Delegate<H, G>) -> Seq<G> {
    match d.guards {
        Some(c) => c@,
        None => Seq::empty(),
    }
}

/// Whether some entry was registered for this method.
pub open spec fn has_method_match<H, G>(ds: Seq<Delegate<H, G>>, m: Method) -> bool {
    exists|i: int| 0 <= i < ds.len() && (#[trigger] ds[i]).method == m
}

/// Index of the first entry, at `i` or later, whose method equals `m` and
/// whose pattern matches `path` (first-match-wins).
pub open spec fn first_match_from<H, G>(
    ds: Seq<Delegate<H, G>>,
    m: Method,
    path: Seq<char>,
    i: int,
) -> Option<int>
    decreases ds.len() - i,
{
    if i < 0 || i >= ds.len() {
        None
    } else if ds[i].method == m && regex_accepts(ds[i].pattern@, path) {
        Some(i)
    } else {
        first_match_from(ds, m, path, i + 1)
    }
}

/// Index of the first guard, at `i` or later, that vetoes the request.
pub open spec fn first_stopping_guard_from<G: RequestGuard>(
    gs: Seq<G>,
    req: BinReqView,
    i: int,
) -> Option<int>
    decreases gs.len() - i,
{
    if i < 0 || i >= gs.len() {
        None
    } else if gs[i].stops(req) {
        Some(i)
    } else {
        first_stopping_guard_from(gs, req, i + 1)
    }
}

/// What dispatch decides for a table and a request.  Entry and guard indices
/// are positions in registration order.
pub enum DispatchDecision {
    MethodNotAllowed,
    PatternNotMatched,
    GuardStopped { entry: int, guard: int },
    Handled { entry: int },
}

/// The decision dispatch takes: 405 when no entry has the method, 400 when
/// none of the method's entries matches the path, otherwise the first match
/// wins and its first stopping guard (if any) shields the handler.
pub open spec fn dispatch_decision<H, G: RequestGuard>(
    ds: Seq<Delegate<H, G>>,
    req: BinReqView,
) -> DispatchDecision {
    if !has_method_match(ds, req.head.method) {
        DispatchDecision::MethodNotAllowed
    } else {
        match first_match_from(ds, req.head.method, req.head.path, 0) {
            None => DispatchDecision::PatternNotMatched,
            Some(i) => match first_stopping_guard_from(guards_of(ds[i]), req, 0) {
                Some(j) => DispatchDecision::GuardStopped { entry: i, guard: j },
                None => DispatchDecision::Handled { entry: i },
            },
        }
    }
}

/// What dispatch leaves in the response builder, for each decision.
pub open spec fn dispatch_written<T, H: Handler<T>, G: RequestGuard>(
    ctx: T,
    ds: Seq<Delegate<H, G>>,
    req: BinReqView,
    res: BuilderView,
) -> BuilderView {
    match dispatch_decision(ds, req) {
        DispatchDecision::MethodNotAllowed => res.with_status(405),
        DispatchDecision::PatternNotMatched => res.with_status(400),
        DispatchDecision::GuardStopped { entry, guard } => guards_of(ds[entry])[guard].stop_write(
            req,
            res,
        ),
        DispatchDecision::Handled { entry } => ds[entry].handler.on(ctx, req, res),
    }
}

/// What a dispatch call reports; mirrors [`DispatchDecision`] with indices as
/// `usize`.
#[derive(Clone, Copy, PartialEq, Eq, Structural, Debug)]
pub enum DispatchOutcome {
    MethodNotAllowed,
    PatternNotMatched,
    GuardStopped { entry: usize, guard: usize },
    Handled { entry: usize },
}

/// The outcome value reports exactly the decision.
pub open spec fn outcome_abstracts(o: DispatchOutcome, d: DispatchDecision) -> bool {
    match d {
        DispatchDecision::MethodNotAllowed => o == DispatchOutcome::MethodNotAllowed,
        DispatchDecision::PatternNotMatched => o == DispatchOutcome::PatternNotMatched,
        DispatchDecision::GuardStopped { entry, guard } => o matches DispatchOutcome::GuardStopped {
            entry: e,
            guard: g,
        } && e as int == entry && g as int == guard,
        DispatchDecision::Handled { entry } => o matches DispatchOutcome::Handled { entry: e }
            && e as int == entry,
    }
}

/// Delegates a request to the first registered entry matching both its
/// method and its path.  The table is append-only; it is built before
/// serving starts and only read during dispatch.
pub struct ControllerDispatch<T, H, G> {
    /// The context handed to every handler of this controller.
    pub delegate_context: T,
    /// The entries, in registration order.
    pub delegates: Vec<Delegate<H, G>>,
}

impl<T, H: Handler<T>, G: RequestGuard> ControllerDispatch<T, H, G> {
    /// An empty table over the given context.
    pub fn new(delegate_context: T) -> (r: Self)
        ensures
            r.delegate_context == delegate_context,
            r.delegates@ == Seq::<Delegate<H, G>>::empty(),
    {
        let r = ControllerDispatch { delegate_context, delegates: Vec::new() };
        assert(r.delegates@ =~= Seq::<Delegate<H, G>>::empty());
        r
    }

    /// Append an entry without guards.  The pattern text must be a valid
    /// regular expression; [`Self::try_add`] checks that first.
    pub fn add(&mut self, method: Method, path: &str, handler: H)
        requires
            regex_compiles(path@),
        ensures
            final(self).delegate_context == old(self).delegate_context,
            final(self).delegates@.len() == old(self).delegates@.len() + 1,
            final(self).delegates@.subrange(0, old(self).delegates@.len() as int)
                == old(self).delegates@,
            final(self).delegates@.last().method == method,
            final(self).delegates@.last().pattern@ == path@,
            final(self).delegates@.last().guards is None,
            final(self).delegates@.last().handler == handler,
    {
        match Pattern::new(path) {
            Some(pattern) => {
                let ghost before = self.delegates@;
                self.delegates.push(Delegate { method, pattern, guards: None, handler });
                assert(self.delegates@.subrange(0, before.len() as int) =~= before);
            }
            None => {
                proof {
                    assert(false);
                }
            }
        }
    }

    /// Append an entry guarded by `guards`, evaluated in their list order
    /// before the handler.  The pattern text must be a valid regular
    /// expression; [`Self::try_add_with_guards`] checks that first.
    pub fn add_with_guards(
        &mut self,
        method: Method,
        path: &str,
        guards: RequestGuardCollection<G>,
        handler: H,
    )
        requires
            regex_compiles(path@),
        ensures
            final(self).delegate_context == old(self).delegate_context,
            final(self).delegates@.len() == old(self).delegates@.len() + 1,
            final(self).delegates@.subrange(0, old(self).delegates@.len() as int)
                == old(self).delegates@,
            final(self).delegates@.last().method == method,
            final(self).delegates@.last().pattern@ == path@,
            final(self).delegates@.last().guards matches Some(c) && c@ == guards@,
            final(self).delegates@.last().handler == handler,
    {
        match Pattern::new(path) {
            Some(pattern) => {
                let ghost before = self.delegates@;
                self.delegates.push(Delegate { method, pattern, guards: Some(guards), handler });
                assert(self.delegates@.subrange(0, before.len() as int) =~= before);
            }
            None => {
                proof {
                    assert(false);
                }
            }
        }
    }

    /// Append an entry without guards, first checking that the pattern text
    /// compiles; reports whether the entry was added.
    pub fn try_add(&mut self, method: Method, path: &str, handler: H) -> (ok: bool)
        ensures
            ok == regex_compiles(path@),
            ok ==> {
                &&& final(self).delegate_context == old(self).delegate_context
                &&& final(self).delegates@.len() == old(self).delegates@.len() + 1
                &&& final(self).delegates@.subrange(0, old(self).delegates@.len() as int)
                    == old(self).delegates@
                &&& final(self).delegates@.last().method == method
                &&& final(self).delegates@.last().pattern@ == path@
                &&& final(self).delegates@.last().guards is None
                &&& final(self).delegates@.last().handler == handler
            },
            !ok ==> final(self).delegate_context == old(self).delegate_context,
            !ok ==> final(self).delegates@ == old(self).delegates@,
    {
        match Pattern::new(path) {
            Some(_) => {
                self.add(method, path, handler);
                true
            }
            None => false,
        }
    }

    /// Append a guarded entry, first checking that the pattern text
    /// compiles; reports whether the entry was added.
    pub fn try_add_with_guards(
        &mut self,
        method: Method,
        path: &str,
        guards: RequestGuardCollection<G>,
        handler: H,
    ) -> (ok: bool)
        ensures
            ok == regex_compiles(path@),
            ok ==> {
                &&& final(self).delegate_context == old(self).delegate_context
                &&& final(self).delegates@.len() == old(self).delegates@.len() + 1
                &&& final(self).delegates@.subrange(0, old(self).delegates@.len() as int)
                    == old(self).delegates@
                &&& final(self).delegates@.last().method == method
                &&& final(self).delegates@.last().pattern@ == path@
                &&& (final(self).delegates@.last().guards matches Some(c) && c@ == guards@)
                &&& final(self).delegates@.last().handler == handler
            },
            !ok ==> final(self).delegate_context == old(self).delegate_context,
            !ok ==> final(self).delegates@ == old(self).delegates@,
    {
        match Pattern::new(path) {
            Some(_) => {
                self.add_with_guards(method, path, guards, handler);
                true
            }
            None => false,
        }
    }

    /// Dispatch the request: write the decided response parts into `res` and
    /// report which entry (and guard) decided.
    #[verifier::loop_isolation(false)]
    pub fn dispatch(&self, req: &BinaryRequest, res: &mut ResponseBuilder) -> (o: DispatchOutcome)
        ensures
            outcome_abstracts(o, dispatch_decision(self.delegates@, req@)),
            final(res)@ == dispatch_written(
                self.delegate_context,
                self.delegates@,
                req@,
                old(res)@,
            ),
    {
        let ghost ds = self.delegates@;
        let ghost m = req@.head.method;
        let ghost path = req@.head.path;
        let n = self.delegates.len();

        let mut any_method = false;
        let mut i: usize = 0;
        while i < n
            invariant
                0 <= i <= n,
                m == req@.head.method,
                any_method == exists|k: int| 0 <= k < i && (#[trigger] ds[k]).method == m,
            decreases n - i,
        {
            if self.delegates[i].method == req.method() {
                proof {
                    assert(ds[i as int].method == m);
                }
                any_method = true;
            }
            i = i + 1;
        }
        if !any_method {
            proof {
                assert(!has_method_match(ds, m));
            }
            res.status(405);
            return DispatchOutcome::MethodNotAllowed;
        }
        assert(has_method_match(ds, m));

        let mut j: usize = 0;
        while j < n
            invariant
                0 <= j <= n,
                n == ds.len(),
                ds == self.delegates@,
                req@.head.method == m,
                req@.head.path == path,
                has_method_match(ds, m),
                first_match_from(ds, m, path, 0) == first_match_from(ds, m, path, j as int),
                res@ == old(res)@,
            decreases n - j,
        {
            let d = &self.delegates[j];
            let method_hit = d.method == req.method();
            let pattern_hit = if method_hit {
                d.pattern.is_match(req.head.path.as_str())
            } else {
                false
            };
            if method_hit && pattern_hit {
                proof {
                    assert(first_match_from(ds, m, path, j as int) == Some(j as int));
                }
                if let Some(gcol) = &d.guards {
                    let ghost gs = guards_of(ds[j as int]);
                    proof {
                        assert(gs == gcol@);
                    }
                    let gn = gcol.guards.len();
                    let mut k: usize = 0;
                    while k < gn
                        invariant
                            0 <= k <= gn,
                            gn == gs.len(),
                            gs == gcol@,
                            gcol@ == gcol.guards@,
                            first_stopping_guard_from(gs, req@, 0) == first_stopping_guard_from(
                                gs,
                                req@,
                                k as int,
                            ),
                            res@ == old(res)@,
                        decreases gn - k,
                    {
                        let c = gcol.guards[k].validate(req, res);
                        match c {
                            RequestContinuation::Stop => {
                                proof {
                                    assert(gs[k as int].stops(req@));
                                    assert(first_stopping_guard_from(gs, req@, k as int) == Some(
                                        k as int,
                                    ));
                                }
                                return DispatchOutcome::GuardStopped { entry: j, guard: k };
                            }
                            RequestContinuation::Continue => {
                                proof {
                                    assert(!gs[k as int].stops(req@));
                                    assert(first_stopping_guard_from(gs, req@, k as int)
                                        == first_stopping_guard_from(gs, req@, k + 1));
                                }
                            }
                        }
                        k = k + 1;
                    }
                    proof {
                        assert(first_stopping_guard_from(gs, req@, gn as int) is None);
                    }
                }
                proof {
                    assert(first_stopping_guard_from(guards_of(ds[j as int]), req@, 0) is None);
                }
                d.handler.handle(&self.delegate_context, req, res);
                return DispatchOutcome::Handled { entry: j };
            }
            proof {
                assert(first_match_from(ds, m, path, j as int) == first_match_from(
                    ds,
                    m,
                    path,
                    j + 1,
                ));
            }
            j = j + 1;
        }
        proof {
            assert(first_match_from(ds, m, path, n as int) is None);
        }
        res.status(400);
        DispatchOutcome::PatternNotMatched
    }
}

/// A named, address-space-scoped group of routes sharing one context value.
/// The router forwards a request to the controller whose base path prefixes
/// the request path.
pub trait Controller {
    /// The response builder the controller leaves behind for a request.
    spec fn effect(&self, req: BinReqView, res: BuilderView) -> BuilderView;

    /// The base path under which the controller expects to be routed.
    spec fn base_path_spec(&self) -> Seq<char>;

    /// Handle a request routed to this controller; nothing runs after it.
    fn handle(&self, req: &BinaryRequest, res: &mut ResponseBuilder)
        ensures
            final(res)@ == self.effect(req@, old(res)@),
    ;

    /// The base path used by the router to route requests here.
    fn base_path(&self) -> (p: &str)
        ensures
            p@ == self.base_path_spec(),
    ;
}

/// A controller that is exactly a base path plus a dispatch table.
pub struct BasicController<C, H, G> {
    /// The base path under which the controller expects to be routed.
    pub base_path: String,
    /// The controller's dispatch table.
    pub dispatch: ControllerDispatch<C, H, G>,
}

impl<C, H: Handler<C>, G: RequestGuard> Controller for BasicController<C, H, G> {
    open spec fn effect(&self, req: BinReqView, res: BuilderView) -> BuilderView {
        dispatch_written(self.dispatch.delegate_context, self.dispatch.delegates@, req, res)
    }

    open spec fn base_path_spec(&self) -> Seq<char> {
        self.base_path@
    }

    fn handle(&self, req: &BinaryRequest, res: &mut ResponseBuilder) {
        let _ = self.dispatch.dispatch(req, res);
    }

    fn base_path(&self) -> (p: &str) {
        self.base_path.as_str()
    }
}

impl<C, H: Handler<C>, G: RequestGuard> BasicController<C, H, G> {
    /// A controller at base path `name` with an empty table over
    /// `controller_context`.
    pub fn new(name: &str, controller_context: C) -> (r: Self)
        ensures
            r.base_path_spec() == name@,
            r.dispatch.delegate_context == controller_context,
            r.dispatch.delegates@ == Seq::<Delegate<H, G>>::empty(),
    {
        BasicController {
            base_path: String::from_str(name),
            dispatch: ControllerDispatch::new(controller_context),
        }
    }

    /// Append an entry without guards; the pattern text must compile.
    pub fn add(&mut self, method: Method, path: &str, handler: H)
        requires
            regex_compiles(path@),
        ensures
            final(self).base_path_spec() == old(self).base_path_spec(),
            final(self).dispatch.delegate_context == old(self).dispatch.delegate_context,
            final(self).dispatch.delegates@.len() == old(self).dispatch.delegates@.len() + 1,
            final(self).dispatch.delegates@.subrange(
                0,
                old(self).dispatch.delegates@.len() as int,
            ) == old(self).dispatch.delegates@,
            final(self).dispatch.delegates@.last().method == method,
            final(self).dispatch.delegates@.last().pattern@ == path@,
            final(self).dispatch.delegates@.last().guards is None,
            final(self).dispatch.delegates@.last().handler == handler,
    {
        self.dispatch.add(method, path, handler);
    }

    /// Append a guarded entry; the pattern text must compile.
    pub fn add_with_guards(
        &mut self,
        method: Method,
        path: &str,
        guards: RequestGuardCollection<G>,
        handler: H,
    )
        requires
            regex_compiles(path@),
        ensures
            final(self).base_path_spec() == old(self).base_path_spec(),
            final(self).dispatch.delegate_context == old(self).dispatch.delegate_context,
            final(self).dispatch.delegates@.len() == old(self).dispatch.delegates@.len() + 1,
            final(self).dispatch.delegates@.subrange(
                0,
                old(self).dispatch.delegates@.len() as int,
            ) == old(self).dispatch.delegates@,
            final(self).dispatch.delegates@.last().method == method,
            final(self).dispatch.delegates@.last().pattern@ == path@,
            (final(self).dispatch.delegates@.last().guards matches Some(c) && c@
                == guards@),
            final(self).dispatch.delegates@.last().handler == handler,
    {
        self.dispatch.add_with_guards(method, path, guards, handler);
    }

    /// Append an entry without guards, first checking the pattern text.
    pub fn try_add(&mut self, method: Method, path: &str, handler: H) -> (ok: bool)
        ensures
            ok == regex_compiles(path@),
            final(self).base_path_spec() == old(self).base_path_spec(),
            final(self).dispatch.delegate_context == old(self).dispatch.delegate_context,
            ok ==> {
                &&& final(self).dispatch.delegates@.len() == old(
                    self,
                ).dispatch.delegates@.len() + 1
                &&& final(self).dispatch.delegates@.subrange(
                    0,
                    old(self).dispatch.delegates@.len() as int,
                ) == old(self).dispatch.delegates@
                &&& final(self).dispatch.delegates@.last().method == method
                &&& final(self).dispatch.delegates@.last().pattern@ == path@
                &&& final(self).dispatch.delegates@.last().guards is None
                &&& final(self).dispatch.delegates@.last().handler == handler
            },
            !ok ==> final(self).dispatch.delegates@ == old(self).dispatch.delegates@,
    {
        self.dispatch.try_add(method, path, handler)
    }

    /// Append a guarded entry, first checking the pattern text.
    pub fn try_add_with_guards(
        &mut self,
        method: Method,
        path: &str,
        guards: RequestGuardCollection<G>,
        handler: H,
    ) -> (ok: bool)
        ensures
            ok == regex_compiles(path@),
            final(self).base_path_spec() == old(self).base_path_spec(),
            final(self).dispatch.delegate_context == old(self).dispatch.delegate_context,
            ok ==> {
                &&& final(self).dispatch.delegates@.len() == old(
                    self,
                ).dispatch.delegates@.len() + 1
                &&& final(self).dispatch.delegates@.subrange(
                    0,
                    old(self).dispatch.delegates@.len() as int,
                ) == old(self).dispatch.delegates@
                &&& final(self).dispatch.delegates@.last().method == method
                &&& final(self).dispatch.delegates@.last().pattern@ == path@
                &&& (final(self).dispatch.delegates@.last().guards matches Some(c) && c@
                    == guards@)
                &&& final(self).dispatch.delegates@.last().handler == handler
            },
            !ok ==> final(self).dispatch.delegates@ == old(self).dispatch.delegates@,
    {
        self.dispatch.try_add_with_guards(method, path, guards, handler)
    }
}

/// What `first_match_from` returns is the least matching index at or after
/// `j`, and `None` exactly when nothing at or after `j` matches.
pub proof fn lemma_first_match_characterization<H, G>(
    ds: Seq<Delegate<H, G>>,
    m: Method,
    path: Seq<char>,
    j: int,
)
    requires
        0 <= j <= ds.len(),
    ensures
        match first_match_from(ds, m, path, j) {
            Some(i) => {
                &&& j <= i < ds.len()
                &&& ds[i].method == m
                &&& regex_accepts(ds[i].pattern@, path)
                &&& forall|k: int|
                    j <= k < i ==> !((#[trigger] ds[k]).method == m && regex_accepts(
                        ds[k].pattern@,
                        path,
                    ))
            },
            None => forall|k: int|
                j <= k < ds.len() ==> !((#[trigger] ds[k]).method == m && regex_accepts(
                    ds[k].pattern@,
                    path,
                )),
        },
    decreases ds.len() - j,
{
    if j < ds.len() {
        if !(ds[j].method == m && regex_accepts(ds[j].pattern@, path)) {
            lemma_first_match_characterization(ds, m, path, j + 1);
        }
    }
}

/// What `first_stopping_guard_from` returns is the least index of a vetoing
/// guard at or after `j`, and `None` exactly when no guard at or after `j`
/// vetoes.
pub proof fn lemma_first_stopping_guard_characterization<G: RequestGuard>(
    gs: Seq<G>,
    req: BinReqView,
    j: int,
)
    requires
        0 <= j <= gs.len(),
    ensures
        match first_stopping_guard_from(gs, req, j) {
            Some(i) => {
                &&& j <= i < gs.len()
                &&& gs[i].stops(req)
                &&& forall|k: int| j <= k < i ==> !(#[trigger] gs[k]).stops(req)
            },
            None => forall|k: int| j <= k < gs.len() ==> !(#[trigger] gs[k]).stops(req),
        },
    decreases gs.len() - j,
{
    if j < gs.len() {
        if !gs[j].stops(req) {
            lemma_first_stopping_guard_characterization(gs, req, j + 1);
        }
    }
}

/// When the request's method is among no registered entry's methods, the
/// decision is 405, whatever the path: the builder gets status 405 and
/// nothing else happens.
pub proof fn lemma_method_miss_is_405<T, H: Handler<T>, G: RequestGuard>(
    ctx: T,
    ds: Seq<Delegate<H, G>>,
    req: BinReqView,
    res: BuilderView,
)
    requires
        forall|i: int| 0 <= i < ds.len() ==> (#[trigger] ds[i]).method != req.head.method,
    ensures
        dispatch_decision(ds, req) == DispatchDecision::MethodNotAllowed,
        dispatch_written(ctx, ds, req, res) == res.with_status(405),
{
    assert(!has_method_match(ds, req.head.method));
}

/// When some entry has the request's method but none of the method's entries
/// matches the path, the decision is 400.
pub proof fn lemma_path_miss_is_400<T, H: Handler<T>, G: RequestGuard>(
    ctx: T,
    ds: Seq<Delegate<H, G>>,
    req: BinReqView,
    res: BuilderView,
)
    requires
        has_method_match(ds, req.head.method),
        forall|i: int|
            0 <= i < ds.len() ==> !((#[trigger] ds[i]).method == req.head.method && regex_accepts(
                ds[i].pattern@,
                req.head.path,
            )),
    ensures
        dispatch_decision(ds, req) == DispatchDecision::PatternNotMatched,
        dispatch_written(ctx, ds, req, res) == res.with_status(400),
{
    lemma_first_match_characterization(ds, req.head.method, req.head.path, 0);
    match first_match_from(ds, req.head.method, req.head.path, 0) {
        Some(i) => {
            assert(!(ds[i].method == req.head.method && regex_accepts(
                ds[i].pattern@,
                req.head.path,
            )));
        }
        None => {}
    }
}

/// First-match-wins: once an entry matches the request, no entry registered
/// after it is ever chosen, however specific the later pattern.
pub proof fn lemma_earlier_match_wins<H, G>(
    ds: Seq<Delegate<H, G>>,
    m: Method,
    path: Seq<char>,
    i1: int,
)
    requires
        0 <= i1 < ds.len(),
        ds[i1].method == m,
        regex_accepts(ds[i1].pattern@, path),
    ensures
        first_match_from(ds, m, path, 0) matches Some(e) && e <= i1,
{
    lemma_first_match_characterization(ds, m, path, 0);
    match first_match_from(ds, m, path, 0) {
        Some(e) => {
            if e > i1 {
                assert(!(ds[i1].method == m && regex_accepts(ds[i1].pattern@, path)));
            }
        }
        None => {
            assert(!(ds[i1].method == m && regex_accepts(ds[i1].pattern@, path)));
        }
    }
}

/// Guard short-circuit: if any guard of the winning entry vetoes the
/// request, the decision is a guard stop on that entry — the handler is
/// never the decision.
pub proof fn lemma_guard_stop_shields_handler<H, G: RequestGuard>(
    ds: Seq<Delegate<H, G>>,
    req: BinReqView,
    j: int,
    k: int,
)
    requires
        first_match_from(ds, req.head.method, req.head.path, 0) == Some(j),
        0 <= k < guards_of(ds[j]).len(),
        guards_of(ds[j])[k].stops(req),
    ensures
        dispatch_decision(ds, req) is GuardStopped,
        dispatch_decision(ds, req) matches DispatchDecision::GuardStopped { entry, guard } ==> {
            &&& entry == j
            &&& 0 <= guard <= k
            &&& guards_of(ds[j])[guard].stops(req)
        },
        !(dispatch_decision(ds, req) is Handled),
{
    lemma_first_match_characterization(ds, req.head.method, req.head.path, 0);
    assert(ds[j].method == req.head.method);
    assert(has_method_match(ds, req.head.method));
    lemma_first_stopping_guard_characterization(guards_of(ds[j]), req, 0);
    match first_stopping_guard_from(guards_of(ds[j]), req, 0) {
        Some(g) => {
            if g > k {
                assert(!guards_of(ds[j])[k].stops(req));
            }
        }
        None => {
            assert(!guards_of(ds[j])[k].stops(req));
        }
    }
}

} // verus!
