//! The middleware chain: ordered include/exclude rules, each bound to a
//! middleware, resolved sequentially against the request's current path.
//!
//! A rule matches a path when at least one include pattern matches and no
//! exclude pattern does (exclusion wins).  The first matching rule's
//! middleware runs; if it continues, resolution moves to the next rule with
//! the (possibly mutated) request, and if it stops, the chain ends and the
//! response builder as written becomes the response.  The whole walk is the
//! spec function [`chain_from`].

use vstd::prelude::*;

use crate::message::{BuilderView, ReqView, Request, RequestContinuation, ResponseBuilder};
use crate::pattern::{regex_accepts, regex_compiles, Pattern};

verus! {

/// A pre-routing interceptor: may mutate the request and continue, or stop
/// the pipeline with the response builder as written.  A middleware may
/// write to the response builder only when it stops, and may mutate the
/// request only when it continues.
pub trait Middleware {
    /// Whether the middleware short-circuits this request.
    spec fn stops(&self, req: ReqView) -> bool;

    /// The request it forwards when it continues.
    spec fn transform(&self, req: ReqView) -> ReqView;

    /// What it leaves in the response builder when it stops.
    spec fn stop_write(&self, req: ReqView, res: BuilderView) -> BuilderView;

    /// Run the middleware on the request.
    fn resolve(&self, req: &mut Request, res: &mut ResponseBuilder) -> (c: RequestContinuation)
        ensures
            (c is Stop) == self.stops(old(req)@),
            self.stops(old(req)@) ==> final(req)@ == old(req)@ && final(res)@ == self.stop_write(
                old(req)@,
                old(res)@,
            ),
            !self.stops(old(req)@) ==> final(req)@ == self.transform(old(req)@) && final(res)@
                == old(res)@,
    ;
}

/// Abstract value of a rule: the include and exclude pattern texts, in
/// order.  An absent exclude list is the empty list.
#[verifier::ext_equal]
pub struct RuleView {
    pub includes: Seq<Seq<char>>,
    pub excludes: Seq<Seq<char>>,
}

/// Whether some include pattern matches the path.
pub open spec fn rule_includes(includes: Seq<Seq<char>>, path: Seq<char>) -> bool {
    exists|i: int| 0 <= i < includes.len() && regex_accepts(#[trigger] includes[i], path)
}

/// Whether some exclude pattern matches the path.
pub open spec fn rule_excludes(excludes: Seq<Seq<char>>, path: Seq<char>) -> bool {
    exists|i: int| 0 <= i < excludes.len() && regex_accepts(#[trigger] excludes[i], path)
}

/// A path matches a rule exactly when it matches at least one include
/// pattern and none of the exclude patterns.
pub open spec fn rule_matches(rule: RuleView, path: Seq<char>) -> bool {
    rule_includes(rule.includes, path) && !rule_excludes(rule.excludes, path)
}

/// An include/exclude pattern set bound to one middleware in the chain.
pub struct MiddlewareRule {
    included_path: Vec<Pattern>,
    excluded_path: Option<Vec<Pattern>>,
}

/// The pattern texts of a pattern list.
pub open spec fn pattern_texts(ps: Seq<Pattern>) -> Seq<Seq<char>> {
    ps.map_values(|p: Pattern| p@)
}

impl View for MiddlewareRule {
    type V = RuleView;

    closed spec fn view(&self) -> RuleView {
        RuleView {
            includes: pattern_texts(self.included_path@),
            excludes: match self.excluded_path {
                Some(e) => pattern_texts(e@),
                None => Seq::empty(),
            },
        }
    }
}

impl MiddlewareRule {
    /// Compile the include and exclude pattern texts into a rule.  Every
    /// pattern text must be a valid regular expression.
    pub fn new(include_path: Vec<&str>, exclude_path: Option<Vec<&str>>) -> (r: MiddlewareRule)
        requires
            forall|i: int|
                0 <= i < include_path@.len() ==> regex_compiles((#[trigger] include_path@[i])@),
            exclude_path matches Some(e) ==> forall|i: int|
                0 <= i < e@.len() ==> regex_compiles((#[trigger] e@[i])@),
        ensures
            r@.includes == include_path.deep_view(),
            r@.excludes == match exclude_path {
                Some(e) => e.deep_view(),
                None => Seq::<Seq<char>>::empty(),
            },
    {
        let included_path = Self::compile_all(&include_path);
        let excluded_path = match &exclude_path {
            Some(e) => Some(Self::compile_all(e)),
            None => None,
        };
        let r = MiddlewareRule { included_path, excluded_path };
        assert(r@.includes =~= include_path.deep_view());
        match &exclude_path {
            Some(e) => {
                assert(r@.excludes =~= e.deep_view());
            }
            None => {
                assert(r@.excludes =~= Seq::<Seq<char>>::empty());
            }
        }
        r
    }

    /// Compile each pattern text of a list.
    fn compile_all(texts: &Vec<&str>) -> (ps: Vec<Pattern>)
        requires
            forall|i: int| 0 <= i < texts@.len() ==> regex_compiles((#[trigger] texts@[i])@),
        ensures
            pattern_texts(ps@) == texts.deep_view(),
    {
        let mut ps: Vec<Pattern> = Vec::new();
        let mut i: usize = 0;
        let n = texts.len();
        while i < n
            invariant
                0 <= i <= n,
                n == texts@.len(),
                forall|k: int| 0 <= k < texts@.len() ==> regex_compiles((#[trigger] texts@[k])@),
                ps@.len() == i,
                forall|k: int| 0 <= k < i ==> (#[trigger] ps@[k])@ == texts@[k]@,
            decreases n - i,
        {
            match Pattern::new(texts[i]) {
                Some(p) => {
                    ps.push(p);
                }
                None => {
                    proof {
                        assert(false);
                    }
                }
            }
            i = i + 1;
        }
        assert(pattern_texts(ps@) =~= texts.deep_view());
        ps
    }

    /// Whether the rule applies to this path.
    #[verifier::loop_isolation(false)]
    pub fn validate_path(&self, path: &str) -> (r: bool)
        ensures
            r == rule_matches(self@, path@),
    {
        let mut included = false;
        let mut i: usize = 0;
        let n = self.included_path.len();
        while i < n
            invariant
                0 <= i <= n,
                included == exists|k: int|
                    0 <= k < i && regex_accepts(#[trigger] self@.includes[k], path@),
            decreases n - i,
        {
            if self.included_path[i].is_match(path) {
                proof {
                    assert(self@.includes[i as int] == self.included_path@[i as int]@);
                }
                included = true;
            }
            i = i + 1;
        }
        if !included {
            assert(!rule_includes(self@.includes, path@));
            return false;
        }
        assert(rule_includes(self@.includes, path@));
        match &self.excluded_path {
            Some(excludes) => {
                let mut j: usize = 0;
                let en = excludes.len();
                while j < en
                    invariant
                        0 <= j <= en,
                        forall|k: int| 0 <= k < j ==> !regex_accepts(#[trigger] self@.excludes[k], path@),
                    decreases en - j,
                {
                    proof {
                        assert(self@.excludes[j as int] == excludes@[j as int]@);
                    }
                    if excludes[j].is_match(path) {
                        assert(rule_excludes(self@.excludes, path@));
                        return false;
                    }
                    j = j + 1;
                }
                assert(!rule_excludes(self@.excludes, path@));
                true
            }
            None => {
                assert(!rule_excludes(self@.excludes, path@));
                true
            }
        }
    }
}

/// What the chain does from rule `i` on: the first matching rule's
/// middleware decides; `Passed` carries the final request state when the
/// cursor exhausts the list without a stop.
pub enum ChainOutcome {
    Stopped { index: int, req: ReqView, res: BuilderView },
    Passed { req: ReqView },
}

/// Walk the rules from index `i` with the current request and response
/// builder.
pub open spec fn chain_from<M: Middleware>(
    mws: Seq<(MiddlewareRule, M)>,
    i: int,
    req: ReqView,
    res: BuilderView,
) -> ChainOutcome
    decreases mws.len() - i,
{
    if i < 0 || i >= mws.len() {
        ChainOutcome::Passed { req }
    } else if rule_matches(mws[i].0@, req.path) {
        if mws[i].1.stops(req) {
            ChainOutcome::Stopped { index: i, req, res: mws[i].1.stop_write(req, res) }
        } else {
            chain_from(mws, i + 1, mws[i].1.transform(req), res)
        }
    } else {
        chain_from(mws, i + 1, req, res)
    }
}

/// The layering of middlewares: ordered rules, resolved first to last.
pub struct MiddlewareStack<M> {
    /// The rules with their middlewares, in application order.
    pub middlewares: Vec<(MiddlewareRule, M)>,
}

impl<M: Middleware> MiddlewareStack<M> {
    /// An empty chain: every request passes through unchanged.
    pub fn new() -> (r: Self)
        ensures
            r.middlewares@ == Seq::<(MiddlewareRule, M)>::empty(),
    {
        let r = MiddlewareStack { middlewares: Vec::new() };
        assert(r.middlewares@ =~= Seq::<(MiddlewareRule, M)>::empty());
        r
    }

    /// Resolve the request through the chain: the first rule matching the
    /// request's current path runs its middleware; a `Stop` ends the walk.
    #[verifier::loop_isolation(false)]
    pub fn resolve(&self, req: &mut Request, res: &mut ResponseBuilder) -> (c: RequestContinuation)
        ensures
            match chain_from(self.middlewares@, 0, old(req)@, old(res)@) {
                ChainOutcome::Stopped { index, req: r2, res: rs2 } => c is Stop && final(req)@
                    == r2 && final(res)@ == rs2,
                ChainOutcome::Passed { req: r2 } => c is Continue && final(req)@ == r2
                    && final(res)@ == old(res)@,
            },
    {
        let ghost mws = self.middlewares@;
        let ghost req0 = req@;
        let ghost res0 = res@;
        let mut i: usize = 0;
        let n = self.middlewares.len();
        while i < n
            invariant
                0 <= i <= n,
                res@ == res0,
                chain_from(mws, 0, req0, res0) == chain_from(mws, i as int, req@, res@),
            decreases n - i,
        {
            let pair = &self.middlewares[i];
            let ghost before = req@;
            if pair.0.validate_path(req.path.as_str()) {
                let c = pair.1.resolve(req, res);
                match c {
                    RequestContinuation::Stop => {
                        proof {
                            assert(chain_from(mws, i as int, before, res0)
                                == ChainOutcome::Stopped {
                                index: i as int,
                                req: before,
                                res: mws[i as int].1.stop_write(before, res0),
                            });
                        }
                        return RequestContinuation::Stop;
                    }
                    RequestContinuation::Continue => {
                        proof {
                            assert(chain_from(mws, i as int, before, res0) == chain_from(
                                mws,
                                i + 1,
                                mws[i as int].1.transform(before),
                                res0,
                            ));
                        }
                    }
                }
            } else {
                proof {
                    assert(chain_from(mws, i as int, before, res0) == chain_from(
                        mws,
                        i + 1,
                        before,
                        res0,
                    ));
                }
            }
            i = i + 1;
        }
        proof {
            assert(chain_from(mws, n as int, req@, res@) == ChainOutcome::Passed { req: req@ });
        }
        RequestContinuation::Continue
    }
}

/// Assembles a [`MiddlewareStack`]: the order of `apply` calls is the
/// resolution order.
pub struct Builder<M> {
    /// The rules collected so far, in application order.
    pub stack: Vec<(MiddlewareRule, M)>,
}

impl<M: Middleware> Builder<M> {
    /// An empty builder.
    pub fn new() -> (r: Self)
        ensures
            r.stack@ == Seq::<(MiddlewareRule, M)>::empty(),
    {
        let r = Builder { stack: Vec::new() };
        assert(r.stack@ =~= Seq::<(MiddlewareRule, M)>::empty());
        r
    }

    /// Apply a middleware to the paths matching `include_path` except those
    /// matching `exclude_path`.  Every pattern text must be a valid regular
    /// expression.
    pub fn apply(self, m: M, include_path: Vec<&str>, exclude_path: Option<Vec<&str>>) -> (r: Self)
        requires
            forall|i: int|
                0 <= i < include_path@.len() ==> regex_compiles((#[trigger] include_path@[i])@),
            exclude_path matches Some(e) ==> forall|i: int|
                0 <= i < e@.len() ==> regex_compiles((#[trigger] e@[i])@),
        ensures
            r.stack@.len() == self.stack@.len() + 1,
            r.stack@.subrange(0, self.stack@.len() as int) == self.stack@,
            r.stack@.last().0@.includes == include_path.deep_view(),
            r.stack@.last().0@.excludes == match exclude_path {
                Some(e) => e.deep_view(),
                None => Seq::<Seq<char>>::empty(),
            },
            r.stack@.last().1 == m,
    {
        let ghost before = self.stack@;
        let rule = MiddlewareRule::new(include_path, exclude_path);
        let mut stack = self.stack;
        stack.push((rule, m));
        assert(stack@.subrange(0, before.len() as int) =~= before);
        Builder { stack }
    }

    /// Apply a middleware after first checking that every pattern text
    /// compiles: the flag reports whether it was applied; on a failure the
    /// builder comes back unchanged.
    #[verifier::loop_isolation(false)]
    pub fn try_apply(self, m: M, include_path: Vec<&str>, exclude_path: Option<Vec<&str>>) -> (r: (
        Self,
        bool,
    ))
        ensures
            r.1 == ((forall|i: int|
                0 <= i < include_path@.len() ==> regex_compiles((#[trigger] include_path@[i])@))
                && (exclude_path matches Some(e) ==> forall|i: int|
                0 <= i < e@.len() ==> regex_compiles((#[trigger] e@[i])@))),
            r.1 ==> {
                &&& r.0.stack@.len() == self.stack@.len() + 1
                &&& r.0.stack@.subrange(0, self.stack@.len() as int) == self.stack@
                &&& r.0.stack@.last().0@.includes == include_path.deep_view()
                &&& r.0.stack@.last().0@.excludes == match exclude_path {
                    Some(e) => e.deep_view(),
                    None => Seq::<Seq<char>>::empty(),
                }
                &&& r.0.stack@.last().1 == m
            },
            !r.1 ==> r.0.stack@ == self.stack@,
    {
        let mut i: usize = 0;
        let n = include_path.len();
        while i < n
            invariant
                0 <= i <= n,
                forall|k: int| 0 <= k < i ==> regex_compiles((#[trigger] include_path@[k])@),
            decreases n - i,
        {
            if Pattern::new(include_path[i]).is_none() {
                return (self, false);
            }
            i = i + 1;
        }
        match &exclude_path {
            Some(excludes) => {
                let mut j: usize = 0;
                let en = excludes.len();
                while j < en
                    invariant
                        0 <= j <= en,
                        forall|k: int| 0 <= k < j ==> regex_compiles((#[trigger] excludes@[k])@),
                    decreases en - j,
                {
                    if Pattern::new(excludes[j]).is_none() {
                        return (self, false);
                    }
                    j = j + 1;
                }
            }
            None => {}
        }
        (self.apply(m, include_path, exclude_path), true)
    }

    /// Build the middleware stack.
    pub fn build(self) -> (r: MiddlewareStack<M>)
        ensures
            r.middlewares@ == self.stack@,
    {
        MiddlewareStack { middlewares: self.stack }
    }
}

/// Middleware that stores a fixed side-channel entry on the request and
/// continues: a later middleware or the handler can read it.
pub struct ExtensionTag {
    /// The side-channel key written.
    pub key: String,
    /// The value stored under the key.
    pub value: String,
}

impl Middleware for ExtensionTag {
    open spec fn stops(&self, req: ReqView) -> bool {
        false
    }

    open spec fn transform(&self, req: ReqView) -> ReqView {
        ReqView { extensions: req.extensions.push((self.key@, self.value@)), ..req }
    }

    open spec fn stop_write(&self, req: ReqView, res: BuilderView) -> BuilderView {
        res
    }

    fn resolve(&self, req: &mut Request, res: &mut ResponseBuilder) -> (c: RequestContinuation) {
        req.insert_extension(self.key.clone(), self.value.clone());
        RequestContinuation::Continue
    }
}

/// Middleware that stops every request it sees with a fixed status.
pub struct StopWith {
    /// The status written when stopping.
    pub status: u16,
}

impl Middleware for StopWith {
    open spec fn stops(&self, req: ReqView) -> bool {
        true
    }

    open spec fn transform(&self, req: ReqView) -> ReqView {
        req
    }

    open spec fn stop_write(&self, req: ReqView, res: BuilderView) -> BuilderView {
        res.with_status(self.status)
    }

    fn resolve(&self, req: &mut Request, res: &mut ResponseBuilder) -> (c: RequestContinuation) {
        res.status(self.status);
        RequestContinuation::Stop
    }
}

/// Middleware that stops with a fixed status exactly when the request
/// carries a side-channel entry under `key`, and continues otherwise: it
/// observes what an earlier middleware stored.
pub struct StopIfTagged {
    /// The side-channel key looked up.
    pub key: String,
    /// The status written when the key is present.
    pub status: u16,
}

impl Middleware for StopIfTagged {
    open spec fn stops(&self, req: ReqView) -> bool {
        crate::message::lookup_from(req.extensions, self.key@, 0) is Some
    }

    open spec fn transform(&self, req: ReqView) -> ReqView {
        req
    }

    open spec fn stop_write(&self, req: ReqView, res: BuilderView) -> BuilderView {
        res.with_status(self.status)
    }

    fn resolve(&self, req: &mut Request, res: &mut ResponseBuilder) -> (c: RequestContinuation) {
        match req.get_extension(&self.key) {
            Some(_) => {
                res.status(self.status);
                RequestContinuation::Stop
            }
            None => RequestContinuation::Continue,
        }
    }
}

/// One type covering the ready-made middlewares, so that a single chain can
/// mix them: a chain is homogeneous in its middleware type.
pub enum BuiltinMiddleware {
    /// Stores a side-channel entry and continues.
    Tag(ExtensionTag),
    /// Stops when a side-channel key is present.
    StopTagged(StopIfTagged),
    /// Stops every request.
    Stop(StopWith),
}

impl Middleware for BuiltinMiddleware {
    open spec fn stops(&self, req: ReqView) -> bool {
        match self {
            BuiltinMiddleware::Tag(m) => m.stops(req),
            BuiltinMiddleware::StopTagged(m) => m.stops(req),
            BuiltinMiddleware::Stop(m) => m.stops(req),
        }
    }

    open spec fn transform(&self, req: ReqView) -> ReqView {
        match self {
            BuiltinMiddleware::Tag(m) => m.transform(req),
            BuiltinMiddleware::StopTagged(m) => m.transform(req),
            BuiltinMiddleware::Stop(m) => m.transform(req),
        }
    }

    open spec fn stop_write(&self, req: ReqView, res: BuilderView) -> BuilderView {
        match self {
            BuiltinMiddleware::Tag(m) => m.stop_write(req, res),
            BuiltinMiddleware::StopTagged(m) => m.stop_write(req, res),
            BuiltinMiddleware::Stop(m) => m.stop_write(req, res),
        }
    }

    fn resolve(&self, req: &mut Request, res: &mut ResponseBuilder) -> (c: RequestContinuation) {
        match self {
            BuiltinMiddleware::Tag(m) => m.resolve(req, res),
            BuiltinMiddleware::StopTagged(m) => m.resolve(req, res),
            BuiltinMiddleware::Stop(m) => m.resolve(req, res),
        }
    }
}

/// Middleware order sensitivity: in a two-rule chain where both rules match
/// and neither middleware stops, the second middleware acts on the first
/// one's transform of the request, never the other way round; the chain
/// passes the composition onward.
pub proof fn lemma_chain_pair_order<M: Middleware>(
    mws: Seq<(MiddlewareRule, M)>,
    req: ReqView,
    res: BuilderView,
)
    requires
        mws.len() == 2,
        rule_matches(mws[0].0@, req.path),
        !mws[0].1.stops(req),
        rule_matches(mws[1].0@, mws[0].1.transform(req).path),
        !mws[1].1.stops(mws[0].1.transform(req)),
    ensures
        chain_from(mws, 0, req, res) == (ChainOutcome::Passed {
            req: mws[1].1.transform(mws[0].1.transform(req)),
        }),
{
    assert(chain_from(mws, 0, req, res) == chain_from(mws, 1, mws[0].1.transform(req), res));
    assert(chain_from(mws, 1, mws[0].1.transform(req), res) == chain_from(
        mws,
        2,
        mws[1].1.transform(mws[0].1.transform(req)),
        res,
    ));
}

/// A middleware that stops ends the chain at its own index: nothing after it
/// runs, and the response is exactly what that middleware wrote.
pub proof fn lemma_stop_ends_chain<M: Middleware>(
    mws: Seq<(MiddlewareRule, M)>,
    i: int,
    req: ReqView,
    res: BuilderView,
)
    requires
        0 <= i < mws.len(),
        rule_matches(mws[i].0@, req.path),
        mws[i].1.stops(req),
    ensures
        chain_from(mws, i, req, res) == (ChainOutcome::Stopped {
            index: i,
            req,
            res: mws[i].1.stop_write(req, res),
        }),
{
}

} // verus!
