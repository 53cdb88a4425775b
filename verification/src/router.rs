//! The router: maps base-path prefixes to controllers.
//!
//! The first registered route whose base path is a literal prefix of the
//! request path wins — no longest-prefix matching.  The matched prefix is
//! stripped from the path before the controller dispatches, so a controller
//! at `/test` sees `/query` for an inbound `/test/query`.  When no route
//! matches, the response is 404.

use vstd::prelude::*;

use crate::controller::Controller;
use crate::message::{BinReqView, BinaryRequest, ResponseBuilder};

verus! {

/// Whether `prefix` is a (literal) prefix of `path`.
pub open spec fn is_prefix_of(prefix: Seq<char>, path: Seq<char>) -> bool {
    prefix.len() <= path.len() && path.subrange(0, prefix.len() as int) == prefix
}

/// Index of the first route, at `i` or later, whose base path prefixes
/// `path`.
pub open spec fn first_route_from<C>(
    routes: Seq<(String, C)>,
    path: Seq<char>,
    i: int,
) -> Option<int>
    decreases routes.len() - i,
{
    if i < 0 || i >= routes.len() {
        None
    } else if is_prefix_of(routes[i].0@, path) {
        Some(i)
    } else {
        first_route_from(routes, path, i + 1)
    }
}

/// The request as the selected controller sees it: the matched prefix of
/// length `n` stripped from the path, everything else untouched.
pub open spec fn stripped(r: BinReqView, n: int) -> BinReqView {
    BinReqView { head: r.head.with_path(r.head.path.skip(n)), ..r }
}

/// What a routing call reports: the selected route's index, or that none
/// matched.
#[derive(Clone, Copy, PartialEq, Eq, Structural, Debug)]
pub enum RouterOutcome {
    NotFound,
    Routed { route: usize },
}

/// Whether `prefix` is a literal prefix of `path`.
fn str_has_prefix(path: &String, prefix: &String) -> (r: bool)
    ensures
        r == is_prefix_of(prefix@, path@),
{
    let plen = prefix.as_str().unicode_len();
    let slen = path.as_str().unicode_len();
    if plen > slen {
        return false;
    }
    let mut i: usize = 0;
    while i < plen
        invariant
            0 <= i <= plen,
            plen == prefix@.len(),
            slen == path@.len(),
            plen <= slen,
            forall|k: int| 0 <= k < i ==> path@[k] == prefix@[k],
        decreases plen - i,
    {
        if path.as_str().get_char(i) != prefix.as_str().get_char(i) {
            assert(!is_prefix_of(prefix@, path@)) by {
                if is_prefix_of(prefix@, path@) {
                    assert(prefix@[i as int] == path@.subrange(0, prefix@.len() as int)[i as int]);
                }
            }
            return false;
        }
        i = i + 1;
    }
    assert(path@.subrange(0, plen as int) =~= prefix@);
    true
}

/// Maps base paths to controllers, in registration order.
pub struct Router<C> {
    /// The routes: base path and controller, in registration order.
    pub routes: Vec<(String, C)>,
}

impl<C: Controller> Router<C> {
    /// A router with no routes: everything is 404.
    pub fn new() -> (r: Self)
        ensures
            r.routes@ == Seq::<(String, C)>::empty(),
    {
        let r = Router { routes: Vec::new() };
        assert(r.routes@ =~= Seq::<(String, C)>::empty());
        r
    }

    /// Route the request: the first registered controller whose base path
    /// prefixes the request path receives it, with the prefix stripped; 404
    /// when none matches.
    #[verifier::loop_isolation(false)]
    pub fn dispatch(&self, req: &mut BinaryRequest, res: &mut ResponseBuilder) -> (o:
        RouterOutcome)
        ensures
            match first_route_from(self.routes@, old(req)@.head.path, 0) {
                None => o == RouterOutcome::NotFound && final(req)@ == old(req)@ && final(res)@
                    == old(res)@.with_status(404),
                Some(i) => {
                    &&& (o matches RouterOutcome::Routed { route } && route as int == i)
                    &&& final(req)@ == stripped(old(req)@, self.routes@[i].0@.len() as int)
                    &&& final(res)@ == self.routes@[i].1.effect(
                        stripped(old(req)@, self.routes@[i].0@.len() as int),
                        old(res)@,
                    )
                },
            },
    {
        let ghost routes = self.routes@;
        let ghost req0 = req@;
        let ghost res0 = res@;
        let n = self.routes.len();
        let mut i: usize = 0;
        while i < n
            invariant
                0 <= i <= n,
                req@ == req0,
                res@ == res0,
                first_route_from(routes, req0.head.path, 0) == first_route_from(
                    routes,
                    req0.head.path,
                    i as int,
                ),
            decreases n - i,
        {
            if str_has_prefix(&req.head.path, &self.routes[i].0) {
                proof {
                    assert(first_route_from(routes, req0.head.path, i as int) == Some(i as int));
                }
                let plen = self.routes[i].0.as_str().unicode_len();
                let slen = req.head.path.as_str().unicode_len();
                let new_path = req.head.path.as_str().substring_char(plen, slen).to_owned();
                req.head.path = new_path;
                proof {
                    assert(req@.head =~= req0.head.with_path(req0.head.path.skip(plen as int)));
                    assert(req@ =~= stripped(req0, plen as int));
                }
                self.routes[i].1.handle(req, res);
                return RouterOutcome::Routed { route: i };
            }
            proof {
                assert(first_route_from(routes, req0.head.path, i as int) == first_route_from(
                    routes,
                    req0.head.path,
                    i + 1,
                ));
            }
            i = i + 1;
        }
        proof {
            assert(first_route_from(routes, req0.head.path, n as int) is None);
        }
        res.status(404);
        RouterOutcome::NotFound
    }
}

/// Assembles a [`Router`]: the order of `add` and `route` calls is the
/// matching order.
pub struct Builder<C> {
    /// The routes collected so far.
    pub routes: Vec<(String, C)>,
}

impl<C: Controller> Builder<C> {
    /// An empty builder.
    pub fn new() -> (r: Self)
        ensures
            r.routes@ == Seq::<(String, C)>::empty(),
    {
        let r = Builder { routes: Vec::new() };
        assert(r.routes@ =~= Seq::<(String, C)>::empty());
        r
    }

    /// Register a controller under its own base path.
    pub fn add(self, controller: C) -> (r: Self)
        ensures
            r.routes@.len() == self.routes@.len() + 1,
            r.routes@.subrange(0, self.routes@.len() as int) == self.routes@,
            r.routes@.last().0@ == controller.base_path_spec(),
            r.routes@.last().1 == controller,
    {
        let ghost before = self.routes@;
        let base = controller.base_path().to_owned();
        let mut routes = self.routes;
        routes.push((base, controller));
        assert(routes@.subrange(0, before.len() as int) =~= before);
        Builder { routes }
    }

    /// Register a controller under an explicit prefix, overriding its own
    /// base path.
    pub fn route(self, prefix: &str, controller: C) -> (r: Self)
        ensures
            r.routes@.len() == self.routes@.len() + 1,
            r.routes@.subrange(0, self.routes@.len() as int) == self.routes@,
            r.routes@.last().0@ == prefix@,
            r.routes@.last().1 == controller,
    {
        let ghost before = self.routes@;
        let base = prefix.to_owned();
        let mut routes = self.routes;
        routes.push((base, controller));
        assert(routes@.subrange(0, before.len() as int) =~= before);
        Builder { routes }
    }

    /// Build the router.
    pub fn build(self) -> (r: Router<C>)
        ensures
            r.routes@ == self.routes@,
    {
        Router { routes: self.routes }
    }
}

/// What `first_route_from` returns is the first registered matching route —
/// registration order, not longest prefix, breaks ties — and `None` exactly
/// when no base path prefixes the path.
pub proof fn lemma_first_route_characterization<C>(routes: Seq<(String, C)>, path: Seq<char>, j: int)
    requires
        0 <= j <= routes.len(),
    ensures
        match first_route_from(routes, path, j) {
            Some(i) => {
                &&& j <= i < routes.len()
                &&& is_prefix_of(routes[i].0@, path)
                &&& forall|k: int| j <= k < i ==> !is_prefix_of((#[trigger] routes[k]).0@, path)
            },
            None => forall|k: int|
                j <= k < routes.len() ==> !is_prefix_of((#[trigger] routes[k]).0@, path),
        },
    decreases routes.len() - j,
{
    if j < routes.len() {
        if !is_prefix_of(routes[j].0@, path) {
            lemma_first_route_characterization(routes, path, j + 1);
        }
    }
}

} // verus!
