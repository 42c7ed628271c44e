//! Route registration and resolution.
//!
//! A [`HyperRouter`] owns an ordered sequence of routes. Registration appends
//! to that sequence; resolution scans it and the first route whose method
//! equals the request's method and whose pattern matches the request's path
//! wins. The router's view is the sequence of [`RouteSpec`] values its routes
//! denote, in registration order.

use vstd::prelude::*;

use crate::pattern::Path;
use crate::pattern::pattern_matches;
use crate::pattern::pattern_valid;

verus! {

/// An HTTP method, one per registration operation of the router.
#[derive(Clone, Copy, Debug, PartialEq, Eq, Structural)]
pub enum Method {
    Get,
    Post,
    Put,
    Patch,
    Delete,
    Options,
    Head,
    Trace,
}

/// Why resolution returned no handler.
#[derive(Clone, Copy, Debug, PartialEq, Eq, Structural)]
pub enum RouterError {
    /// At least one route is registered for the request's method, but none of
    /// their patterns match the request's path. A host maps this to HTTP 404.
    NotFound,
    /// No route at all is registered for the request's method. A host maps
    /// this to HTTP 501.
    NotImplemented,
}

/// What one registered route denotes: its method, the pattern string its
/// matcher was compiled from, and its handler.
pub ghost struct RouteSpec<H> {
    pub method: Method,
    pub pattern: Seq<char>,
    pub handler: H,
}

struct Route<H> {
    method: Method,
    path: Path,
    handler: H,
}

impl<H> View for Route<H> {
    type V = RouteSpec<H>;

    closed spec fn view(&self) -> RouteSpec<H> {
        RouteSpec { method: self.method, pattern: self.path@, handler: self.handler }
    }
}

/// Whether `route` applies to a request with the given method and path.
pub open spec fn route_matches<H>(route: RouteSpec<H>, method: Method, path: Seq<char>) -> bool {
    route.method == method && pattern_matches(route.pattern, path)
}

/// Whether any route in `routes` is registered for `method`, whatever its
/// pattern.
pub open spec fn has_route_for_method<H>(routes: Seq<RouteSpec<H>>, method: Method) -> bool {
    exists|i: int| 0 <= i < routes.len() && (#[trigger] routes[i]).method == method
}

/// The handler of the first route in `routes` that applies to the given
/// method and path, if any.
pub open spec fn first_match<H>(routes: Seq<RouteSpec<H>>, method: Method, path: Seq<char>) -> Option<H>
    decreases routes.len(),
{
    if routes.len() == 0 {
        None
    } else if route_matches(routes[0], method, path) {
        Some(routes[0].handler)
    } else {
        first_match(routes.drop_first(), method, path)
    }
}

/// What resolution returns: `NotImplemented` when no route is registered for
/// the method at all, otherwise the first matching route's handler, otherwise
/// `NotFound`.
pub open spec fn spec_find_handler<H>(
    routes: Seq<RouteSpec<H>>,
    method: Method,
    path: Seq<char>,
) -> Result<H, RouterError> {
    if !has_route_for_method(routes, method) {
        Err(RouterError::NotImplemented)
    } else {
        match first_match(routes, method, path) {
            Some(handler) => Ok(handler),
            None => Err(RouterError::NotFound),
        }
    }
}

/// An ordered collection of routes. Registration happens during a
/// single-threaded setup phase; once built, a router is a read-only value
/// safe to query concurrently, since no method takes `&mut self`.
pub struct HyperRouter<H> {
    routes: Vec<Route<H>>,
}

impl<H> View for HyperRouter<H> {
    type V = Seq<RouteSpec<H>>;

    closed spec fn view(&self) -> Seq<RouteSpec<H>> {
        Seq::new(self.routes@.len(), |i: int| self.routes@[i]@)
    }
}

impl<H> HyperRouter<H> {
    /// A router with no routes.
    pub fn new() -> (r: Self)
        ensures
            r@ == Seq::<RouteSpec<H>>::empty(),
    {
        let r = HyperRouter { routes: Vec::new() };
        proof {
            assert(r@ =~= Seq::<RouteSpec<H>>::empty());
        }
        r
    }

    /// How many routes are registered.
    pub fn route_count(&self) -> (r: usize)
        ensures
            r == self@.len(),
    {
        self.routes.len()
    }

    fn push_route(self, method: Method, path: &str, handler: H) -> (r: Self)
        requires
            pattern_valid(path@),
        ensures
            r@ == self@.push((RouteSpec { method: method, pattern: path@, handler: handler })),
    {
        let ghost old_view = self@;
        let mut s = self;
        s.routes.push(Route { method: method, path: Path::new(path), handler: handler });
        proof {
            assert(s@ =~= old_view.push(
                (RouteSpec { method: method, pattern: path@, handler: handler }),
            ));
        }
        s
    }

    /// Appends a route for GET requests.
    pub fn get(self, path: &str, handler: H) -> (r: Self)
        requires
            pattern_valid(path@),
        ensures
            r@ == self@.push((RouteSpec { method: Method::Get, pattern: path@, handler: handler })),
    {
        self.push_route(Method::Get, path, handler)
    }

    /// Appends a route for POST requests.
    pub fn post(self, path: &str, handler: H) -> (r: Self)
        requires
            pattern_valid(path@),
        ensures
            r@ == self@.push((RouteSpec { method: Method::Post, pattern: path@, handler: handler })),
    {
        self.push_route(Method::Post, path, handler)
    }

    /// Appends a route for PUT requests.
    pub fn put(self, path: &str, handler: H) -> (r: Self)
        requires
            pattern_valid(path@),
        ensures
            r@ == self@.push((RouteSpec { method: Method::Put, pattern: path@, handler: handler })),
    {
        self.push_route(Method::Put, path, handler)
    }

    /// Appends a route for PATCH requests.
    pub fn patch(self, path: &str, handler: H) -> (r: Self)
        requires
            pattern_valid(path@),
        ensures
            r@ == self@.push((RouteSpec { method: Method::Patch, pattern: path@, handler: handler })),
    {
        self.push_route(Method::Patch, path, handler)
    }

    /// Appends a route for DELETE requests.
    pub fn delete(self, path: &str, handler: H) -> (r: Self)
        requires
            pattern_valid(path@),
        ensures
            r@ == self@.push((RouteSpec { method: Method::Delete, pattern: path@, handler: handler })),
    {
        self.push_route(Method::Delete, path, handler)
    }

    /// Appends a route for OPTIONS requests.
    pub fn options(self, path: &str, handler: H) -> (r: Self)
        requires
            pattern_valid(path@),
        ensures
            r@ == self@.push((RouteSpec { method: Method::Options, pattern: path@, handler: handler })),
    {
        self.push_route(Method::Options, path, handler)
    }

    /// Appends a route for HEAD requests.
    pub fn head(self, path: &str, handler: H) -> (r: Self)
        requires
            pattern_valid(path@),
        ensures
            r@ == self@.push((RouteSpec { method: Method::Head, pattern: path@, handler: handler })),
    {
        self.push_route(Method::Head, path, handler)
    }

    /// Appends a route for TRACE requests.
    pub fn trace(self, path: &str, handler: H) -> (r: Self)
        requires
            pattern_valid(path@),
        ensures
            r@ == self@.push((RouteSpec { method: Method::Trace, pattern: path@, handler: handler })),
    {
        self.push_route(Method::Trace, path, handler)
    }

    /// Appends a route for the given method after checking the pattern
    /// string, instead of requiring a valid one up front. An invalid pattern
    /// leaves the router unchanged and is reported through `Err`, never
    /// registered silently.
    pub fn checked_route(self, method: Method, path: &str, handler: H) -> (r: Result<Self, Self>)
        ensures
            pattern_valid(path@) ==> (r matches Ok(router) && router@ == self@.push(
                (RouteSpec { method: method, pattern: path@, handler: handler }),
            )),
            !pattern_valid(path@) ==> (r matches Err(router) && router@ == self@),
    {
        if crate::pattern::pattern_is_valid(path) {
            Ok(
                match method {
                    Method::Get => self.get(path, handler),
                    Method::Post => self.post(path, handler),
                    Method::Put => self.put(path, handler),
                    Method::Patch => self.patch(path, handler),
                    Method::Delete => self.delete(path, handler),
                    Method::Options => self.options(path, handler),
                    Method::Head => self.head(path, handler),
                    Method::Trace => self.trace(path, handler),
                },
            )
        } else {
            Err(self)
        }
    }
}

impl<H: Copy> HyperRouter<H> {
    /// Resolves a request. The routes registered for `method` are considered
    /// in registration order and the first whose pattern matches `path` wins;
    /// with no route for `method` at all the result is
    /// `Err(RouterError::NotImplemented)`, and with routes for `method` but
    /// none matching the result is `Err(RouterError::NotFound)`.
    pub fn find_handler(&self, method: &Method, path: &str) -> (r: Result<H, RouterError>)
        ensures
            r == spec_find_handler(self@, *method, path@),
    {
        let mut saw_method = false;
        let n: usize = self.routes.len();
        let mut i: usize = 0;
        while i < n
            invariant
                i <= n,
                n == self.routes.len(),
                saw_method <==> exists|k: int|
                    0 <= k < i && (#[trigger] self@[k]).method == *method,
                forall|k: int| 0 <= k < i ==> !route_matches(#[trigger] self@[k], *method, path@),
            decreases n - i,
        {
            let route = &self.routes[i];
            if route.method == *method {
                saw_method = true;
                if route.path.matches(path) {
                    proof {
                        lemma_first_match_at(self@, *method, path@, i as int);
                        assert((#[trigger] self@[i as int]).method == *method);
                    }
                    return Ok(route.handler);
                }
            }
            i = i + 1;
        }
        proof {
            if saw_method {
                lemma_first_match_none(self@, *method, path@);
            }
        }
        if saw_method {
            Err(RouterError::NotFound)
        } else {
            Err(RouterError::NotImplemented)
        }
    }
}

/// The first matching route decides: when `routes[i]` applies to the request
/// and no earlier route does, the first match is `routes[i]`'s handler.
proof fn lemma_first_match_at<H>(routes: Seq<RouteSpec<H>>, method: Method, path: Seq<char>, i: int)
    requires
        0 <= i < routes.len(),
        route_matches(routes[i], method, path),
        forall|k: int| 0 <= k < i ==> !route_matches(#[trigger] routes[k], method, path),
    ensures
        first_match(routes, method, path) == Some(routes[i].handler),
    decreases i,
{
    if i > 0 {
        assert(!route_matches(routes[0], method, path));
        assert forall|k: int| 0 <= k < i - 1 implies !route_matches(
            #[trigger] routes.drop_first()[k],
            method,
            path,
        ) by {
            assert(routes.drop_first()[k] == routes[k + 1]);
        }
        assert(routes.drop_first()[i - 1] == routes[i]);
        lemma_first_match_at(routes.drop_first(), method, path, i - 1);
    }
}

/// When no route in `routes` applies to the request, there is no first match.
proof fn lemma_first_match_none<H>(routes: Seq<RouteSpec<H>>, method: Method, path: Seq<char>)
    requires
        forall|k: int| 0 <= k < routes.len() ==> !route_matches(#[trigger] routes[k], method, path),
    ensures
        first_match(routes, method, path) is None,
    decreases routes.len(),
{
    if routes.len() > 0 {
        assert forall|k: int| 0 <= k < routes.len() - 1 implies !route_matches(
            #[trigger] routes.drop_first()[k],
            method,
            path,
        ) by {
            assert(routes.drop_first()[k] == routes[k + 1]);
        }
        lemma_first_match_none(routes.drop_first(), method, path);
    }
}

/// A first match is the handler of some applicable route.
proof fn lemma_first_match_witness<H>(routes: Seq<RouteSpec<H>>, method: Method, path: Seq<char>)
    requires
        first_match(routes, method, path) is Some,
    ensures
        exists|i: int|
            0 <= i < routes.len() && route_matches(#[trigger] routes[i], method, path)
                && routes[i].handler == first_match(routes, method, path)->Some_0,
    decreases routes.len(),
{
    if route_matches(routes[0], method, path) {
        assert(route_matches(routes[0], method, path) && routes[0].handler == first_match(
            routes,
            method,
            path,
        )->Some_0);
    } else {
        lemma_first_match_witness(routes.drop_first(), method, path);
        let i = choose|i: int|
            0 <= i < routes.drop_first().len() && route_matches(
                #[trigger] routes.drop_first()[i],
                method,
                path,
            ) && routes.drop_first()[i].handler == first_match(
                routes.drop_first(),
                method,
                path,
            )->Some_0;
        assert(routes.drop_first()[i] == routes[i + 1]);
        assert(route_matches(routes[i + 1], method, path) && routes[i + 1].handler == first_match(
            routes,
            method,
            path,
        )->Some_0);
    }
}

/// A method with no registered route at all resolves to `NotImplemented`,
/// whatever the path.
pub proof fn lemma_unregistered_method_not_implemented<H>(
    routes: Seq<RouteSpec<H>>,
    method: Method,
    path: Seq<char>,
)
    requires
        forall|i: int| 0 <= i < routes.len() ==> (#[trigger] routes[i]).method != method,
    ensures
        spec_find_handler(routes, method, path) == Err::<H, RouterError>(
            RouterError::NotImplemented,
        ),
{
}

/// A method with registered routes, none of whose patterns match the path,
/// resolves to `NotFound`.
pub proof fn lemma_no_matching_route_not_found<H>(
    routes: Seq<RouteSpec<H>>,
    method: Method,
    path: Seq<char>,
)
    requires
        has_route_for_method(routes, method),
        forall|i: int| 0 <= i < routes.len() ==> !route_matches(#[trigger] routes[i], method, path),
    ensures
        spec_find_handler(routes, method, path) == Err::<H, RouterError>(RouterError::NotFound),
{
    lemma_first_match_none(routes, method, path);
}

/// First-match precedence: when two routes `i` and `j`, registered in that
/// order, both apply to the request and no route before `i` does, resolution
/// returns route `i`'s handler — never route `j`'s, however `j`'s pattern
/// overlaps.
pub proof fn lemma_first_match_precedence<H>(
    routes: Seq<RouteSpec<H>>,
    method: Method,
    path: Seq<char>,
    i: int,
    j: int,
)
    requires
        0 <= i < j < routes.len(),
        route_matches(routes[i], method, path),
        route_matches(routes[j], method, path),
        forall|k: int| 0 <= k < i ==> !route_matches(#[trigger] routes[k], method, path),
    ensures
        spec_find_handler(routes, method, path) == Ok::<H, RouterError>(routes[i].handler),
{
    lemma_first_match_at(routes, method, path, i);
    assert((#[trigger] routes[i]).method == method);
}

/// Method isolation: a returned handler always belongs to a route registered
/// for the request's own method, so a route registered only for one method
/// never answers a request with another.
pub proof fn lemma_method_isolation<H>(routes: Seq<RouteSpec<H>>, method: Method, path: Seq<char>)
    ensures
        spec_find_handler(routes, method, path) matches Ok(handler) ==> exists|i: int|
            0 <= i < routes.len() && route_matches(#[trigger] routes[i], method, path)
                && routes[i].handler == handler,
{
    if spec_find_handler(routes, method, path) is Ok {
        lemma_first_match_witness(routes, method, path);
    }
}

/// Registration order independence across methods: appending a route for a
/// different method leaves resolution for this method unchanged.
pub proof fn lemma_cross_method_independence<H>(
    routes: Seq<RouteSpec<H>>,
    extra: RouteSpec<H>,
    method: Method,
    path: Seq<char>,
)
    requires
        extra.method != method,
    ensures
        spec_find_handler(routes.push(extra), method, path) == spec_find_handler(
            routes,
            method,
            path,
        ),
{
    let pushed = routes.push(extra);
    assert(has_route_for_method(pushed, method) == has_route_for_method(routes, method)) by {
        if has_route_for_method(pushed, method) {
            let i = choose|i: int|
                0 <= i < pushed.len() && (#[trigger] pushed[i]).method == method;
            assert(i < routes.len() && (#[trigger] routes[i]).method == method);
        }
        if has_route_for_method(routes, method) {
            let i = choose|i: int|
                0 <= i < routes.len() && (#[trigger] routes[i]).method == method;
            assert((#[trigger] pushed[i]).method == method);
        }
    }
    lemma_first_match_push_other(routes, extra, method, path);
}

/// Appending a route for a different method leaves the first match for this
/// method unchanged.
proof fn lemma_first_match_push_other<H>(
    routes: Seq<RouteSpec<H>>,
    extra: RouteSpec<H>,
    method: Method,
    path: Seq<char>,
)
    requires
        extra.method != method,
    ensures
        first_match(routes.push(extra), method, path) == first_match(routes, method, path),
    decreases routes.len(),
{
    let pushed = routes.push(extra);
    if routes.len() == 0 {
        assert(pushed[0] == extra);
        assert(!route_matches(extra, method, path));
        assert(pushed.drop_first() =~= Seq::<RouteSpec<H>>::empty());
    } else {
        assert(pushed[0] == routes[0]);
        assert(pushed.drop_first() =~= routes.drop_first().push(extra));
        lemma_first_match_push_other(routes.drop_first(), extra, method, path);
    }
}

} // verus!
