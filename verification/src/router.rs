//! The route table: from a method and a path to the handler that answers.
//!
//! A route matches a path either exactly or by a prefix. Behind a prefix
//! stands one dynamic segment: the rest of the path, which the handler
//! receives. A route that matches exactly wins over every prefix route;
//! among routes of one kind the first in the table wins.

use crate::request::HttpMethod;
use crate::text::{ascii, ascii_bytes, bytes_eq, has_prefix};
use vstd::prelude::*;
use vstd::slice::{slice_subrange, slice_to_vec};

verus! {

/// The handlers that a route can name.
#[derive(Clone, Copy, Debug, PartialEq, Eq, Structural)]
pub enum Handler {
    /// Answers with success and nothing else.
    Root,
    /// Sends the dynamic segment back.
    Echo,
    /// Sends the `user-agent` header of the request back.
    UserAgent,
    /// Sends the blob that the dynamic segment names.
    FileRead,
    /// Stores the body of the request as the blob that the dynamic segment
    /// names.
    FileWrite,
}

/// How a route reads a path, as byte strings.
pub enum MatcherModel {
    Exact(Seq<u8>),
    Prefix(Seq<u8>),
}

/// How a route reads a path.
#[derive(Clone, Debug, PartialEq, Eq)]
pub enum Matcher {
    /// The path is this string.
    Exact(Vec<u8>),
    /// The path begins with this string; the rest is the dynamic segment.
    Prefix(Vec<u8>),
}

impl View for Matcher {
    type V = MatcherModel;

    open spec fn view(&self) -> MatcherModel {
        match self {
            Matcher::Exact(path) => MatcherModel::Exact(path@),
            Matcher::Prefix(prefix) => MatcherModel::Prefix(prefix@),
        }
    }
}

/// A route, as a mathematical value.
pub struct RouteModel {
    pub method: HttpMethod,
    pub matcher: MatcherModel,
    pub handler: Handler,
}

/// One line of the route table.
#[derive(Clone, Debug, PartialEq, Eq)]
pub struct Route {
    pub method: HttpMethod,
    pub matcher: Matcher,
    pub handler: Handler,
}

impl View for Route {
    type V = RouteModel;

    open spec fn view(&self) -> RouteModel {
        RouteModel { method: self.method, matcher: self.matcher@, handler: self.handler }
    }
}

/// The handler that a request goes to, and the dynamic segment of its path.
/// For an exact route the segment is empty.
#[derive(Clone, Debug, PartialEq, Eq)]
pub struct RouteMatch {
    pub handler: Handler,
    pub segment: Vec<u8>,
}

impl View for RouteMatch {
    type V = (Handler, Seq<u8>);

    open spec fn view(&self) -> (Handler, Seq<u8>) {
        (self.handler, self.segment@)
    }
}

impl RouteModel {
    /// Whether this is an exact route for `method` and `path`.
    pub open spec fn is_exactly(self, method: HttpMethod, path: Seq<u8>) -> bool {
        self.method == method && self.matcher == MatcherModel::Exact(path)
    }

    /// Whether this is a prefix route for `method` whose prefix begins
    /// `path`.
    pub open spec fn is_prefix_of(self, method: HttpMethod, path: Seq<u8>) -> bool {
        self.method == method && match self.matcher {
            MatcherModel::Exact(_) => false,
            MatcherModel::Prefix(prefix) => prefix.is_prefix_of(path),
        }
    }

    /// The dynamic segment that this route finds in `path`.
    pub open spec fn segment(self, path: Seq<u8>) -> Seq<u8> {
        match self.matcher {
            MatcherModel::Exact(_) => Seq::empty(),
            MatcherModel::Prefix(prefix) => path.skip(prefix.len() as int),
        }
    }
}

/// The handler of the first exact route for `method` and `path`.
pub open spec fn find_exact(routes: Seq<RouteModel>, method: HttpMethod, path: Seq<u8>) -> Option<
    Handler,
>
    decreases routes.len(),
{
    if routes.len() == 0 {
        None
    } else if routes[0].is_exactly(method, path) {
        Some(routes[0].handler)
    } else {
        find_exact(routes.skip(1), method, path)
    }
}

/// The handler of the first prefix route for `method` whose prefix begins
/// `path`, and the dynamic segment behind that prefix.
pub open spec fn find_prefix(routes: Seq<RouteModel>, method: HttpMethod, path: Seq<u8>) -> Option<
    (Handler, Seq<u8>),
>
    decreases routes.len(),
{
    if routes.len() == 0 {
        None
    } else if routes[0].is_prefix_of(method, path) {
        Some((routes[0].handler, routes[0].segment(path)))
    } else {
        find_prefix(routes.skip(1), method, path)
    }
}

/// Where the table `routes` sends `method` and `path`: to the first exact
/// route for them; where there is none, to the first prefix route; where
/// there is none either, nowhere.
pub open spec fn dispatch_model(routes: Seq<RouteModel>, method: HttpMethod, path: Seq<u8>)
    -> Option<(Handler, Seq<u8>)> {
    match find_exact(routes, method, path) {
        Some(handler) => Some((handler, Seq::empty())),
        None => find_prefix(routes, method, path),
    }
}

/// The table of the server:
/// `GET /`, `GET /echo/{value}`, `GET /user-agent`, `GET /files/{name}` and
/// `POST /files/{name}`.
pub open spec fn standard_routes() -> Seq<RouteModel> {
    seq![
        RouteModel {
            method: HttpMethod::GET,
            matcher: MatcherModel::Exact(ascii("/"@)),
            handler: Handler::Root,
        },
        RouteModel {
            method: HttpMethod::GET,
            matcher: MatcherModel::Prefix(ascii("/echo/"@)),
            handler: Handler::Echo,
        },
        RouteModel {
            method: HttpMethod::GET,
            matcher: MatcherModel::Exact(ascii("/user-agent"@)),
            handler: Handler::UserAgent,
        },
        RouteModel {
            method: HttpMethod::GET,
            matcher: MatcherModel::Prefix(ascii("/files/"@)),
            handler: Handler::FileRead,
        },
        RouteModel {
            method: HttpMethod::POST,
            matcher: MatcherModel::Prefix(ascii("/files/"@)),
            handler: Handler::FileWrite,
        },
    ]
}

/// Where the table of the server sends `method` and `path`, route by route.
pub open spec fn standard_dispatch(method: HttpMethod, path: Seq<u8>) -> Option<
    (Handler, Seq<u8>),
> {
    if method == HttpMethod::GET && path == ascii("/"@) {
        Some((Handler::Root, Seq::empty()))
    } else if method == HttpMethod::GET && path == ascii("/user-agent"@) {
        Some((Handler::UserAgent, Seq::empty()))
    } else if method == HttpMethod::GET && ascii("/echo/"@).is_prefix_of(path) {
        Some((Handler::Echo, path.skip(6)))
    } else if method == HttpMethod::GET && ascii("/files/"@).is_prefix_of(path) {
        Some((Handler::FileRead, path.skip(7)))
    } else if method == HttpMethod::POST && ascii("/files/"@).is_prefix_of(path) {
        Some((Handler::FileWrite, path.skip(7)))
    } else {
        None
    }
}

/// Whether the table of the server has a route for `method` and `path`.
pub open spec fn registered(method: HttpMethod, path: Seq<u8>) -> bool {
    ||| method == HttpMethod::GET && path == ascii("/"@)
    ||| method == HttpMethod::GET && path == ascii("/user-agent"@)
    ||| method == HttpMethod::GET && ascii("/echo/"@).is_prefix_of(path)
    ||| method == HttpMethod::GET && ascii("/files/"@).is_prefix_of(path)
    ||| method == HttpMethod::POST && ascii("/files/"@).is_prefix_of(path)
}

/// The table of the server sends each request where `standard_dispatch`
/// says, and sends nowhere exactly the requests that are not registered.
pub proof fn lemma_standard_dispatch(method: HttpMethod, path: Seq<u8>)
    ensures
        dispatch_model(standard_routes(), method, path) == standard_dispatch(method, path),
        dispatch_model(standard_routes(), method, path) is None <==> !registered(method, path),
{
    reveal_strlit("/echo/");
    reveal_strlit("/files/");
    reveal_with_fuel(find_exact, 6);
    reveal_with_fuel(find_prefix, 6);
}

/// A route table. It is built once and only read afterwards.
#[derive(Clone, Debug)]
pub struct Router {
    pub routes: Vec<Route>,
}

impl View for Router {
    type V = Seq<RouteModel>;

    open spec fn view(&self) -> Seq<RouteModel> {
        Seq::new(self.routes@.len(), |i: int| self.routes@[i]@)
    }
}

impl Router {
    /// A table with the given routes, in their order.
    pub fn new(routes: Vec<Route>) -> (r: Router)
        ensures
            r.routes == routes,
    {
        Router { routes }
    }

    /// The table of the server.
    pub fn standard() -> (r: Router)
        ensures
            r@ == standard_routes(),
    {
        proof {
            reveal_strlit("/");
            reveal_strlit("/echo/");
            reveal_strlit("/user-agent");
            reveal_strlit("/files/");
        }
        let mut routes: Vec<Route> = Vec::new();
        routes.push(
            Route {
                method: HttpMethod::GET,
                matcher: Matcher::Exact(ascii_bytes("/")),
                handler: Handler::Root,
            },
        );
        routes.push(
            Route {
                method: HttpMethod::GET,
                matcher: Matcher::Prefix(ascii_bytes("/echo/")),
                handler: Handler::Echo,
            },
        );
        routes.push(
            Route {
                method: HttpMethod::GET,
                matcher: Matcher::Exact(ascii_bytes("/user-agent")),
                handler: Handler::UserAgent,
            },
        );
        routes.push(
            Route {
                method: HttpMethod::GET,
                matcher: Matcher::Prefix(ascii_bytes("/files/")),
                handler: Handler::FileRead,
            },
        );
        routes.push(
            Route {
                method: HttpMethod::POST,
                matcher: Matcher::Prefix(ascii_bytes("/files/")),
                handler: Handler::FileWrite,
            },
        );
        Router { routes }
    }

    /// Looks up the handler for `method` and `path`.
    pub fn dispatch(&self, method: HttpMethod, path: &[u8]) -> (r: Option<RouteMatch>)
        ensures
            match dispatch_model(self@, method, path@) {
                Some(found) => r is Some && r->Some_0@ == found,
                None => r is None,
            },
    {
        let n: usize = self.routes.len();
        let mut i: usize = 0;
        assert(self@.skip(0) =~= self@);
        while i < n
            invariant
                i <= n,
                n == self.routes.len(),
                find_exact(self@, method, path@) == find_exact(self@.skip(i as int), method, path@),
            decreases n - i,
        {
            let route = &self.routes[i];
            assert(self@.skip(i as int).skip(1) =~= self@.skip(i + 1));
            if route.method == method {
                match &route.matcher {
                    Matcher::Exact(exact) => {
                        if bytes_eq(exact.as_slice(), path) {
                            return Some(RouteMatch { handler: route.handler, segment: Vec::new() });
                        }
                    },
                    Matcher::Prefix(_) => {},
                }
            }
            i += 1;
        }
        i = 0;
        while i < n
            invariant
                i <= n,
                n == self.routes.len(),
                find_exact(self@, method, path@) is None,
                find_prefix(self@, method, path@) == find_prefix(
                    self@.skip(i as int),
                    method,
                    path@,
                ),
            decreases n - i,
        {
            let route = &self.routes[i];
            assert(self@.skip(i as int).skip(1) =~= self@.skip(i + 1));
            if route.method == method {
                match &route.matcher {
                    Matcher::Exact(_) => {},
                    Matcher::Prefix(prefix) => {
                        if has_prefix(path, prefix.as_slice()) {
                            let segment = slice_to_vec(
                                slice_subrange(path, prefix.len(), path.len()),
                            );
                            return Some(RouteMatch { handler: route.handler, segment });
                        }
                    },
                }
            }
            i += 1;
        }
        None
    }
}

} // verus!
