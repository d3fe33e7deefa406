//! The routing table: which endpoint answers a method and a path, and what
//! happens to a request that no endpoint answers.

use crate::config::Config;
use crate::message::{Method, STATUS_METHOD_NOT_ALLOWED, STATUS_NOT_FOUND};
use vstd::prelude::*;
use vstd::string::*;

verus! {

/// The endpoints of the service.
#[derive(Clone, Copy, Debug, PartialEq, Eq, Structural)]
pub enum Endpoint {
    Health,
    Echo,
    ListItems,
    CreateItem,
}

/// The layers that wrap the routes.
#[derive(Clone, Copy, Debug, PartialEq, Eq, Structural)]
pub enum Layer {
    Cors,
    Compression,
    Trace,
    RequestId,
}

/// One line of the table.
pub struct Route {
    pub method: Method,
    pub path: String,
    pub endpoint: Endpoint,
}

/// One line of the table as plain values.
pub struct RouteView {
    pub method: Method,
    pub path: Seq<char>,
    pub endpoint: Endpoint,
}

impl View for Route {
    type V = RouteView;

    open spec fn view(&self) -> RouteView {
        RouteView { method: self.method, path: self.path@, endpoint: self.endpoint }
    }
}

/// What the router does with one request.
#[derive(Clone, Copy, Debug, PartialEq, Eq, Structural)]
pub enum Resolution {
    /// The table names an endpoint for the method and the path.
    Endpoint(Endpoint),
    /// The table knows the path, under other methods only.
    MethodNotAllowed,
    /// The table does not know the path: the static files answer.
    Static,
    /// The table does not know the path and no static files are served.
    NotFound,
}

/// The table, the directory of the static files, and the layers around both.
pub struct Router {
    pub routes: Vec<Route>,
    /// The directory of the static files, if any are served.
    pub static_dir: Option<String>,
    pub index_on_directories: bool,
    /// From the innermost layer to the outermost.
    pub layers: Vec<Layer>,
}

/// A router as plain values.
pub struct RouterView {
    pub routes: Seq<RouteView>,
    pub static_dir: Option<Seq<char>>,
    pub index_on_directories: bool,
    pub layers: Seq<Layer>,
}

impl View for Router {
    type V = RouterView;

    open spec fn view(&self) -> RouterView {
        RouterView {
            routes: self.routes@.map_values(|route: Route| route@),
            static_dir: match self.static_dir {
                Some(dir) => Some(dir@),
                None => None,
            },
            index_on_directories: self.index_on_directories,
            layers: self.layers@,
        }
    }
}

/// Whether a route registered under `registered` answers a request made with
/// `asked`: the same method, or `HEAD` on a route for `GET`.
pub open spec fn method_answers(registered: Method, asked: Method) -> bool {
    registered == asked || (registered == Method::Get && asked == Method::Head)
}

/// The endpoint of the first route that has the path and answers the method.
pub open spec fn find_endpoint(
    routes: Seq<RouteView>,
    method: Method,
    path: Seq<char>,
) -> Option<Endpoint>
    decreases routes.len(),
{
    if routes.len() == 0 {
        None
    } else if routes[0].path == path && method_answers(routes[0].method, method) {
        Some(routes[0].endpoint)
    } else {
        find_endpoint(routes.drop_first(), method, path)
    }
}

/// Whether some route has the path, under whatever method.
pub open spec fn knows_path(routes: Seq<RouteView>, path: Seq<char>) -> bool {
    exists|i: int| 0 <= i < routes.len() && (#[trigger] routes[i]).path == path
}

/// What the table decides: the path has to equal a route's path character
/// for character. A known path asked with a method that no route answers is
/// refused; it does not fall through to the static files.
pub open spec fn resolution(routes: Seq<RouteView>, method: Method, path: Seq<char>) -> Resolution {
    match find_endpoint(routes, method, path) {
        Some(endpoint) => Resolution::Endpoint(endpoint),
        None => if knows_path(routes, path) {
            Resolution::MethodNotAllowed
        } else {
            Resolution::Static
        },
    }
}

/// What a router decides: what its table decides, but that a path which the
/// table does not know is not found where no static files are served.
pub open spec fn decision_of(router: RouterView, method: Method, path: Seq<char>) -> Resolution {
    match resolution(router.routes, method, path) {
        Resolution::Static => if router.static_dir is Some {
            Resolution::Static
        } else {
            Resolution::NotFound
        },
        decided => decided,
    }
}

/// The status that a decision owes by itself: 405 where the method is
/// refused, 404 where nothing is found. Where an endpoint or the static
/// files answer, the status is theirs.
pub open spec fn status_owed(decision: Resolution) -> Option<u16> {
    match decision {
        Resolution::MethodNotAllowed => Some(STATUS_METHOD_NOT_ALLOWED),
        Resolution::NotFound => Some(STATUS_NOT_FOUND),
        Resolution::Endpoint(_) => None,
        Resolution::Static => None,
    }
}

impl Resolution {
    /// The status that this decision owes by itself, if it owes one.
    pub fn owed_status(self) -> (status: Option<u16>)
        ensures
            status == status_owed(self),
    {
        match self {
            Resolution::MethodNotAllowed => Some(STATUS_METHOD_NOT_ALLOWED),
            Resolution::NotFound => Some(STATUS_NOT_FOUND),
            Resolution::Endpoint(_) => None,
            Resolution::Static => None,
        }
    }
}

/// `routes` with `prefix` put before every path.
pub open spec fn nested(prefix: Seq<char>, routes: Seq<RouteView>) -> Seq<RouteView> {
    routes.map_values(|route: RouteView| RouteView { path: prefix + route.path, ..route })
}

/// The table of the service.
pub open spec fn service_routes() -> Seq<RouteView> {
    seq![
        RouteView { method: Method::Get, path: "/api"@ + "/health"@, endpoint: Endpoint::Health },
        RouteView { method: Method::Post, path: "/api"@ + "/echo"@, endpoint: Endpoint::Echo },
        RouteView { method: Method::Get, path: "/api"@ + "/items"@, endpoint: Endpoint::ListItems },
        RouteView { method: Method::Post, path: "/api"@ + "/items"@, endpoint: Endpoint::CreateItem },
    ]
}

/// The layers of the service, from the innermost to the outermost.
pub open spec fn service_layers() -> Seq<Layer> {
    seq![Layer::Cors, Layer::Compression, Layer::Trace, Layer::RequestId]
}

impl Router {
    /// A router without routes or layers, which serves no static files.
    pub fn new() -> (router: Router)
        ensures
            router@ == (RouterView {
                routes: Seq::empty(),
                static_dir: None,
                index_on_directories: false,
                layers: Seq::empty(),
            }),
    {
        let router = Router {
            routes: Vec::new(),
            static_dir: None,
            index_on_directories: false,
            layers: Vec::new(),
        };
        assert(router@.routes =~= Seq::empty());
        router
    }

    /// Adds a route at the end of the table.
    pub fn route(self, path: &str, method: Method, endpoint: Endpoint) -> (router: Router)
        ensures
            router@ == (RouterView {
                routes: self@.routes.push(RouteView { method, path: path@, endpoint }),
                ..self@
            }),
    {
        let mut router = self;
        router.routes.push(Route { method, path: path.to_owned(), endpoint });
        assert(router@.routes =~= self@.routes.push(RouteView { method, path: path@, endpoint }));
        router
    }

    /// Adds the routes of `inner` at the end of the table, each under
    /// `prefix`. Nothing else of `inner` is taken over.
    pub fn nest(self, prefix: &str, inner: Router) -> (router: Router)
        ensures
            router@ == (RouterView {
                routes: self@.routes + nested(prefix@, inner@.routes),
                ..self@
            }),
    {
        let mut router = self;
        let mut i: usize = 0;
        while i < inner.routes.len()
            invariant
                i <= inner.routes.len(),
                router.static_dir == self.static_dir,
                router.index_on_directories == self.index_on_directories,
                router.layers == self.layers,
                router@.routes == self@.routes + nested(prefix@, inner@.routes).subrange(
                    0,
                    i as int,
                ),
            decreases inner.routes.len() - i,
        {
            let ghost before = router@.routes;
            let route = &inner.routes[i];
            let path = prefix.to_owned().concat(route.path.as_str());
            router.routes.push(Route { method: route.method, path, endpoint: route.endpoint });
            assert(router@.routes =~= before.push(nested(prefix@, inner@.routes)[i as int]));
            assert(router@.routes =~= self@.routes + nested(prefix@, inner@.routes).subrange(
                0,
                i + 1,
            ));
            i = i + 1;
        }
        assert(nested(prefix@, inner@.routes).subrange(0, i as int) =~= nested(
            prefix@,
            inner@.routes,
        ));
        router
    }

    /// Names the directory whose files answer what the table does not know,
    /// and says whether a directory is answered with its index document.
    pub fn fallback_static(self, static_dir: &str, index_on_directories: bool) -> (router: Router)
        ensures
            router@ == (RouterView {
                static_dir: Some(static_dir@),
                index_on_directories,
                ..self@
            }),
    {
        Router {
            routes: self.routes,
            static_dir: Some(static_dir.to_owned()),
            index_on_directories,
            layers: self.layers,
        }
    }

    /// Wraps a layer around everything the router holds so far: the layer
    /// added last sees a request first and its response last.
    pub fn layer(self, layer: Layer) -> (router: Router)
        ensures
            router@ == (RouterView { layers: self@.layers.push(layer), ..self@ }),
    {
        let mut router = self;
        router.layers.push(layer);
        router
    }

    /// The layer that sees a request first, if there is any.
    pub fn outermost(&self) -> (layer: Option<Layer>)
        ensures
            layer == if self@.layers.len() == 0 {
                None
            } else {
                Some(self@.layers.last())
            },
    {
        if self.layers.len() == 0 {
            None
        } else {
            Some(self.layers[self.layers.len() - 1])
        }
    }

    /// Decides what answers a request with this method and path.
    pub fn resolve(&self, method: Method, path: &str) -> (decision: Resolution)
        ensures
            decision == decision_of(self@, method, path@),
    {
        let wanted = path.to_owned();
        let ghost routes = self@.routes;
        let mut known = false;
        let mut i: usize = 0;
        assert(routes.subrange(0, routes.len() as int) =~= routes);
        while i < self.routes.len()
            invariant
                i <= self.routes.len(),
                routes == self@.routes,
                wanted@ == path@,
                find_endpoint(routes, method, path@) == find_endpoint(
                    routes.subrange(i as int, routes.len() as int),
                    method,
                    path@,
                ),
                known == knows_path(routes.subrange(0, i as int), path@),
            decreases self.routes.len() - i,
        {
            let route = &self.routes[i];
            let ghost rest = routes.subrange(i as int, routes.len() as int);
            assert(rest[0] == route@);
            assert(rest.drop_first() =~= routes.subrange(i + 1, routes.len() as int));
            proof {
                lemma_knows_path_push(routes.subrange(0, i as int), routes[i as int], path@);
                assert(routes.subrange(0, i as int).push(routes[i as int]) =~= routes.subrange(
                    0,
                    i + 1,
                ));
            }
            if route.path == wanted {
                if route.method == method || (route.method == Method::Get && method
                    == Method::Head) {
                    return Resolution::Endpoint(route.endpoint);
                }
                known = true;
            }
            i = i + 1;
        }
        assert(routes.subrange(0, i as int) =~= routes);
        if known {
            Resolution::MethodNotAllowed
        } else if self.static_dir.is_some() {
            Resolution::Static
        } else {
            Resolution::NotFound
        }
    }
}

/// A table with one more route knows a path if the table knew it or the
/// route has it.
proof fn lemma_knows_path_push(routes: Seq<RouteView>, route: RouteView, path: Seq<char>)
    ensures
        knows_path(routes.push(route), path) == (knows_path(routes, path) || route.path == path),
{
    let longer = routes.push(route);
    if knows_path(routes, path) {
        let i = choose|i: int| 0 <= i < routes.len() && (#[trigger] routes[i]).path == path;
        assert(longer[i].path == path);
    }
    if route.path == path {
        assert(longer[routes.len() as int].path == path);
    }
    if knows_path(longer, path) {
        let i = choose|i: int| 0 <= i < longer.len() && (#[trigger] longer[i]).path == path;
        if i < routes.len() {
            assert(routes[i].path == path);
        }
    }
}

/// What the table of the service decides, for every method and path: the
/// health probe and the list answer `GET` and `HEAD`, the echo and the making
/// of a record answer `POST`, any other method on these three paths is
/// refused, and every other path goes to the static files.
pub proof fn lemma_service_resolution(method: Method, path: Seq<char>)
    ensures
        resolution(service_routes(), method, path) == if path == "/api/health"@ {
            if method == Method::Get || method == Method::Head {
                Resolution::Endpoint(Endpoint::Health)
            } else {
                Resolution::MethodNotAllowed
            }
        } else if path == "/api/echo"@ {
            if method == Method::Post {
                Resolution::Endpoint(Endpoint::Echo)
            } else {
                Resolution::MethodNotAllowed
            }
        } else if path == "/api/items"@ {
            if method == Method::Get || method == Method::Head {
                Resolution::Endpoint(Endpoint::ListItems)
            } else if method == Method::Post {
                Resolution::Endpoint(Endpoint::CreateItem)
            } else {
                Resolution::MethodNotAllowed
            }
        } else {
            Resolution::Static
        },
{
    reveal_strlit("/api");
    reveal_strlit("/health");
    reveal_strlit("/echo");
    reveal_strlit("/items");
    reveal_strlit("/api/health");
    reveal_strlit("/api/echo");
    reveal_strlit("/api/items");
    let routes = service_routes();
    assert(routes[0].path =~= "/api/health"@);
    assert(routes[1].path =~= "/api/echo"@);
    assert(routes[2].path =~= "/api/items"@);
    assert(routes[3].path =~= "/api/items"@);
    assert("/api/health"@[5] != "/api/echo"@[5]);
    assert("/api/health"@[5] != "/api/items"@[5]);
    assert("/api/echo"@[5] != "/api/items"@[5]);
    let from_1 = routes.drop_first();
    let from_2 = from_1.drop_first();
    let from_3 = from_2.drop_first();
    let from_4 = from_3.drop_first();
    assert(from_1[0] == routes[1]);
    assert(from_2[0] == routes[2]);
    assert(from_3[0] == routes[3]);
    assert(from_4.len() == 0);
    assert(find_endpoint(from_4, method, path) is None);
    assert(find_endpoint(from_3, method, path) == if routes[3].path == path && method_answers(
        routes[3].method,
        method,
    ) {
        Some(routes[3].endpoint)
    } else {
        None
    });
    assert(find_endpoint(from_2, method, path) == if routes[2].path == path && method_answers(
        routes[2].method,
        method,
    ) {
        Some(routes[2].endpoint)
    } else {
        find_endpoint(from_3, method, path)
    });
    assert(find_endpoint(from_1, method, path) == if routes[1].path == path && method_answers(
        routes[1].method,
        method,
    ) {
        Some(routes[1].endpoint)
    } else {
        find_endpoint(from_2, method, path)
    });
    if knows_path(routes, path) {
        let i = choose|i: int| 0 <= i < routes.len() && (#[trigger] routes[i]).path == path;
        assert(i == 0 || i == 1 || i == 2 || i == 3);
    }
    if path == "/api/health"@ {
        assert(routes[0].path == path);
    } else if path == "/api/echo"@ {
        assert(routes[1].path == path);
    } else if path == "/api/items"@ {
        assert(routes[2].path == path);
    }
}

/// A path that no route has falls through, whatever the method: to the
/// static files where the router serves any, and else to the status 404.
pub proof fn lemma_unknown_path_falls_through(router: RouterView, method: Method, path: Seq<char>)
    requires
        !knows_path(router.routes, path),
    ensures
        decision_of(router, method, path) == if router.static_dir is Some {
            Resolution::Static
        } else {
            Resolution::NotFound
        },
        status_owed(Resolution::NotFound) == Some(STATUS_NOT_FOUND),
{
    lemma_find_endpoint(router.routes, method, path);
    if find_endpoint(router.routes, method, path) is Some {
        let i = choose|i: int|
            0 <= i < router.routes.len() && (#[trigger] router.routes[i]).path == path
                && method_answers(router.routes[i].method, method);
        assert(knows_path(router.routes, path));
    }
}

/// An endpoint is found exactly if some route has the path and answers the
/// method, and it is then the endpoint of the first such route.
pub proof fn lemma_find_endpoint(routes: Seq<RouteView>, method: Method, path: Seq<char>)
    ensures
        match find_endpoint(routes, method, path) {
            Some(endpoint) => exists|i: int|
                {
                    &&& 0 <= i < routes.len()
                    &&& (#[trigger] routes[i]).path == path
                    &&& method_answers(routes[i].method, method)
                    &&& routes[i].endpoint == endpoint
                    &&& forall|j: int|
                        0 <= j < i ==> !((#[trigger] routes[j]).path == path && method_answers(
                            routes[j].method,
                            method,
                        ))
                },
            None => forall|i: int|
                0 <= i < routes.len() ==> !((#[trigger] routes[i]).path == path && method_answers(
                    routes[i].method,
                    method,
                )),
        },
    decreases routes.len(),
{
    if routes.len() > 0 {
        if routes[0].path == path && method_answers(routes[0].method, method) {
            assert(routes[0].endpoint == find_endpoint(routes, method, path).unwrap());
        } else {
            let rest = routes.drop_first();
            lemma_find_endpoint(rest, method, path);
            match find_endpoint(rest, method, path) {
                Some(endpoint) => {
                    let i = choose|i: int|
                        {
                            &&& 0 <= i < rest.len()
                            &&& (#[trigger] rest[i]).path == path
                            &&& method_answers(rest[i].method, method)
                            &&& rest[i].endpoint == endpoint
                            &&& forall|j: int|
                                0 <= j < i ==> !((#[trigger] rest[j]).path == path
                                    && method_answers(rest[j].method, method))
                        };
                    assert(routes[i + 1] == rest[i]);
                    assert forall|j: int| 0 <= j < i + 1 implies !((#[trigger] routes[j]).path
                        == path && method_answers(routes[j].method, method)) by {
                        if j > 0 {
                            assert(routes[j] == rest[j - 1]);
                        }
                    }
                },
                None => {
                    assert forall|i: int| 0 <= i < routes.len() implies !((
                    #[trigger] routes[i]).path == path && method_answers(
                        routes[i].method,
                        method,
                    )) by {
                        if i > 0 {
                            assert(routes[i] == rest[i - 1]);
                        }
                    }
                },
            }
        }
    }
}

/// Builds the router of the service: the four endpoints under `/api`, the
/// static files of the configured directory for every other path, a
/// directory answered with its index document, and around all of it CORS,
/// compression, tracing and, outermost, the correlation-id layer.
pub fn create_router(config: &Config) -> (router: Router)
    ensures
        router@ == (RouterView {
            routes: service_routes(),
            static_dir: Some(config.static_dir@),
            index_on_directories: true,
            layers: service_layers(),
        }),
{
    let api_routes = Router::new().route("/health", Method::Get, Endpoint::Health).route(
        "/echo",
        Method::Post,
        Endpoint::Echo,
    ).route("/items", Method::Get, Endpoint::ListItems).route(
        "/items",
        Method::Post,
        Endpoint::CreateItem,
    );
    let router = Router::new().nest("/api", api_routes).fallback_static(
        config.static_dir.as_str(),
        true,
    ).layer(Layer::Cors).layer(Layer::Compression).layer(Layer::Trace).layer(Layer::RequestId);
    assert(router@.routes =~= service_routes());
    assert(router@.layers =~= service_layers());
    router
}

} // verus!
