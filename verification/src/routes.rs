//! The gateway's route table and the handler bodies it dispatches to.
//!
//! Dispatch is an explicit ordered list of (method, pattern, handler)
//! bindings, matched first-match-wins, with a designated fallback handler
//! for unmatched requests.  The handler bodies are pure: each builds its
//! response text from the request values it is handed.

use vstd::prelude::*;
use vstd::string::*;

verus! {

/// Seconds an idle keep-alive connection stays open before the listener
/// closes it.
pub const CONNECTION_TIMEOUT: u64 = 75;

/// An HTTP request method the gateway routes on.
#[derive(Clone, Copy, Debug, PartialEq, Eq, Structural)]
pub enum Method {
    Get,
    Post,
}

/// The handler a request is dispatched to.
#[derive(Clone, Copy, Debug, PartialEq, Eq, Structural)]
pub enum Handler {
    /// GET `/`: the greeting body.
    Hello,
    /// POST `/echo`: returns the request body unchanged.
    Echo,
    /// GET `/hey`: a fixed greeting.
    Hey,
    /// GET `/test-show-request` or `/show_request`: echoes URI and method.
    ShowRequest,
    /// GET `/awf/...`: parse the address and fetch its content.
    FetchFile,
    /// GET `/test-connect`: report whether the network can be reached.
    TestConnect,
    /// Any other request: the fallback HTML echo.
    DefaultRoute,
}

/// A path pattern: the whole path, or a leading prefix of it.
#[derive(Clone, Debug)]
pub enum Pattern {
    Exact(String),
    Prefix(String),
}

/// One binding of the route table.
#[derive(Clone, Debug)]
pub struct Route {
    pub method: Method,
    pub pattern: Pattern,
    pub handler: Handler,
}

/// True when `path` matches the pattern `p`.
pub open spec fn spec_pattern_matches(p: Pattern, path: Seq<char>) -> bool {
    match p {
        Pattern::Exact(t) => path == t@,
        Pattern::Prefix(t) => path.len() >= t@.len() && path.subrange(0, t@.len() as int) == t@,
    }
}

/// True when the request `(m, path)` matches the binding `r`.
pub open spec fn spec_route_matches(r: Route, m: Method, path: Seq<char>) -> bool {
    r.method == m && spec_pattern_matches(r.pattern, path)
}

/// The handler for `(m, path)` under the ordered `table`: the handler of
/// the first binding that matches, or the fallback when none does.
pub open spec fn spec_dispatch(table: Seq<Route>, m: Method, path: Seq<char>) -> Handler
    decreases table.len(),
{
    if table.len() == 0 {
        Handler::DefaultRoute
    } else if spec_route_matches(table[0], m, path) {
        table[0].handler
    } else {
        spec_dispatch(table.drop_first(), m, path)
    }
}

/// Compares two strings character by character.
pub fn str_eq(a: &str, b: &str) -> (r: bool)
    ensures
        r == (a@ == b@),
{
    let n = a.unicode_len();
    if n != b.unicode_len() {
        return false;
    }
    let mut i: usize = 0;
    while i < n
        invariant
            n == a@.len(),
            n == b@.len(),
            i <= n,
            forall|j: int| 0 <= j < i ==> a@[j] == b@[j],
        decreases n - i,
    {
        if a.get_char(i) != b.get_char(i) {
            return false;
        }
        i += 1;
    }
    proof {
        assert(a@ =~= b@);
    }
    true
}

/// Tests whether `pre` is a leading prefix of `path`.
pub fn str_has_prefix(path: &str, pre: &str) -> (r: bool)
    ensures
        r == (path@.len() >= pre@.len() && path@.subrange(0, pre@.len() as int) == pre@),
{
    let np = pre.unicode_len();
    if path.unicode_len() < np {
        return false;
    }
    let head = path.substring_char(0, np);
    str_eq(head, pre)
}

/// Dispatch a request to a handler: the first binding of `table` that
/// matches wins, and an unmatched request falls back to the default route.
pub fn dispatch(table: &Vec<Route>, method: Method, path: &str) -> (h: Handler)
    ensures
        h == spec_dispatch(table@, method, path@),
{
    let n = table.len();
    let mut i: usize = 0;
    proof {
        assert(table@.subrange(0, n as int) =~= table@);
    }
    while i < n
        invariant
            n == table@.len(),
            i <= n,
            spec_dispatch(table@, method, path@) == spec_dispatch(
                table@.subrange(i as int, n as int),
                method,
                path@,
            ),
        decreases n - i,
    {
        let route = &table[i];
        let method_matches = route.method == method;
        let path_matches = match &route.pattern {
            Pattern::Exact(t) => str_eq(path, t.as_str()),
            Pattern::Prefix(t) => str_has_prefix(path, t.as_str()),
        };
        proof {
            let rest = table@.subrange(i as int, n as int);
            assert(rest[0] == table@[i as int]);
            assert(rest.drop_first() =~= table@.subrange(i + 1, n as int));
        }
        if method_matches && path_matches {
            return route.handler;
        }
        i += 1;
    }
    proof {
        assert(table@.subrange(n as int, n as int).len() == 0);
    }
    Handler::DefaultRoute
}

/// Law: dispatch is first-match-wins.  If binding `i` matches and no
/// earlier binding does, its handler is chosen.
pub proof fn lemma_dispatch_first_match(table: Seq<Route>, m: Method, path: Seq<char>, i: int)
    requires
        0 <= i < table.len(),
        spec_route_matches(table[i], m, path),
        forall|j: int| 0 <= j < i ==> !spec_route_matches(#[trigger] table[j], m, path),
    ensures
        spec_dispatch(table, m, path) == table[i].handler,
    decreases table.len(),
{
    if i > 0 {
        lemma_dispatch_first_match(table.drop_first(), m, path, i - 1);
    }
}

/// Law: a request that no binding matches falls back to the default
/// route.
pub proof fn lemma_dispatch_fallback(table: Seq<Route>, m: Method, path: Seq<char>)
    requires
        forall|j: int| 0 <= j < table.len() ==> !spec_route_matches(#[trigger] table[j], m, path),
    ensures
        spec_dispatch(table, m, path) == Handler::DefaultRoute,
    decreases table.len(),
{
    if table.len() > 0 {
        lemma_dispatch_fallback(table.drop_first(), m, path);
    }
}

/// The gateway's route table, in dispatch order.
pub fn route_table() -> (r: Vec<Route>)
    ensures
        r@.len() == 7,
        r@[0].method == Method::Get && r@[0].handler == Handler::Hello && (r@[0].pattern matches
            Pattern::Exact(t) && t@ == "/"@),
        r@[1].method == Method::Post && r@[1].handler == Handler::Echo && (r@[1].pattern matches
            Pattern::Exact(t) && t@ == "/echo"@),
        r@[2].method == Method::Get && r@[2].handler == Handler::Hey && (r@[2].pattern matches
            Pattern::Exact(t) && t@ == "/hey"@),
        r@[3].method == Method::Get && r@[3].handler == Handler::ShowRequest && (
        r@[3].pattern matches Pattern::Exact(t) && t@ == "/test-show-request"@),
        r@[4].method == Method::Get && r@[4].handler == Handler::ShowRequest && (
        r@[4].pattern matches Pattern::Exact(t) && t@ == "/show_request"@),
        r@[5].method == Method::Get && r@[5].handler == Handler::FetchFile && (
        r@[5].pattern matches Pattern::Prefix(t) && t@ == "/awf/"@),
        r@[6].method == Method::Get && r@[6].handler == Handler::TestConnect && (
        r@[6].pattern matches Pattern::Exact(t) && t@ == "/test-connect"@),
{
    let mut r: Vec<Route> = Vec::new();
    r.push(
        Route {
            method: Method::Get,
            pattern: Pattern::Exact(String::from_str("/")),
            handler: Handler::Hello,
        },
    );
    r.push(
        Route {
            method: Method::Post,
            pattern: Pattern::Exact(String::from_str("/echo")),
            handler: Handler::Echo,
        },
    );
    r.push(
        Route {
            method: Method::Get,
            pattern: Pattern::Exact(String::from_str("/hey")),
            handler: Handler::Hey,
        },
    );
    r.push(
        Route {
            method: Method::Get,
            pattern: Pattern::Exact(String::from_str("/test-show-request")),
            handler: Handler::ShowRequest,
        },
    );
    r.push(
        Route {
            method: Method::Get,
            pattern: Pattern::Exact(String::from_str("/show_request")),
            handler: Handler::ShowRequest,
        },
    );
    r.push(
        Route {
            method: Method::Get,
            pattern: Pattern::Prefix(String::from_str("/awf/")),
            handler: Handler::FetchFile,
        },
    );
    r.push(
        Route {
            method: Method::Get,
            pattern: Pattern::Exact(String::from_str("/test-connect")),
            handler: Handler::TestConnect,
        },
    );
    r
}

/// Body of GET `/`.
pub fn hello_body() -> (r: String)
    ensures
        r@ == "Hello world!"@,
{
    String::from_str("Hello world!")
}

/// Body of POST `/echo`: the request body, unchanged.
pub fn echo_body(req_body: String) -> (r: String)
    ensures
        r@ == req_body@,
{
    req_body
}

/// Body of GET `/hey`.
pub fn hey_body() -> (r: String)
    ensures
        r@ == "hey() Hey there!"@,
{
    String::from_str("hey() Hey there!")
}

/// Body of the hand-registered greeting route.
pub fn manual_hello_body() -> (r: String)
    ensures
        r@ == "manual_hello() Hey there!"@,
{
    String::from_str("manual_hello() Hey there!")
}

/// HTML body echoing the request's URI and method, for the request-display
/// route.
pub fn show_request_body(uri: &str, method: &str) -> (r: String)
    ensures
        r@ == "<!DOCTYPE html><head></head><body>test-show-request:<br/>uri: "@ + uri@
            + "<br/>method: "@ + method@ + "<body>"@,
{
    let mut s = String::from_str("<!DOCTYPE html><head></head><body>test-show-request:<br/>uri: ");
    s.append(uri);
    s.append("<br/>method: ");
    s.append(method);
    s.append("<body>");
    s
}

/// HTML body echoing the request's URI and method, for the fallback route.
pub fn default_route_body(uri: &str, method: &str) -> (r: String)
    ensures
        r@ == "<!DOCTYPE html><head></head><body>test-default-route '/':<br/>uri: "@ + uri@
            + "<br/>method: "@ + method@ + "<body>"@,
{
    let mut s = String::from_str(
        "<!DOCTYPE html><head></head><body>test-default-route '/':<br/>uri: ",
    );
    s.append(uri);
    s.append("<br/>method: ");
    s.append(method);
    s.append("<body>");
    s
}

/// A pet record, as served by the example pet-lookup route.
#[derive(Clone, Debug)]
pub struct Pet {
    pub id: u64,
    pub name: Option<String>,
    pub age: Option<i32>,
}

/// Look a pet up by its database id.
pub fn get_pet_by_id(pet_id: u64) -> (r: Pet)
    ensures
        r.id == pet_id,
        r.age is None,
        r.name matches Some(n) && n@ == "lightning"@,
{
    Pet { id: pet_id, age: None, name: Some(String::from_str("lightning")) }
}

/// Plain-text body of the connectivity-check route.
pub fn connect_status_body(connected: bool) -> (r: String)
    ensures
        connected ==> r@ == "Testing connect to Autonomi..SUCCESS!"@,
        !connected ==> r@ == "Testing connect to Autonomi..ERROR: failed to connect"@,
{
    if connected {
        String::from_str("Testing connect to Autonomi..SUCCESS!")
    } else {
        String::from_str("Testing connect to Autonomi..ERROR: failed to connect")
    }
}

} // verus!
