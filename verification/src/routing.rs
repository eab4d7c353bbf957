//! Request dispatch: which answer a request gets, and the responses the router
//! sends itself.
//!
//! A `GET` is answered with the static file stored under its path, or with the
//! application's page when there is none. Any other method goes to the first
//! endpoint whose path is the request's path and whose idempotence is the
//! method's; with no such endpoint the answer is 404 with an empty body. An
//! endpoint that refuses the caller's credentials yields 401; a handler's
//! value yields 200 with its JSON text; a handler's error yields 400 with the
//! error's text; a failure while serving yields 500.
use vstd::prelude::*;
use crate::assets::AssetTable;
use crate::body::Body;

verus! {

/// An HTTP request method.
pub enum HttpMethod {
    Options,
    Get,
    Post,
    Put,
    Delete,
    Head,
    Trace,
    Connect,
    Patch,
    Query,
    /// Any other method, by name.
    Extension(String),
}

/// Whether a method is idempotent: `PUT`, `DELETE` and the safe methods
/// (`GET`, `HEAD`, `OPTIONS`, `TRACE`, `QUERY`).
pub open spec fn method_is_idempotent(m: HttpMethod) -> bool {
    match m {
        HttpMethod::Put | HttpMethod::Delete => true,
        HttpMethod::Get | HttpMethod::Head | HttpMethod::Options | HttpMethod::Trace
        | HttpMethod::Query => true,
        _ => false,
    }
}

impl HttpMethod {
    /// Whether repeating the request has the same effect as making it once.
    pub fn is_idempotent(&self) -> (b: bool)
        ensures
            b == method_is_idempotent(*self),
    {
        match self {
            HttpMethod::Put | HttpMethod::Delete => true,
            HttpMethod::Get | HttpMethod::Head | HttpMethod::Options | HttpMethod::Trace
            | HttpMethod::Query => true,
            _ => false,
        }
    }

    /// Whether this is `GET`.
    pub fn is_get(&self) -> (b: bool)
        ensures
            b == (*self is Get),
    {
        match self {
            HttpMethod::Get => true,
            _ => false,
        }
    }
}

/// What the router knows of one endpoint.
pub struct EndpointInfo {
    /// The request path (without leading slash) that reaches the endpoint.
    pub path: String,
    /// Whether the endpoint answers idempotent methods, rather than others.
    pub is_idempotent: bool,
    /// Whether the endpoint takes no input, so that the request body is not read.
    pub takes_unit: bool,
}

/// Where a request goes.
#[derive(PartialEq, Eq, Structural, Clone, Copy, Debug)]
pub enum Dispatch {
    /// A static file or the application's page (every `GET`).
    Page,
    /// The endpoint at this position of the list.
    Call(usize),
    /// No endpoint takes the request.
    NotFound,
}

/// An answer to a request.
pub struct Response {
    pub status: u16,
    pub content_type: Option<String>,
    pub body: Body,
}

/// The request path without one leading slash.
pub open spec fn path_of(uri_path: Seq<char>) -> Seq<char> {
    if uri_path.len() > 0 && uri_path[0] == '/' {
        uri_path.drop_first()
    } else {
        uri_path
    }
}

/// Removes one leading slash from the request URI's path.
pub fn request_path(uri_path: &str) -> (res: String)
    ensures
        res@ == path_of(uri_path@),
        uri_path@.len() > 0 && uri_path@[0] == '/' ==> seq!['/'] + res@ == uri_path@,
        !(uri_path@.len() > 0 && uri_path@[0] == '/') ==> res@ == uri_path@,
{
    let n = uri_path.unicode_len();
    if n > 0 && uri_path.get_char(0) == '/' {
        String::from_str(uri_path.substring_char(1, n))
    } else {
        String::from_str(uri_path)
    }
}

/// Endpoint `e` takes a request for `path` made with a method of idempotence `idem`.
pub open spec fn endpoint_takes(e: EndpointInfo, path: Seq<char>, idem: bool) -> bool {
    e.path@ == path && e.is_idempotent == idem
}

/// Where a request with method `method` for `path` goes, among `endpoints`.
pub open spec fn dispatched(
    method: HttpMethod,
    path: Seq<char>,
    endpoints: Seq<EndpointInfo>,
    d: Dispatch,
) -> bool {
    let idem = method_is_idempotent(method);
    match d {
        Dispatch::Page => method is Get,
        Dispatch::Call(i) => {
            &&& !(method is Get)
            &&& i < endpoints.len()
            &&& endpoint_takes(endpoints[i as int], path, idem)
            &&& forall|j: int| 0 <= j < i ==> !endpoint_takes(#[trigger] endpoints[j], path, idem)
        },
        Dispatch::NotFound => {
            &&& !(method is Get)
            &&& forall|j: int|
                0 <= j < endpoints.len() ==> !endpoint_takes(#[trigger] endpoints[j], path, idem)
        },
    }
}

/// Decides where a request goes: every `GET` to the page; otherwise to the
/// first endpoint for its path and its method's idempotence, if any.
pub fn dispatch(method: &HttpMethod, path: &str, endpoints: &Vec<EndpointInfo>) -> (d: Dispatch)
    ensures
        dispatched(*method, path@, endpoints@, d),
        forall|j: int|
            0 <= j < endpoints@.len() && !(*method is Get) && (#[trigger] endpoints@[j]).path@ == path@
                && endpoints@[j].is_idempotent == method_is_idempotent(*method) ==> (d matches Dispatch::Call(
                i) && i <= j && endpoints@[i as int].path@ == path@ && endpoints@[i as int].is_idempotent
                == method_is_idempotent(*method)),
        d is NotFound ==> forall|j: int|
            0 <= j < endpoints@.len() ==> !((#[trigger] endpoints@[j]).path@ == path@
                && endpoints@[j].is_idempotent == method_is_idempotent(*method)),
{
    if method.is_get() {
        return Dispatch::Page;
    }
    let idem = method.is_idempotent();
    let key = String::from_str(path);
    let mut i: usize = 0;
    while i < endpoints.len()
        invariant
            i <= endpoints@.len(),
            key@ == path@,
            !(*method is Get),
            idem == method_is_idempotent(*method),
            forall|j: int| 0 <= j < i ==> !endpoint_takes(#[trigger] endpoints@[j], path@, idem),
        decreases endpoints@.len() - i,
    {
        if endpoints[i].path == key && endpoints[i].is_idempotent == idem {
            return Dispatch::Call(i);
        }
        i = i + 1;
    }
    Dispatch::NotFound
}

/// The answer to a `GET` for `path`: the stored file with its MIME type, or
/// else the application's page `html` as `text/html`; always status 200.
pub fn page_response(path: &str, assets: &AssetTable, html: String) -> (r: Response)
    ensures
        r.status == 200,
        assets@.contains_key(path@) ==> (r.content_type matches Some(t) && t@ == assets@[path@].0
            && r.body@ == Some(assets@[path@].1)),
        !assets@.contains_key(path@) ==> (r.content_type matches Some(t) && t@ == "text/html"@
            && r.body@ == Some(vstd::utf8::encode_utf8(html@))),
{
    match assets.get(path) {
        Some(file) => Response {
            status: 200,
            content_type: Some(file.mime.clone()),
            body: Body::from_slice(file.bytes.as_slice()),
        },
        None => Response {
            status: 200,
            content_type: Some(String::from_str("text/html")),
            body: Body::from_string(html),
        },
    }
}

/// The answer when no endpoint takes a request: 404 with no body.
pub fn not_found() -> (r: Response)
    ensures
        r.status == 404,
        r.content_type is None,
        r.body@ is None,
{
    Response { status: 404, content_type: None, body: Body::default() }
}

/// The text of the answer to a caller whose credentials an endpoint refuses.
pub open spec fn unauthorized_text() -> Seq<char> {
    "You aren't authorized to access this endpoint. If you believe this is a mistake, talk to your RMHedge Contact"@
}

/// The answer when an endpoint refuses the caller's credentials: 401.
pub fn unauthorized() -> (r: Response)
    ensures
        r.status == 401,
        r.content_type is None,
        r.body@ == Some(vstd::utf8::encode_utf8(unauthorized_text())),
{
    let text = String::from_str(
        "You aren't authorized to access this endpoint. If you believe this is a mistake, talk to your RMHedge Contact",
    );
    Response { status: 401, content_type: None, body: Body::from_string(text) }
}

/// What happens to a request for an endpoint once its credentials are checked.
pub enum EndpointStep {
    /// Answer at once: the credentials were refused.
    Respond(Response),
    /// Read the request body and pass it to the handler.
    ReadBody,
    /// Call the handler with no input, without reading the body.
    CallWithUnit,
}

/// The next step for a request to `endpoint` after its credentials were
/// checked: refused credentials are answered with 401 and the handler is not
/// run; otherwise the body is read, unless the endpoint takes no input.
pub fn after_auth(authorized: bool, endpoint: &EndpointInfo) -> (s: EndpointStep)
    ensures
        !authorized ==> (s matches EndpointStep::Respond(r) && r.status == 401 && r.content_type is None
            && r.body@ == Some(vstd::utf8::encode_utf8(unauthorized_text()))),
        authorized && endpoint.takes_unit ==> s is CallWithUnit,
        authorized && !endpoint.takes_unit ==> s is ReadBody,
{
    if !authorized {
        EndpointStep::Respond(unauthorized())
    } else if endpoint.takes_unit {
        EndpointStep::CallWithUnit
    } else {
        EndpointStep::ReadBody
    }
}

/// The answer for a handler's outcome: its JSON text with 200, or its
/// error's text with 400.
pub fn handler_response(outcome: Result<String, String>) -> (r: Response)
    ensures
        r.content_type is None,
        match outcome {
            Ok(json) => r.status == 200 && r.body@ == Some(vstd::utf8::encode_utf8(json@)),
            Err(msg) => r.status == 400 && r.body@ == Some(vstd::utf8::encode_utf8(msg@)),
        },
{
    match outcome {
        Ok(json) => Response { status: 200, content_type: None, body: Body::from_string(json) },
        Err(msg) => Response { status: 400, content_type: None, body: Body::from_string(msg) },
    }
}

/// The text of the answer when serving a request failed: the rendering of
/// the failure's payload, which the router cannot inspect.
pub open spec fn failure_text() -> Seq<char> {
    "Any { .. }"@
}

/// The answer when serving a request failed: 500.
pub fn failed() -> (r: Response)
    ensures
        r.status == 500,
        r.content_type is None,
        r.body@ == Some(vstd::utf8::encode_utf8(failure_text())),
{
    Response { status: 500, content_type: None, body: Body::from_string(String::from_str("Any { .. }")) }
}

/// The request path is the URI path with exactly one leading slash removed
/// and every other character kept; a path without a leading slash is kept
/// whole.
pub proof fn law_request_path_drops_one_slash(s: Seq<char>)
    ensures
        path_of(seq!['/'] + s) == s,
        !(s.len() > 0 && s[0] == '/') ==> path_of(s) == s,
{
    assert((seq!['/'] + s).drop_first() =~= s);
}

/// A request other than `GET` goes to an endpoint whenever one has the
/// request's path and the method's idempotence: to the first such endpoint.
/// It is answered 404 only when no endpoint has both.
pub proof fn law_dispatch_finds_endpoint(
    method: HttpMethod,
    path: Seq<char>,
    endpoints: Seq<EndpointInfo>,
    d: Dispatch,
    j: int,
)
    requires
        dispatched(method, path, endpoints, d),
        !(method is Get),
        0 <= j < endpoints.len(),
        endpoints[j].path@ == path,
        endpoints[j].is_idempotent == method_is_idempotent(method),
    ensures
        d matches Dispatch::Call(i) && i <= j && endpoints[i as int].path@ == path
            && endpoints[i as int].is_idempotent == method_is_idempotent(method),
        d matches Dispatch::Call(i) ==> forall|k: int|
            0 <= k < i ==> !((#[trigger] endpoints[k]).path@ == path && endpoints[k].is_idempotent
                == method_is_idempotent(method)),
{
    assert(endpoint_takes(endpoints[j], path, method_is_idempotent(method)));
}

/// A `GET` never reaches an endpoint, and a request reaches an endpoint only
/// when the endpoint's path is the request's and its idempotence is the
/// method's; the first such endpoint takes it.
pub proof fn law_dispatch_agrees(
    method: HttpMethod,
    path: Seq<char>,
    endpoints: Seq<EndpointInfo>,
    d: Dispatch,
)
    requires
        dispatched(method, path, endpoints, d),
    ensures
        method is Get <==> d is Page,
        d matches Dispatch::Call(i) ==> endpoints[i as int].path@ == path
            && endpoints[i as int].is_idempotent == method_is_idempotent(method),
        d is NotFound ==> forall|j: int|
            0 <= j < endpoints.len() ==> !endpoint_takes(#[trigger] endpoints[j], path, method_is_idempotent(method)),
{
}

} // verus!
