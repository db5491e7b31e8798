//! Routing and the fixed set of handlers.
//!
//! A request is dispatched on its path, in a fixed priority order: the
//! root, the user-agent reflection, the file routes (by method), the
//! echo route, and a not-found fallback. Each handler produces a
//! structured response; serialization and the content-encoding step
//! come afterwards.
use vstd::prelude::*;

use crate::bytes::{
    bytes_eq, dec_digits, has_prefix, starts_with, sub_vec, u64_to_dec,
};
use crate::request::{Request, ReqView};
use crate::response::{RespView, Response};
use crate::wire::{
    content_length, content_length_bytes, content_type, content_type_bytes, echo_prefix,
    echo_prefix_bytes, files_prefix, files_prefix_bytes, method_get, method_get_bytes,
    method_post, method_post_bytes, octet_stream, octet_stream_bytes, root_path,
    root_path_bytes, status_200, status_200_bytes, status_201, status_201_bytes, status_404,
    status_404_bytes, text_plain, text_plain_bytes, user_agent, user_agent_bytes,
    user_agent_path, user_agent_path_bytes,
};

verus! {

/// Where a request is dispatched: one of the fixed routes, with the
/// path remainder the route consumes.
pub ghost enum RouteView {
    /// The exact path `/`.
    Home,
    /// The exact path `/user-agent`.
    UserAgent,
    /// A path under `/echo/`; `rest` is everything after the prefix.
    Echo { rest: Seq<u8> },
    /// A GET for a path under `/files/`; `name` is the file name.
    FileGet { name: Seq<u8> },
    /// A POST for a path under `/files/`; `name` is the file name.
    FilePost { name: Seq<u8> },
    /// Any other path, or a method other than GET and POST on a path
    /// under `/files/`.
    NotFound,
}

/// The dispatch of a `(method, path)` pair, in the fixed priority
/// order: `/` exactly, `/user-agent` exactly, the `/files/` prefix
/// (GET and POST; any other method falls through to not-found), the
/// `/echo/` prefix, and otherwise not-found.
pub open spec fn route_spec(method: Seq<u8>, path: Seq<u8>) -> RouteView {
    if path == root_path() {
        RouteView::Home
    } else if path == user_agent_path() {
        RouteView::UserAgent
    } else if starts_with(path, files_prefix()) {
        if method == method_get() {
            RouteView::FileGet { name: path.subrange(files_prefix().len() as int, path.len() as int) }
        } else if method == method_post() {
            RouteView::FilePost { name: path.subrange(files_prefix().len() as int, path.len() as int) }
        } else {
            RouteView::NotFound
        }
    } else if starts_with(path, echo_prefix()) {
        RouteView::Echo { rest: path.subrange(echo_prefix().len() as int, path.len() as int) }
    } else {
        RouteView::NotFound
    }
}

/// The executable form of a dispatched route.
pub enum Route {
    Home,
    UserAgent,
    Echo { rest: Vec<u8> },
    FileGet { name: Vec<u8> },
    FilePost { name: Vec<u8> },
    NotFound,
}

impl View for Route {
    type V = RouteView;

    open spec fn view(&self) -> RouteView {
        match self {
            Route::Home => RouteView::Home,
            Route::UserAgent => RouteView::UserAgent,
            Route::Echo { rest } => RouteView::Echo { rest: rest@ },
            Route::FileGet { name } => RouteView::FileGet { name: name@ },
            Route::FilePost { name } => RouteView::FilePost { name: name@ },
            Route::NotFound => RouteView::NotFound,
        }
    }
}

/// Dispatches a method and path to their route.
pub fn route(method: &Vec<u8>, path: &Vec<u8>) -> (r: Route)
    ensures
        r@ == route_spec(method@, path@),
{
    let root = root_path_bytes();
    if bytes_eq(path, &root) {
        return Route::Home;
    }
    let ua = user_agent_path_bytes();
    if bytes_eq(path, &ua) {
        return Route::UserAgent;
    }
    let files = files_prefix_bytes();
    if has_prefix(path, &files) {
        let get = method_get_bytes();
        if bytes_eq(method, &get) {
            let name = sub_vec(path, files.len(), path.len());
            return Route::FileGet { name };
        }
        let post = method_post_bytes();
        if bytes_eq(method, &post) {
            let name = sub_vec(path, files.len(), path.len());
            return Route::FilePost { name };
        }
        return Route::NotFound;
    }
    let echo = echo_prefix_bytes();
    if has_prefix(path, &echo) {
        let rest = sub_vec(path, echo.len(), path.len());
        return Route::Echo { rest };
    }
    Route::NotFound
}

/// A response with the given status line, no headers and an empty body.
pub open spec fn empty_response(status: Seq<u8>) -> RespView {
    RespView { status_line: status, headers: Seq::empty(), body: Seq::empty() }
}

/// A `200 OK` response carrying `body` as plain text, with its byte
/// length as the content length.
pub open spec fn ok_text_response(body: Seq<u8>) -> RespView {
    RespView {
        status_line: status_200(),
        headers: seq![
            (content_type(), text_plain()),
            (content_length(), dec_digits(body.len())),
        ],
        body: body,
    }
}

/// A `200 OK` response carrying file contents as an octet stream, with
/// their byte length as the content length.
pub open spec fn file_response(contents: Seq<u8>) -> RespView {
    RespView {
        status_line: status_200(),
        headers: seq![
            (content_type(), octet_stream()),
            (content_length(), dec_digits(contents.len())),
        ],
        body: contents,
    }
}

/// Builds the plain-text `200 OK` response for `body`.
fn ok_text(body: Vec<u8>) -> (r: Response)
    ensures
        r@ == ok_text_response(body@),
{
    let mut resp = Response::new(status_200_bytes());
    resp.push_header(content_type_bytes(), text_plain_bytes());
    let len_bytes = u64_to_dec(body.len() as u64);
    resp.push_header(content_length_bytes(), len_bytes);
    resp.body = body;
    proof {
        assert(resp@.headers =~= ok_text_response(resp@.body).headers);
    }
    resp
}

/// The response of the user-agent route: the value of the `User-Agent`
/// header reflected as plain text, or an empty body when the request
/// carries none.
pub open spec fn user_agent_response(req: ReqView) -> RespView {
    ok_text_response(
        match req.header(user_agent()) {
            Some(v) => v,
            None => Seq::empty(),
        },
    )
}

/// Reflects the request's `User-Agent` header (or an empty body) as a
/// plain-text `200 OK`.
pub fn handle_get_user_agent(request: &Request) -> (r: Response)
    ensures
        r@ == user_agent_response(request@),
{
    let ua_name = user_agent_bytes();
    match request.header(&ua_name) {
        Some(v) => ok_text(v),
        None => {
            let r = ok_text(Vec::new());
            proof {
                assert(Seq::<u8>::empty() =~= user_agent_response(request@).body);
            }
            r
        },
    }
}

/// The response of the echo route: everything after `/echo/`, as plain
/// text.
pub open spec fn echo_response(req: ReqView) -> RespView {
    ok_text_response(req.path.subrange(echo_prefix().len() as int, req.path.len() as int))
}

/// Echoes everything after `/echo/` in the request path as a plain-text
/// `200 OK`.
pub fn handle_get_echo(request: &Request) -> (r: Response)
    requires
        starts_with(request@.path, echo_prefix()),
    ensures
        r@ == echo_response(request@),
{
    let echo = echo_prefix_bytes();
    let rest = sub_vec(&request.path, echo.len(), request.path.len());
    ok_text(rest)
}

/// The response of a file GET, given what the file store found: the
/// contents as an octet stream on success, `404 Not Found` with an
/// empty body when the file is absent.
pub open spec fn file_get_response(contents: Option<Seq<u8>>) -> RespView {
    match contents {
        Some(b) => file_response(b),
        None => empty_response(status_404()),
    }
}

/// Turns what the file store found into the file GET response.
pub fn handle_get_files(contents: Option<Vec<u8>>) -> (r: Response)
    ensures
        match contents {
            Some(b) => r@ == file_get_response(Some(b@)),
            None => r@ == file_get_response(None),
        },
{
    match contents {
        Some(b) => {
            let mut resp = Response::new(status_200_bytes());
            resp.push_header(content_type_bytes(), octet_stream_bytes());
            let len_bytes = u64_to_dec(b.len() as u64);
            resp.push_header(content_length_bytes(), len_bytes);
            resp.body = b;
            proof {
                assert(resp@.headers =~= file_response(resp@.body).headers);
            }
            resp
        },
        None => Response::new(status_404_bytes()),
    }
}

/// Acknowledges a completed file write with `201 Created` and an empty
/// body.
pub fn handle_post_files() -> (r: Response)
    ensures
        r@ == empty_response(status_201()),
{
    Response::new(status_201_bytes())
}

} // verus!
