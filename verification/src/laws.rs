//! The behavioural laws of the pipeline, stated over the specification
//! functions the executable contracts are written with and proved once
//! for all inputs.
use vstd::prelude::*;

use crate::bytes::{dec_digits, lookup, match_at, starts_with};
use crate::request::ReqView;
use crate::response::RespView;
use crate::router::{
    echo_response, empty_response, file_get_response, file_response, ok_text_response,
    route_spec, user_agent_response, RouteView,
};
use crate::serve::{encoded, simple_response, wants_gzip};
use crate::wire::{
    content_encoding, content_length, content_type, echo_prefix, files_prefix, gzip,
    method_get, method_post, octet_stream, root_path, status_200, status_201, status_404,
    text_plain, user_agent, user_agent_path,
};

verus! {

/// The content-encoding step never changes the status line or the body,
/// and it changes no header lookup other than `Content-Encoding`.
pub proof fn lemma_encoded_header(req: ReqView, resp: RespView, name: Seq<u8>)
    requires
        name != content_encoding(),
    ensures
        lookup(encoded(req, resp).headers, name) == lookup(resp.headers, name),
        encoded(req, resp).status_line == resp.status_line,
        encoded(req, resp).body == resp.body,
{
    if wants_gzip(req) {
        let hs = resp.headers.push((content_encoding(), gzip()));
        assert(hs.last().0 == content_encoding());
        assert(hs.drop_last() =~= resp.headers);
    }
}

/// The two headers of a plain-text success response, looked up by name.
proof fn lemma_ok_text_lookups(body: Seq<u8>)
    ensures
        lookup(ok_text_response(body).headers, content_type()) == Some(text_plain()),
        lookup(ok_text_response(body).headers, content_length()) == Some(
            dec_digits(body.len()),
        ),
{
    let hs = ok_text_response(body).headers;
    assert(content_type()[8] == 84 && content_length()[8] == 76);
    assert(content_type() != content_length());
    assert(hs.last() == (content_length(), dec_digits(body.len())));
    assert(hs.drop_last() =~= seq![(content_type(), text_plain())]);
    assert(lookup(seq![(content_type(), text_plain())], content_type()) == Some(text_plain()));
}

/// The two headers of a file success response, looked up by name.
proof fn lemma_file_lookups(contents: Seq<u8>)
    ensures
        lookup(file_response(contents).headers, content_type()) == Some(octet_stream()),
        lookup(file_response(contents).headers, content_length()) == Some(
            dec_digits(contents.len()),
        ),
{
    let hs = file_response(contents).headers;
    assert(content_type()[8] == 84 && content_length()[8] == 76);
    assert(content_type() != content_length());
    assert(hs.last() == (content_length(), dec_digits(contents.len())));
    assert(hs.drop_last() =~= seq![(content_type(), octet_stream())]);
    assert(lookup(seq![(content_type(), octet_stream())], content_type()) == Some(
        octet_stream(),
    ));
}

/// A path that is `/echo/` followed by anything is dispatched to the
/// echo route, whatever the method, and the remainder is everything
/// after the prefix.
pub proof fn lemma_route_echo(method: Seq<u8>, path: Seq<u8>, rest: Seq<u8>)
    requires
        path == echo_prefix() + rest,
    ensures
        route_spec(method, path) == (RouteView::Echo { rest }),
{
    assert(path.len() >= 6);
    assert(path[1] == 101);
    assert(user_agent_path()[1] == 117);
    assert(files_prefix()[1] == 102);
    assert(path != root_path());
    assert(path != user_agent_path());
    assert(!starts_with(path, files_prefix()));
    assert(match_at(path, echo_prefix(), 0));
    assert(path.subrange(echo_prefix().len() as int, path.len() as int) =~= rest);
}

/// A path that is `/files/` followed by anything is dispatched to the
/// file routes: a read for GET, a write for POST, and the not-found
/// fallback for any other method.
pub proof fn lemma_route_files(method: Seq<u8>, path: Seq<u8>, name: Seq<u8>)
    requires
        path == files_prefix() + name,
    ensures
        method == method_get() ==> route_spec(method, path) == (RouteView::FileGet { name }),
        method == method_post() ==> route_spec(method, path) == (RouteView::FilePost { name }),
        method != method_get() && method != method_post() ==> route_spec(method, path)
            == RouteView::NotFound,
{
    assert(path.len() >= 7);
    assert(path[1] == 102);
    assert(user_agent_path()[1] == 117);
    assert(path != root_path());
    assert(path != user_agent_path());
    assert(match_at(path, files_prefix(), 0));
    assert(path.subrange(files_prefix().len() as int, path.len() as int) =~= name);
}

/// For every request whose path is `/echo/` followed by `rest`, the
/// pipeline's response has status `200 OK`, content type `text/plain`,
/// content length the decimal byte length of `rest`, and body exactly
/// `rest` — whatever the method, headers and body of the request.
pub proof fn lemma_echo(req: ReqView, rest: Seq<u8>)
    requires
        req.path == echo_prefix() + rest,
    ensures
        ({
            let resp = encoded(req, simple_response(req)->Some_0);
            &&& resp.status_line == status_200()
            &&& lookup(resp.headers, content_type()) == Some(text_plain())
            &&& lookup(resp.headers, content_length()) == Some(dec_digits(rest.len()))
            &&& resp.body == rest
        }),
{
    lemma_route_echo(req.method, req.path, rest);
    assert(simple_response(req) == Some(echo_response(req)));
    assert(req.path.subrange(echo_prefix().len() as int, req.path.len() as int) =~= rest);
    lemma_ok_text_lookups(rest);
    lemma_encoded_header(req, echo_response(req), content_type());
    lemma_encoded_header(req, echo_response(req), content_length());
}

/// Two echo requests for different remainders are answered with
/// different bodies: each connection's response carries exactly its own
/// path remainder.
pub proof fn lemma_echo_distinct(req1: ReqView, req2: ReqView, rest1: Seq<u8>, rest2: Seq<u8>)
    requires
        req1.path == echo_prefix() + rest1,
        req2.path == echo_prefix() + rest2,
        rest1 != rest2,
    ensures
        encoded(req1, simple_response(req1)->Some_0).body != encoded(
            req2,
            simple_response(req2)->Some_0,
        ).body,
{
    lemma_echo(req1, rest1);
    lemma_echo(req2, rest2);
}

/// A request for the root path is answered with `200 OK` and an empty
/// body, whatever its method, headers and body.
pub proof fn lemma_home(req: ReqView)
    requires
        req.path == root_path(),
    ensures
        encoded(req, simple_response(req)->Some_0).status_line == status_200(),
        encoded(req, simple_response(req)->Some_0).body == Seq::<u8>::empty(),
{
    assert(simple_response(req) == Some(empty_response(status_200())));
    lemma_encoded_header(req, empty_response(status_200()), content_type());
}

/// A request for `/user-agent` is answered with `200 OK`, a plain-text
/// content type, and a body that is exactly the value of its
/// `User-Agent` header — or empty, with content length `0`, when the
/// request carries none.
pub proof fn lemma_user_agent(req: ReqView)
    requires
        req.path == user_agent_path(),
    ensures
        ({
            let resp = encoded(req, simple_response(req)->Some_0);
            let ua = match req.header(user_agent()) {
                Some(v) => v,
                None => Seq::<u8>::empty(),
            };
            &&& resp.status_line == status_200()
            &&& lookup(resp.headers, content_type()) == Some(text_plain())
            &&& lookup(resp.headers, content_length()) == Some(dec_digits(ua.len()))
            &&& resp.body == ua
        }),
{
    assert(user_agent_path().len() == 11 && root_path().len() == 1);
    assert(user_agent_path() != root_path());
    assert(simple_response(req) == Some(user_agent_response(req)));
    let ua = match req.header(user_agent()) {
        Some(v) => v,
        None => Seq::<u8>::empty(),
    };
    lemma_ok_text_lookups(ua);
    lemma_encoded_header(req, user_agent_response(req), content_type());
    lemma_encoded_header(req, user_agent_response(req), content_length());
}

/// A request whose route is the not-found fallback is answered with
/// `404 Not Found` and an empty body.
pub proof fn lemma_not_found(req: ReqView)
    requires
        route_spec(req.method, req.path) == RouteView::NotFound,
    ensures
        encoded(req, simple_response(req)->Some_0).status_line == status_404(),
        encoded(req, simple_response(req)->Some_0).body == Seq::<u8>::empty(),
{
    assert(simple_response(req) == Some(empty_response(status_404())));
    lemma_encoded_header(req, empty_response(status_404()), content_type());
}

/// A file GET whose name the store does not hold is answered with
/// `404 Not Found` and an empty body.
pub proof fn lemma_file_missing(req: ReqView)
    ensures
        encoded(req, file_get_response(None)).status_line == status_404(),
        encoded(req, file_get_response(None)).body == Seq::<u8>::empty(),
{
    lemma_encoded_header(req, file_get_response(None), content_type());
}

/// The file round trip, as far as it runs through this library: a POST
/// for `/files/` and `name` is dispatched to a write of exactly the
/// request body `b` and acknowledged with `201 Created`; and a later GET
/// for the same name, handed those same bytes back by the file store, is
/// answered with `200 OK`, an octet-stream content type, and body
/// exactly `b`. That the store hands back what was written is the file
/// system's part, outside this library.
pub proof fn lemma_file_round_trip(post: ReqView, get: ReqView, name: Seq<u8>, b: Seq<u8>)
    requires
        post.method == method_post(),
        post.path == files_prefix() + name,
        post.body == b,
        get.method == method_get(),
        get.path == files_prefix() + name,
    ensures
        route_spec(post.method, post.path) == (RouteView::FilePost { name }),
        encoded(post, empty_response(status_201())).status_line == status_201(),
        route_spec(get.method, get.path) == (RouteView::FileGet { name }),
        ({
            let resp = encoded(get, file_get_response(Some(b)));
            &&& resp.status_line == status_200()
            &&& lookup(resp.headers, content_type()) == Some(octet_stream())
            &&& lookup(resp.headers, content_length()) == Some(dec_digits(b.len()))
            &&& resp.body == b
        }),
{
    lemma_route_files(post.method, post.path, name);
    lemma_route_files(get.method, get.path, name);
    lemma_encoded_header(post, empty_response(status_201()), content_type());
    lemma_file_lookups(b);
    lemma_encoded_header(get, file_get_response(Some(b)), content_type());
    lemma_encoded_header(get, file_get_response(Some(b)), content_length());
}

} // verus!
