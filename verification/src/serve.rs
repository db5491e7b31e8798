//! The per-connection pipeline: parse, route, handle, apply the
//! content-encoding step, serialize.
//!
//! The file routes need the file store in the middle, so the pipeline
//! is split in two verified steps: `handle_request` either finishes a
//! connection outright or says which file operation is needed, and
//! `finish_file_read` / `finish_file_write` turn that operation's
//! outcome into the wire bytes.
use vstd::prelude::*;

use itertools::Itertools;

use crate::bytes::{split_all, split_all_bytes, views};
use crate::request::{parse_request, Request, ReqView};
use crate::response::{render_response, RespView, Response};
use crate::router::{
    echo_response, empty_response, file_get_response, handle_get_echo, handle_get_files,
    handle_get_user_agent, handle_post_files, route, route_spec, user_agent_response, Route,
    RouteView,
};
use crate::wire::{
    accept_encoding, accept_encoding_bytes, comma, comma_bytes, content_encoding,
    content_encoding_bytes, gzip, gzip_bytes, status_200, status_200_bytes, status_201,
    status_404, status_404_bytes,
};

verus! {

/// An encoding list advertises gzip: `v`, split at every comma, has a
/// piece that is exactly `gzip` (no trimming, case-sensitive).
pub open spec fn has_gzip_piece(v: Seq<u8>) -> bool {
    exists|i: int| 0 <= i < split_all(v, comma()).len() && split_all(v, comma())[i] == gzip()
}

/// The request advertises gzip support in its `Accept-Encoding` header.
pub open spec fn wants_gzip(req: ReqView) -> bool {
    match req.header(accept_encoding()) {
        Some(v) => has_gzip_piece(v),
        None => false,
    }
}

/// The response after the content-encoding step: when the request
/// advertises gzip support, a `Content-Encoding: gzip` header is added
/// after the handler's headers; otherwise the response is unchanged.
/// Mirroring the wire behaviour this models, the body itself is left
/// uncompressed: only the header is added.
pub open spec fn encoded(req: ReqView, resp: RespView) -> RespView {
    if wants_gzip(req) {
        RespView { headers: resp.headers.push((content_encoding(), gzip())), ..resp }
    } else {
        resp
    }
}

/// Relies on `Itertools::contains`: whether some element of the list
/// equals the query, by `Vec<u8>` equality.
#[verifier::external_body]
fn contains_piece(parts: &Vec<Vec<u8>>, tok: &Vec<u8>) -> (r: bool)
    ensures
        r == (exists|i: int| 0 <= i < parts@.len() && parts@[i]@ == tok@),
{
    parts.iter().contains(tok)
}

/// Applies the content-encoding step to a handler's response.
pub fn apply_accept_encoding(request: &Request, response: Response) -> (r: Response)
    ensures
        r@ == encoded(request@, response@),
{
    let ae_name = accept_encoding_bytes();
    match request.header(&ae_name) {
        Some(v) => {
            let comma_v = comma_bytes();
            let parts = split_all_bytes(&v, &comma_v);
            let g = gzip_bytes();
            if contains_piece(&parts, &g) {
                proof {
                    let i = choose|i: int| 0 <= i < parts@.len() && parts@[i]@ == g@;
                    assert(views(parts@)[i] == parts@[i]@);
                    assert(0 <= i < split_all(v@, comma()).len() && split_all(v@, comma())[i]
                        == gzip());
                    assert(has_gzip_piece(v@));
                    assert(request@.header(accept_encoding()) == Some(v@));
                    assert(wants_gzip(request@));
                }
                let mut r = response;
                r.push_header(content_encoding_bytes(), g);
                r
            } else {
                proof {
                    assert forall|i: int|
                        0 <= i < split_all(v@, comma()).len() implies split_all(v@, comma())[i]
                        != gzip() by {
                        assert(views(parts@)[i] == parts@[i]@);
                    }
                    assert(!has_gzip_piece(v@));
                    assert(request@.header(accept_encoding()) == Some(v@));
                    assert(!wants_gzip(request@));
                }
                response
            }
        },
        None => response,
    }
}

/// What `handle_request` decided: either the connection's wire response
/// is ready, or a file operation is needed first.
pub enum Step {
    /// The response is fully built; write `wire` and close.
    Done { wire: Vec<u8> },
    /// A GET under `/files/`: look `name` up in the file store, then
    /// hand the outcome to `finish_file_read`.
    FileRead { name: Vec<u8>, request: Request },
    /// A POST under `/files/`: write `contents` to `name` in the file
    /// store, then hand the outcome to `finish_file_write`.
    FileWrite { name: Vec<u8>, contents: Vec<u8>, request: Request },
}

/// The handler response of the routes that need no file store.
pub open spec fn simple_response(req: ReqView) -> Option<RespView> {
    match route_spec(req.method, req.path) {
        RouteView::Home => Some(empty_response(status_200())),
        RouteView::UserAgent => Some(user_agent_response(req)),
        RouteView::Echo { rest } => Some(echo_response(req)),
        RouteView::NotFound => Some(empty_response(status_404())),
        RouteView::FileGet { name } => None,
        RouteView::FilePost { name } => None,
    }
}

/// The wire bytes owed for a request whose route needs no file store:
/// its handler response, after the content-encoding step, serialized.
pub open spec fn simple_wire(req: ReqView) -> Seq<u8> {
    render_response(encoded(req, simple_response(req)->Some_0))
}

/// The wire bytes owed for a buffer that does not parse: a bare
/// `404 Not Found` with an empty body, indistinguishable from an
/// unmatched path.
pub open spec fn malformed_wire() -> Seq<u8> {
    render_response(empty_response(status_404()))
}

/// Handles the bytes of one read as far as routing allows: for the
/// routes that need no file store the wire response is built outright
/// (a buffer that does not parse gets the bare not-found response);
/// for the file routes the needed operation is returned.
pub fn handle_request(input: &Vec<u8>) -> (r: Step)
    ensures
        match parse_request(input@) {
            Err(e) => r matches Step::Done { wire } && wire@ == malformed_wire(),
            Ok(req) => match route_spec(req.method, req.path) {
                RouteView::FileGet { name } => r matches Step::FileRead {
                    name: n,
                    request,
                } && n@ == name && request@ == req,
                RouteView::FilePost { name } => r matches Step::FileWrite {
                    name: n,
                    contents,
                    request,
                } && n@ == name && contents@ == req.body && request@ == req,
                _ => r matches Step::Done { wire } && wire@ == simple_wire(req),
            },
        },
{
    let request = match Request::from_str(input) {
        Err(e) => {
            let resp = Response::new(status_404_bytes());
            return Step::Done { wire: resp.build() };
        },
        Ok(request) => request,
    };
    let routed = route(&request.method, &request.path);
    let resp = match routed {
        Route::Home => Response::new(status_200_bytes()),
        Route::UserAgent => handle_get_user_agent(&request),
        Route::Echo { rest } => handle_get_echo(&request),
        Route::NotFound => Response::new(status_404_bytes()),
        Route::FileGet { name } => {
            return Step::FileRead { name, request };
        },
        Route::FilePost { name } => {
            let contents = crate::bytes::sub_vec(&request.body, 0, request.body.len());
            return Step::FileWrite { name, contents, request };
        },
    };
    let resp = apply_accept_encoding(&request, resp);
    proof {
        assert(resp@ == encoded(request@, simple_response(request@)->Some_0));
    }
    Step::Done { wire: resp.build() }
}

/// Finishes a file GET: what the file store found, turned into the
/// response, encoded and serialized.
pub fn finish_file_read(request: &Request, contents: Option<Vec<u8>>) -> (r: Vec<u8>)
    ensures
        match contents {
            Some(b) => r@ == render_response(encoded(request@, file_get_response(Some(b@)))),
            None => r@ == render_response(encoded(request@, file_get_response(None))),
        },
{
    let resp = handle_get_files(contents);
    let resp = apply_accept_encoding(request, resp);
    resp.build()
}

/// Finishes a file POST: on a successful write, the `201 Created`
/// acknowledgement, encoded and serialized; on a failed write, no
/// response — the connection is dropped.
pub fn finish_file_write(request: &Request, ok: bool) -> (r: Option<Vec<u8>>)
    ensures
        ok ==> (r matches Some(w) && w@ == render_response(
            encoded(request@, empty_response(status_201())),
        )),
        !ok ==> r is None,
{
    if ok {
        let resp = handle_post_files();
        let resp = apply_accept_encoding(request, resp);
        Some(resp.build())
    } else {
        None
    }
}

} // verus!
