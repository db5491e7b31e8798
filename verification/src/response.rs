//! The HTTP/1.1 response model and its serialization to wire bytes:
//! the status line, one `name: value` line per header in the order the
//! headers were added, a blank line, and the raw body.
use vstd::prelude::*;

use crate::bytes::{pair_views, push_all, sub_vec, views};
use crate::wire::{colon_space, colon_space_bytes, crlf, crlf_bytes};

verus! {

/// The mathematical view of a response: the status line, the header
/// pairs in the order they will be written, and the body, all as byte
/// sequences.
pub ghost struct RespView {
    pub status_line: Seq<u8>,
    pub headers: Seq<(Seq<u8>, Seq<u8>)>,
    pub body: Seq<u8>,
}

/// A response under construction: built by a handler, possibly extended
/// with a content-encoding header, then serialized once.
pub struct Response {
    pub status_line: Vec<u8>,
    pub headers: Vec<(Vec<u8>, Vec<u8>)>,
    pub body: Vec<u8>,
}

impl View for Response {
    type V = RespView;

    open spec fn view(&self) -> RespView {
        RespView {
            status_line: self.status_line@,
            headers: pair_views(self.headers@),
            body: self.body@,
        }
    }
}

/// One serialized header line: `name: value` followed by CRLF.
pub open spec fn render_header_line(h: (Seq<u8>, Seq<u8>)) -> Seq<u8> {
    h.0 + colon_space() + h.1 + crlf()
}

/// The serialized header block: every header line, in order.
pub open spec fn render_headers(hs: Seq<(Seq<u8>, Seq<u8>)>) -> Seq<u8>
    decreases hs.len(),
{
    if hs.len() == 0 {
        Seq::empty()
    } else {
        render_headers(hs.drop_last()) + render_header_line(hs.last())
    }
}

/// The wire bytes of a response: the status line, CRLF, the header
/// block, a blank line, and the body.
pub open spec fn render_response(r: RespView) -> Seq<u8> {
    r.status_line + crlf() + render_headers(r.headers) + crlf() + r.body
}

/// Relies on `itertools::concat`: it extends the first part with each of
/// the later parts in order, so the result is their concatenation.
#[verifier::external_body]
fn concat_parts(parts: Vec<Vec<u8>>) -> (r: Vec<u8>)
    ensures
        r@ == views(parts@).flatten(),
{
    itertools::concat(parts)
}

impl Response {
    /// A response with the given status line, no headers and an empty
    /// body.
    pub fn new(status_line: Vec<u8>) -> (r: Response)
        ensures
            r@.status_line == status_line@,
            r@.headers == Seq::<(Seq<u8>, Seq<u8>)>::empty(),
            r@.body == Seq::<u8>::empty(),
    {
        let r = Response { status_line, headers: Vec::new(), body: Vec::new() };
        proof {
            assert(r@.headers =~= Seq::<(Seq<u8>, Seq<u8>)>::empty());
        }
        r
    }

    /// Adds one header after those already present.
    pub fn push_header(&mut self, name: Vec<u8>, value: Vec<u8>)
        ensures
            final(self)@.status_line == old(self)@.status_line,
            final(self)@.headers == old(self)@.headers.push((name@, value@)),
            final(self)@.body == old(self)@.body,
    {
        self.headers.push((name, value));
        proof {
            assert(final(self)@.headers =~= old(self)@.headers.push((name@, value@)));
        }
    }

    /// Serializes the response to its wire bytes.
    #[verifier::loop_isolation(false)]
    pub fn build(&self) -> (r: Vec<u8>)
        ensures
            r@ == render_response(self@),
    {
        let crlf_v = crlf_bytes();
        let cs_v = colon_space_bytes();
        let mut parts: Vec<Vec<u8>> = Vec::new();
        let mut head = sub_vec(&self.status_line, 0, self.status_line.len());
        push_all(&mut head, &crlf_v);
        proof {
            assert(head@ =~= self@.status_line + crlf());
        }
        parts.push(head);
        proof {
            assert(views(parts@.drop_last()) =~= Seq::<Seq<u8>>::empty());
            views(parts@.drop_last()).lemma_flatten_push(parts@.last()@);
            assert(views(parts@) =~= views(parts@.drop_last()).push(parts@.last()@));
            assert(views(parts@).flatten() =~= self@.status_line + crlf() + render_headers(
                self@.headers.subrange(0, 0),
            ));
        }
        let n = self.headers.len();
        let mut i: usize = 0;
        while i < n
            invariant
                0 <= i <= n,
                views(parts@).flatten() == self@.status_line + crlf() + render_headers(
                    self@.headers.subrange(0, i as int),
                ),
            decreases n - i,
        {
            let name = &self.headers[i].0;
            let value = &self.headers[i].1;
            let mut line = sub_vec(name, 0, name.len());
            push_all(&mut line, &cs_v);
            push_all(&mut line, value);
            push_all(&mut line, &crlf_v);
            proof {
                assert(line@ =~= render_header_line(self@.headers[i as int]));
            }
            let ghost old_parts = parts@;
            parts.push(line);
            proof {
                assert(views(parts@) =~= views(old_parts).push(line@));
                views(old_parts).lemma_flatten_push(line@);
                let cur = self@.headers.subrange(0, i + 1);
                assert(cur.drop_last() =~= self@.headers.subrange(0, i as int));
                assert(cur.last() == self@.headers[i as int]);
                assert(views(parts@).flatten() =~= self@.status_line + crlf() + render_headers(
                    cur,
                ));
            }
            i += 1;
        }
        proof {
            assert(self@.headers.subrange(0, n as int) =~= self@.headers);
        }
        let blank = sub_vec(&crlf_v, 0, crlf_v.len());
        proof {
            assert(blank@ =~= crlf());
        }
        let ghost old_parts = parts@;
        parts.push(blank);
        proof {
            assert(views(parts@) =~= views(old_parts).push(crlf()));
            views(old_parts).lemma_flatten_push(crlf());
        }
        let body = sub_vec(&self.body, 0, self.body.len());
        proof {
            assert(body@ =~= self@.body);
        }
        let ghost old_parts2 = parts@;
        parts.push(body);
        proof {
            assert(views(parts@) =~= views(old_parts2).push(self@.body));
            views(old_parts2).lemma_flatten_push(self@.body);
            assert(views(parts@).flatten() =~= render_response(self@));
        }
        let r = concat_parts(parts);
        r
    }
}

} // verus!
