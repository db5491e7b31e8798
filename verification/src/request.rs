//! The HTTP/1.1 request model and its parser.
//!
//! A request is parsed from the bytes of a single read: the request line
//! up to the first CRLF, split on whitespace into exactly three tokens;
//! then the header block up to the first blank line, one `name: value`
//! pair per line with the name lowered for case-insensitive lookup; then
//! the body, the raw remainder. When no blank line is present the headers
//! are taken to be empty and no body is extracted.
use vstd::prelude::*;

use crate::bytes::{
    lookup, lower_seq, pair_views, split_all, split_all_bytes, split_at_first, split_once,
    to_lower, views, ws_tokens, ws_tokens_bytes,
};
use crate::wire::{colon_space, colon_space_bytes, crlf, crlf_bytes, crlf_crlf, crlf_crlf_bytes};

verus! {

/// Why a byte buffer failed to parse as a request.
#[derive(Clone, Copy, Debug, PartialEq, Eq, Structural)]
pub enum ParseError {
    /// The buffer has no CRLF, or its first line does not split on
    /// whitespace into exactly three tokens.
    MalformedRequestLine,
    /// A line of the header block has no `": "` separator.
    MalformedHeaderLine,
}

/// The mathematical view of a request: every field as a byte sequence,
/// the headers as lowered `(name, value)` pairs in line order, where a
/// later binding of a name shadows an earlier one.
pub ghost struct ReqView {
    pub method: Seq<u8>,
    pub path: Seq<u8>,
    pub version: Seq<u8>,
    pub headers: Seq<(Seq<u8>, Seq<u8>)>,
    pub body: Seq<u8>,
}

impl ReqView {
    /// The value of the header `name`, if the request carries it.
    pub open spec fn header(self, name: Seq<u8>) -> Option<Seq<u8>> {
        lookup(self.headers, name)
    }
}

/// A parsed request: method, path, version, lowered headers and body.
#[derive(Debug)]
pub struct Request {
    pub method: Vec<u8>,
    pub path: Vec<u8>,
    pub version: Vec<u8>,
    pub headers: Vec<(Vec<u8>, Vec<u8>)>,
    pub body: Vec<u8>,
}

impl View for Request {
    type V = ReqView;

    open spec fn view(&self) -> ReqView {
        ReqView {
            method: self.method@,
            path: self.path@,
            version: self.version@,
            headers: pair_views(self.headers@),
            body: self.body@,
        }
    }
}

/// One header line parsed at its first `": "`, the name lowered; `None`
/// when the line has no separator.
pub open spec fn parse_header_line(line: Seq<u8>) -> Option<(Seq<u8>, Seq<u8>)> {
    match split_once(line, colon_space()) {
        Some(pair) => Some((lower_seq(pair.0), pair.1)),
        None => None,
    }
}

/// All header lines parsed in order; `None` when any line is malformed.
pub open spec fn parse_header_lines(lines: Seq<Seq<u8>>) -> Option<Seq<(Seq<u8>, Seq<u8>)>>
    decreases lines.len(),
{
    if lines.len() == 0 {
        Some(Seq::empty())
    } else {
        match parse_header_lines(lines.drop_last()) {
            None => None,
            Some(hs) => match parse_header_line(lines.last()) {
                None => None,
                Some(h) => Some(hs.push(h)),
            },
        }
    }
}

/// Header lines parse as a whole exactly when each line parses alone.
pub proof fn lemma_parse_header_lines_each(lines: Seq<Seq<u8>>)
    ensures
        (parse_header_lines(lines) is Some) <==> (forall|k: int|
            0 <= k < lines.len() ==> parse_header_line(lines[k]) is Some),
    decreases lines.len(),
{
    if lines.len() > 0 {
        lemma_parse_header_lines_each(lines.drop_last());
        assert(forall|k: int| 0 <= k < lines.len() - 1 ==> lines.drop_last()[k] == lines[k]);
        assert(lines.last() == lines[lines.len() - 1]);
    }
}

/// The header block and the body: the pieces of `rest` on either side of
/// the first blank line, or both empty when there is none.
pub open spec fn split_head_body(rest: Seq<u8>) -> (Seq<u8>, Seq<u8>) {
    match split_once(rest, crlf_crlf()) {
        Some(pair) => pair,
        None => (Seq::empty(), Seq::empty()),
    }
}

/// The headers of a request whose header block is `hblock`: none when the
/// block is empty, otherwise one pair per CRLF-separated line; `None` when
/// a line is malformed.
pub open spec fn parse_headers(hblock: Seq<u8>) -> Option<Seq<(Seq<u8>, Seq<u8>)>> {
    if hblock.len() == 0 {
        Some(Seq::empty())
    } else {
        parse_header_lines(split_all(hblock, crlf()))
    }
}

/// The request denoted by the bytes `s`, or the first error the parse
/// runs into: no CRLF or not exactly three request-line tokens is a
/// malformed request line; a header line without `": "` is a malformed
/// header line.
pub open spec fn parse_request(s: Seq<u8>) -> Result<ReqView, ParseError> {
    match split_once(s, crlf()) {
        None => Err(ParseError::MalformedRequestLine),
        Some(first) => {
            let toks = ws_tokens(first.0);
            if toks.len() != 3 {
                Err(ParseError::MalformedRequestLine)
            } else {
                let head_body = split_head_body(first.1);
                match parse_headers(head_body.0) {
                    None => Err(ParseError::MalformedHeaderLine),
                    Some(hs) => Ok(
                        ReqView {
                            method: toks[0],
                            path: toks[1],
                            version: toks[2],
                            headers: hs,
                            body: head_body.1,
                        },
                    ),
                }
            }
        },
    }
}

impl Request {
    /// Parses the bytes of one read into a request, or says what was
    /// malformed.
    #[verifier::loop_isolation(false)]
    pub fn from_str(s: &Vec<u8>) -> (r: Result<Request, ParseError>)
        ensures
            match r {
                Ok(req) => parse_request(s@) == Ok::<ReqView, ParseError>(req@),
                Err(e) => parse_request(s@) == Err::<ReqView, ParseError>(e),
            },
    {
        let crlf_v = crlf_bytes();
        let first = match split_at_first(s, &crlf_v) {
            None => {
                return Err(ParseError::MalformedRequestLine);
            },
            Some(pair) => pair,
        };
        let line = first.0;
        let rest = first.1;
        let mut toks = ws_tokens_bytes(&line);
        if toks.len() != 3 {
            return Err(ParseError::MalformedRequestLine);
        }
        let method = toks.remove(0);
        let path = toks.remove(0);
        let version = toks.remove(0);
        proof {
            assert(method@ == ws_tokens(line@)[0]);
            assert(path@ == ws_tokens(line@)[1]);
            assert(version@ == ws_tokens(line@)[2]);
        }
        let crlf2_v = crlf_crlf_bytes();
        let head_body = match split_at_first(&rest, &crlf2_v) {
            Some(pair) => pair,
            None => (Vec::new(), Vec::new()),
        };
        let hblock = head_body.0;
        let body = head_body.1;
        proof {
            assert((hblock@, body@) == split_head_body(rest@));
        }
        let mut headers: Vec<(Vec<u8>, Vec<u8>)> = Vec::new();
        if hblock.len() > 0 {
            let lines = split_all_bytes(&hblock, &crlf_v);
            let cs_v = colon_space_bytes();
            let n = lines.len();
            let mut k: usize = 0;
            while k < n
                invariant
                    n == lines@.len(),
                    0 <= k <= n,
                    hblock@.len() > 0,
                    views(lines@) == split_all(hblock@, crlf()),
                    cs_v@ == colon_space(),
                    parse_header_lines(views(lines@).subrange(0, k as int)) == Some(
                        pair_views(headers@),
                    ),
                decreases n - k,
            {
                let ghost done = views(lines@).subrange(0, k as int);
                let ghost next = views(lines@).subrange(0, k + 1);
                proof {
                    assert(next.drop_last() =~= done);
                    assert(next.last() == lines@[k as int]@);
                }
                match split_at_first(&lines[k], &cs_v) {
                    None => {
                        proof {
                            assert(views(lines@)[k as int] == lines@[k as int]@);
                            assert(parse_header_line(views(lines@)[k as int]) is None);
                            lemma_parse_header_lines_each(views(lines@));
                            assert(parse_headers(hblock@) is None);
                        }
                        return Err(ParseError::MalformedHeaderLine);
                    },
                    Some(pair) => {
                        let name = to_lower(&pair.0);
                        let value = pair.1;
                        headers.push((name, value));
                        proof {
                            assert(pair_views(headers@) =~= pair_views(
                                headers@.drop_last(),
                            ).push((name@, value@)));
                        }
                    },
                }
                k += 1;
            }
            proof {
                assert(views(lines@).subrange(0, n as int) =~= views(lines@));
                assert(parse_headers(hblock@) == Some(pair_views(headers@)));
            }
        }
        proof {
            if hblock@.len() == 0 {
                assert(pair_views(headers@) =~= Seq::<(Seq<u8>, Seq<u8>)>::empty());
                assert(parse_headers(hblock@) == Some(pair_views(headers@)));
            }
        }
        let req = Request { method, path, version, headers, body };
        proof {
            assert(parse_request(s@) == Ok::<ReqView, ParseError>(req@));
        }
        Ok(req)
    }

    /// The value of the header `name`, if the request carries it. Header
    /// names were lowered while parsing, so `name` should be lower-case.
    pub fn header(&self, name: &Vec<u8>) -> (r: Option<Vec<u8>>)
        ensures
            match r {
                Some(v) => self@.header(name@) == Some(v@),
                None => self@.header(name@) is None,
            },
    {
        crate::bytes::get_value(&self.headers, name)
    }
}

} // verus!
