use vstd::prelude::*;

verus! {

/// The bytes of `"\r\n"`: the CRLF line terminator.
pub open spec fn crlf() -> Seq<u8> {
    seq![13u8, 10u8]
}

/// Builds `"\r\n"` as a byte vector.
pub fn crlf_bytes() -> (r: Vec<u8>)
    ensures
        r@ == crlf(),
{
    let mut v: Vec<u8> = Vec::new();
    v.push(13u8);
    v.push(10u8);
    proof {
        assert(v@ =~= crlf());
    }
    v
}

/// The bytes of `"\r\n\r\n"`: the blank line that ends the header block.
pub open spec fn crlf_crlf() -> Seq<u8> {
    seq![13u8, 10u8, 13u8, 10u8]
}

/// Builds `"\r\n\r\n"` as a byte vector.
pub fn crlf_crlf_bytes() -> (r: Vec<u8>)
    ensures
        r@ == crlf_crlf(),
{
    let mut v: Vec<u8> = Vec::new();
    v.push(13u8);
    v.push(10u8);
    v.push(13u8);
    v.push(10u8);
    proof {
        assert(v@ =~= crlf_crlf());
    }
    v
}

/// The bytes of `": "`: the separator between a header name and its value.
pub open spec fn colon_space() -> Seq<u8> {
    seq![58u8, 32u8]
}

/// Builds `": "` as a byte vector.
pub fn colon_space_bytes() -> (r: Vec<u8>)
    ensures
        r@ == colon_space(),
{
    let mut v: Vec<u8> = Vec::new();
    v.push(58u8);
    v.push(32u8);
    proof {
        assert(v@ =~= colon_space());
    }
    v
}

/// The bytes of `","`: the separator between encoding tokens.
pub open spec fn comma() -> Seq<u8> {
    seq![44u8]
}

/// Builds `","` as a byte vector.
pub fn comma_bytes() -> (r: Vec<u8>)
    ensures
        r@ == comma(),
{
    let mut v: Vec<u8> = Vec::new();
    v.push(44u8);
    proof {
        assert(v@ =~= comma());
    }
    v
}

/// The bytes of `"HTTP/1.1 200 OK"`: the success status line.
pub open spec fn status_200() -> Seq<u8> {
    seq![72u8, 84u8, 84u8, 80u8, 47u8, 49u8, 46u8, 49u8, 32u8, 50u8, 48u8, 48u8, 32u8, 79u8, 75u8]
}

/// Builds `"HTTP/1.1 200 OK"` as a byte vector.
pub fn status_200_bytes() -> (r: Vec<u8>)
    ensures
        r@ == status_200(),
{
    let mut v: Vec<u8> = Vec::new();
    v.push(72u8);
    v.push(84u8);
    v.push(84u8);
    v.push(80u8);
    v.push(47u8);
    v.push(49u8);
    v.push(46u8);
    v.push(49u8);
    v.push(32u8);
    v.push(50u8);
    v.push(48u8);
    v.push(48u8);
    v.push(32u8);
    v.push(79u8);
    v.push(75u8);
    proof {
        assert(v@ =~= status_200());
    }
    v
}

/// The bytes of `"HTTP/1.1 201 Created"`: the created status line.
pub open spec fn status_201() -> Seq<u8> {
    seq![72u8, 84u8, 84u8, 80u8, 47u8, 49u8, 46u8, 49u8, 32u8, 50u8, 48u8, 49u8, 32u8, 67u8, 114u8, 101u8, 97u8, 116u8, 101u8, 100u8]
}

/// Builds `"HTTP/1.1 201 Created"` as a byte vector.
pub fn status_201_bytes() -> (r: Vec<u8>)
    ensures
        r@ == status_201(),
{
    let mut v: Vec<u8> = Vec::new();
    v.push(72u8);
    v.push(84u8);
    v.push(84u8);
    v.push(80u8);
    v.push(47u8);
    v.push(49u8);
    v.push(46u8);
    v.push(49u8);
    v.push(32u8);
    v.push(50u8);
    v.push(48u8);
    v.push(49u8);
    v.push(32u8);
    v.push(67u8);
    v.push(114u8);
    v.push(101u8);
    v.push(97u8);
    v.push(116u8);
    v.push(101u8);
    v.push(100u8);
    proof {
        assert(v@ =~= status_201());
    }
    v
}

/// The bytes of `"HTTP/1.1 404 Not Found"`: the not-found status line.
pub open spec fn status_404() -> Seq<u8> {
    seq![72u8, 84u8, 84u8, 80u8, 47u8, 49u8, 46u8, 49u8, 32u8, 52u8, 48u8, 52u8, 32u8, 78u8, 111u8, 116u8, 32u8, 70u8, 111u8, 117u8, 110u8, 100u8]
}

/// Builds `"HTTP/1.1 404 Not Found"` as a byte vector.
pub fn status_404_bytes() -> (r: Vec<u8>)
    ensures
        r@ == status_404(),
{
    let mut v: Vec<u8> = Vec::new();
    v.push(72u8);
    v.push(84u8);
    v.push(84u8);
    v.push(80u8);
    v.push(47u8);
    v.push(49u8);
    v.push(46u8);
    v.push(49u8);
    v.push(32u8);
    v.push(52u8);
    v.push(48u8);
    v.push(52u8);
    v.push(32u8);
    v.push(78u8);
    v.push(111u8);
    v.push(116u8);
    v.push(32u8);
    v.push(70u8);
    v.push(111u8);
    v.push(117u8);
    v.push(110u8);
    v.push(100u8);
    proof {
        assert(v@ =~= status_404());
    }
    v
}

/// The bytes of `"Content-Type"`: the content-type header name.
pub open spec fn content_type() -> Seq<u8> {
    seq![67u8, 111u8, 110u8, 116u8, 101u8, 110u8, 116u8, 45u8, 84u8, 121u8, 112u8, 101u8]
}

/// Builds `"Content-Type"` as a byte vector.
pub fn content_type_bytes() -> (r: Vec<u8>)
    ensures
        r@ == content_type(),
{
    let mut v: Vec<u8> = Vec::new();
    v.push(67u8);
    v.push(111u8);
    v.push(110u8);
    v.push(116u8);
    v.push(101u8);
    v.push(110u8);
    v.push(116u8);
    v.push(45u8);
    v.push(84u8);
    v.push(121u8);
    v.push(112u8);
    v.push(101u8);
    proof {
        assert(v@ =~= content_type());
    }
    v
}

/// The bytes of `"Content-Length"`: the content-length header name.
pub open spec fn content_length() -> Seq<u8> {
    seq![67u8, 111u8, 110u8, 116u8, 101u8, 110u8, 116u8, 45u8, 76u8, 101u8, 110u8, 103u8, 116u8, 104u8]
}

/// Builds `"Content-Length"` as a byte vector.
pub fn content_length_bytes() -> (r: Vec<u8>)
    ensures
        r@ == content_length(),
{
    let mut v: Vec<u8> = Vec::new();
    v.push(67u8);
    v.push(111u8);
    v.push(110u8);
    v.push(116u8);
    v.push(101u8);
    v.push(110u8);
    v.push(116u8);
    v.push(45u8);
    v.push(76u8);
    v.push(101u8);
    v.push(110u8);
    v.push(103u8);
    v.push(116u8);
    v.push(104u8);
    proof {
        assert(v@ =~= content_length());
    }
    v
}

/// The bytes of `"Content-Encoding"`: the content-encoding header name.
pub open spec fn content_encoding() -> Seq<u8> {
    seq![67u8, 111u8, 110u8, 116u8, 101u8, 110u8, 116u8, 45u8, 69u8, 110u8, 99u8, 111u8, 100u8, 105u8, 110u8, 103u8]
}

/// Builds `"Content-Encoding"` as a byte vector.
pub fn content_encoding_bytes() -> (r: Vec<u8>)
    ensures
        r@ == content_encoding(),
{
    let mut v: Vec<u8> = Vec::new();
    v.push(67u8);
    v.push(111u8);
    v.push(110u8);
    v.push(116u8);
    v.push(101u8);
    v.push(110u8);
    v.push(116u8);
    v.push(45u8);
    v.push(69u8);
    v.push(110u8);
    v.push(99u8);
    v.push(111u8);
    v.push(100u8);
    v.push(105u8);
    v.push(110u8);
    v.push(103u8);
    proof {
        assert(v@ =~= content_encoding());
    }
    v
}

/// The bytes of `"text/plain"`: the plain-text media type.
pub open spec fn text_plain() -> Seq<u8> {
    seq![116u8, 101u8, 120u8, 116u8, 47u8, 112u8, 108u8, 97u8, 105u8, 110u8]
}

/// Builds `"text/plain"` as a byte vector.
pub fn text_plain_bytes() -> (r: Vec<u8>)
    ensures
        r@ == text_plain(),
{
    let mut v: Vec<u8> = Vec::new();
    v.push(116u8);
    v.push(101u8);
    v.push(120u8);
    v.push(116u8);
    v.push(47u8);
    v.push(112u8);
    v.push(108u8);
    v.push(97u8);
    v.push(105u8);
    v.push(110u8);
    proof {
        assert(v@ =~= text_plain());
    }
    v
}

/// The bytes of `"application/octet-stream"`: the binary media type.
pub open spec fn octet_stream() -> Seq<u8> {
    seq![97u8, 112u8, 112u8, 108u8, 105u8, 99u8, 97u8, 116u8, 105u8, 111u8, 110u8, 47u8, 111u8, 99u8, 116u8, 101u8, 116u8, 45u8, 115u8, 116u8, 114u8, 101u8, 97u8, 109u8]
}

/// Builds `"application/octet-stream"` as a byte vector.
pub fn octet_stream_bytes() -> (r: Vec<u8>)
    ensures
        r@ == octet_stream(),
{
    let mut v: Vec<u8> = Vec::new();
    v.push(97u8);
    v.push(112u8);
    v.push(112u8);
    v.push(108u8);
    v.push(105u8);
    v.push(99u8);
    v.push(97u8);
    v.push(116u8);
    v.push(105u8);
    v.push(111u8);
    v.push(110u8);
    v.push(47u8);
    v.push(111u8);
    v.push(99u8);
    v.push(116u8);
    v.push(101u8);
    v.push(116u8);
    v.push(45u8);
    v.push(115u8);
    v.push(116u8);
    v.push(114u8);
    v.push(101u8);
    v.push(97u8);
    v.push(109u8);
    proof {
        assert(v@ =~= octet_stream());
    }
    v
}

/// The bytes of `"gzip"`: the gzip encoding token.
pub open spec fn gzip() -> Seq<u8> {
    seq![103u8, 122u8, 105u8, 112u8]
}

/// Builds `"gzip"` as a byte vector.
pub fn gzip_bytes() -> (r: Vec<u8>)
    ensures
        r@ == gzip(),
{
    let mut v: Vec<u8> = Vec::new();
    v.push(103u8);
    v.push(122u8);
    v.push(105u8);
    v.push(112u8);
    proof {
        assert(v@ =~= gzip());
    }
    v
}

/// The bytes of `"user-agent"`: the lower-cased user-agent header name.
pub open spec fn user_agent() -> Seq<u8> {
    seq![117u8, 115u8, 101u8, 114u8, 45u8, 97u8, 103u8, 101u8, 110u8, 116u8]
}

/// Builds `"user-agent"` as a byte vector.
pub fn user_agent_bytes() -> (r: Vec<u8>)
    ensures
        r@ == user_agent(),
{
    let mut v: Vec<u8> = Vec::new();
    v.push(117u8);
    v.push(115u8);
    v.push(101u8);
    v.push(114u8);
    v.push(45u8);
    v.push(97u8);
    v.push(103u8);
    v.push(101u8);
    v.push(110u8);
    v.push(116u8);
    proof {
        assert(v@ =~= user_agent());
    }
    v
}

/// The bytes of `"accept-encoding"`: the lower-cased accept-encoding header name.
pub open spec fn accept_encoding() -> Seq<u8> {
    seq![97u8, 99u8, 99u8, 101u8, 112u8, 116u8, 45u8, 101u8, 110u8, 99u8, 111u8, 100u8, 105u8, 110u8, 103u8]
}

/// Builds `"accept-encoding"` as a byte vector.
pub fn accept_encoding_bytes() -> (r: Vec<u8>)
    ensures
        r@ == accept_encoding(),
{
    let mut v: Vec<u8> = Vec::new();
    v.push(97u8);
    v.push(99u8);
    v.push(99u8);
    v.push(101u8);
    v.push(112u8);
    v.push(116u8);
    v.push(45u8);
    v.push(101u8);
    v.push(110u8);
    v.push(99u8);
    v.push(111u8);
    v.push(100u8);
    v.push(105u8);
    v.push(110u8);
    v.push(103u8);
    proof {
        assert(v@ =~= accept_encoding());
    }
    v
}

/// The bytes of `"/"`: the root route.
pub open spec fn root_path() -> Seq<u8> {
    seq![47u8]
}

/// Builds `"/"` as a byte vector.
pub fn root_path_bytes() -> (r: Vec<u8>)
    ensures
        r@ == root_path(),
{
    let mut v: Vec<u8> = Vec::new();
    v.push(47u8);
    proof {
        assert(v@ =~= root_path());
    }
    v
}

/// The bytes of `"/user-agent"`: the user-agent route.
pub open spec fn user_agent_path() -> Seq<u8> {
    seq![47u8, 117u8, 115u8, 101u8, 114u8, 45u8, 97u8, 103u8, 101u8, 110u8, 116u8]
}

/// Builds `"/user-agent"` as a byte vector.
pub fn user_agent_path_bytes() -> (r: Vec<u8>)
    ensures
        r@ == user_agent_path(),
{
    let mut v: Vec<u8> = Vec::new();
    v.push(47u8);
    v.push(117u8);
    v.push(115u8);
    v.push(101u8);
    v.push(114u8);
    v.push(45u8);
    v.push(97u8);
    v.push(103u8);
    v.push(101u8);
    v.push(110u8);
    v.push(116u8);
    proof {
        assert(v@ =~= user_agent_path());
    }
    v
}

/// The bytes of `"/echo/"`: the echo route prefix.
pub open spec fn echo_prefix() -> Seq<u8> {
    seq![47u8, 101u8, 99u8, 104u8, 111u8, 47u8]
}

/// Builds `"/echo/"` as a byte vector.
pub fn echo_prefix_bytes() -> (r: Vec<u8>)
    ensures
        r@ == echo_prefix(),
{
    let mut v: Vec<u8> = Vec::new();
    v.push(47u8);
    v.push(101u8);
    v.push(99u8);
    v.push(104u8);
    v.push(111u8);
    v.push(47u8);
    proof {
        assert(v@ =~= echo_prefix());
    }
    v
}

/// The bytes of `"/files/"`: the files route prefix.
pub open spec fn files_prefix() -> Seq<u8> {
    seq![47u8, 102u8, 105u8, 108u8, 101u8, 115u8, 47u8]
}

/// Builds `"/files/"` as a byte vector.
pub fn files_prefix_bytes() -> (r: Vec<u8>)
    ensures
        r@ == files_prefix(),
{
    let mut v: Vec<u8> = Vec::new();
    v.push(47u8);
    v.push(102u8);
    v.push(105u8);
    v.push(108u8);
    v.push(101u8);
    v.push(115u8);
    v.push(47u8);
    proof {
        assert(v@ =~= files_prefix());
    }
    v
}

/// The bytes of `"GET"`: the GET method.
pub open spec fn method_get() -> Seq<u8> {
    seq![71u8, 69u8, 84u8]
}

/// Builds `"GET"` as a byte vector.
pub fn method_get_bytes() -> (r: Vec<u8>)
    ensures
        r@ == method_get(),
{
    let mut v: Vec<u8> = Vec::new();
    v.push(71u8);
    v.push(69u8);
    v.push(84u8);
    proof {
        assert(v@ =~= method_get());
    }
    v
}

/// The bytes of `"POST"`: the POST method.
pub open spec fn method_post() -> Seq<u8> {
    seq![80u8, 79u8, 83u8, 84u8]
}

/// Builds `"POST"` as a byte vector.
pub fn method_post_bytes() -> (r: Vec<u8>)
    ensures
        r@ == method_post(),
{
    let mut v: Vec<u8> = Vec::new();
    v.push(80u8);
    v.push(79u8);
    v.push(83u8);
    v.push(84u8);
    proof {
        assert(v@ =~= method_post());
    }
    v
}

} // verus!
