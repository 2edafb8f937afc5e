use vstd::prelude::*;
use vstd::utf8::encode_utf8;
use crate::decimal::{all_digits, decimal, digits_value, lemma_decimal_round_trip, push_decimal};
use crate::message::{Request, Response, ResponseView};

verus! {

/// The head of a rendered response whose body is `body_len` bytes long:
/// status line, `Content-Type` with the UTF-8 charset, `Content-Length`, and
/// the blank line.
pub open spec fn response_head(content_type: Seq<char>, body_len: nat) -> Seq<char> {
    "HTTP/1.1 200 OK\r\nContent-Type: "@ + content_type + "; charset=UTF-8\r\nContent-Length: "@
        + decimal(body_len) + "\r\n\r\n"@
}

/// The byte length of the body on the wire.
pub open spec fn body_byte_len(r: ResponseView) -> nat {
    encode_utf8(r.body).len()
}

/// The full text sent for a response: its head, then the body.
pub open spec fn response_text(r: ResponseView) -> Seq<char> {
    response_head(r.content_type, body_byte_len(r)) + r.body
}

/// Renders a response as an HTTP/1.1 `200 OK` message whose
/// `Content-Length` is the byte length of the body.
pub fn stringify_response(response: Response) -> (text: String)
    requires
        body_byte_len(response@) <= usize::MAX,
    ensures
        text@ == response_text(response@),
        text@ == "HTTP/1.1 200 OK\r\nContent-Type: "@ + response.content_type@
            + "; charset=UTF-8\r\nContent-Length: "@ + decimal(encode_utf8(response.body@).len())
            + "\r\n\r\n"@ + response.body@,
{
    let body_len = response.body.as_str().len();
    let mut text = "HTTP/1.1 200 OK\r\nContent-Type: ".to_owned();
    text.append(response.content_type.as_str());
    text.append("; charset=UTF-8\r\nContent-Length: ");
    push_decimal(&mut text, body_len as u64);
    text.append("\r\n\r\n");
    text.append(response.body.as_str());
    text
}

/// The answer given when no handler was installed: `text/plain`
/// `"no handler"`, whatever the request.
pub fn no_handler_response(request: Request) -> (response: Response)
    ensures
        response.content_type@ == "text/plain"@,
        response.body@ == "no handler"@,
{
    Response { content_type: "text/plain".to_owned(), body: "no handler".to_owned() }
}

/// The rendered text, spelled out: the status line, `Content-Type` with the
/// handler's content type and the UTF-8 charset, then `Content-Length:`
/// followed by decimal digits that read back as the full UTF-8 byte length of
/// the body, the blank line, and the body itself, which ends the text.
pub proof fn lemma_response_text_shape(r: ResponseView)
    ensures
        response_text(r) == "HTTP/1.1 200 OK\r\nContent-Type: "@ + r.content_type
            + "; charset=UTF-8\r\nContent-Length: "@ + decimal(encode_utf8(r.body).len())
            + "\r\n\r\n"@ + r.body,
        all_digits(decimal(encode_utf8(r.body).len())),
        digits_value(decimal(encode_utf8(r.body).len())) == encode_utf8(r.body).len(),
        response_text(r).skip(response_text(r).len() - r.body.len()) == r.body,
{
    lemma_decimal_round_trip(encode_utf8(r.body).len());
    let t = response_text(r);
    let head = response_head(r.content_type, body_byte_len(r));
    assert(t.skip(t.len() - r.body.len()) =~= r.body);
}

/// UTF-8 encoding distributes over concatenation.
pub proof fn lemma_encode_utf8_concat(a: Seq<char>, b: Seq<char>)
    ensures
        encode_utf8(a + b) == encode_utf8(a) + encode_utf8(b),
    decreases a.len(),
{
    if a.len() == 0 {
        assert(a + b =~= b);
        assert(encode_utf8(a) =~= Seq::<u8>::empty());
        assert(encode_utf8(a) + encode_utf8(b) =~= encode_utf8(b));
    } else {
        lemma_encode_utf8_concat(a.drop_first(), b);
        assert((a + b).drop_first() =~= a.drop_first() + b);
        assert((a + b)[0] == a[0]);
        let e0 = vstd::utf8::encode_scalar(a[0] as u32);
        assert(encode_utf8(a + b) == e0 + encode_utf8((a + b).drop_first()));
        assert(encode_utf8(a) == e0 + encode_utf8(a.drop_first()));
        assert(e0 + (encode_utf8(a.drop_first()) + encode_utf8(b)) =~= (e0 + encode_utf8(
            a.drop_first(),
        )) + encode_utf8(b));
    }
}

/// Message framing: the bytes sent for a response are the head's bytes
/// followed by the body's bytes, and the number the head announces as
/// `Content-Length` (read back as decimal digits) is exactly the number of
/// bytes that follow the head.
pub proof fn lemma_response_framing(r: ResponseView)
    ensures
        encode_utf8(response_text(r)) == encode_utf8(response_head(r.content_type, body_byte_len(r)))
            + encode_utf8(r.body),
        encode_utf8(response_text(r)).len() - encode_utf8(
            response_head(r.content_type, body_byte_len(r)),
        ).len() == body_byte_len(r),
        digits_value(decimal(body_byte_len(r))) == body_byte_len(r),
{
    lemma_encode_utf8_concat(response_head(r.content_type, body_byte_len(r)), r.body);
    lemma_decimal_round_trip(body_byte_len(r));
}

} // verus!
