use vstd::prelude::*;
use vstd::utf8::{decode_utf8, valid_utf8};

verus! {

/// A request head as the `httparse` parser leaves it: the request line's
/// parts, each absent until parsed, and the parsed header lines with their
/// values still as bytes.
pub struct RawHead {
    pub method: Option<String>,
    pub path: Option<String>,
    pub version: Option<u8>,
    pub headers: Vec<(String, Vec<u8>)>,
}

/// The mathematical value of a [`RawHead`].
pub struct RawHeadView {
    pub method: Option<Seq<char>>,
    pub path: Option<Seq<char>>,
    pub version: Option<u8>,
    pub headers: Seq<(Seq<char>, Seq<u8>)>,
}

/// What one `httparse` pass over a buffer gives.
pub enum RawParse {
    /// The head is complete; it ends at the given byte offset.
    Complete(usize, RawHead),
    /// The buffer ends before the head does.
    Partial,
    /// The head has more header lines than there were slots for.
    TooManyHeaders,
    /// The bytes are not an HTTP request head; the parser's description.
    Invalid(String),
}

/// The mathematical value of a [`RawParse`].
pub enum RawParseView {
    Complete(nat, RawHeadView),
    Partial,
    TooManyHeaders,
    Invalid(Seq<char>),
}

pub open spec fn option_string_view(o: Option<String>) -> Option<Seq<char>> {
    match o {
        Some(s) => Some(s@),
        None => None,
    }
}

impl View for RawHead {
    type V = RawHeadView;

    open spec fn view(&self) -> RawHeadView {
        RawHeadView {
            method: option_string_view(self.method),
            path: option_string_view(self.path),
            version: self.version,
            headers: self.headers@.map_values(|h: (String, Vec<u8>)| (h.0@, h.1@)),
        }
    }
}

impl View for RawParse {
    type V = RawParseView;

    open spec fn view(&self) -> RawParseView {
        match self {
            RawParse::Complete(n, head) => RawParseView::Complete(*n as nat, head@),
            RawParse::Partial => RawParseView::Partial,
            RawParse::TooManyHeaders => RawParseView::TooManyHeaders,
            RawParse::Invalid(msg) => RawParseView::Invalid(msg@),
        }
    }
}

/// What `httparse::Request::parse` makes of `buf` when it is given
/// `header_slots` header slots.
pub uninterp spec fn httparse_request(buf: Seq<u8>, header_slots: nat) -> RawParseView;

/// A pass over `buf` gives `r` whatever the slot count, except that with
/// fewer slots than `n` (and than `buf` has bytes) it may find too many
/// headers.
pub open spec fn same_at_every_slot_count(buf: Seq<u8>, n: nat, r: RawParseView) -> bool {
    forall|x: nat|
        #![trigger httparse_request(buf, x)]
        httparse_request(buf, x) == r || (x < n && x < buf.len() && httparse_request(buf, x) is TooManyHeaders)
}

/// Every prefix of `buf`, with any slot count, is either unfinished or
/// parses as `buf` does (and reports too many headers only with fewer slots
/// than it has bytes).
pub open spec fn prefixes_unfinished_or_same(buf: Seq<u8>) -> bool {
    forall|p: Seq<u8>, x: nat|
        #![trigger httparse_request(p, x), p.is_prefix_of(buf)]
        p.is_prefix_of(buf) ==> httparse_request(p, x) is Partial || (httparse_request(p, x)
            == httparse_request(buf, x) && (httparse_request(p, x) is TooManyHeaders ==> x < p.len()))
}

/// Bytes appended to `buf` do not change what a pass gives, with any slot
/// count.
pub open spec fn extensions_same(buf: Seq<u8>) -> bool {
    forall|extra: Seq<u8>, x: nat|
        #![trigger httparse_request(buf + extra, x)]
        httparse_request(buf + extra, x) == httparse_request(buf, x)
}

/// Runs `httparse::Request::parse` on `buf` with `header_slots` empty header
/// slots and copies out what it parsed.
///
/// Trusted: the result is the parser's (named `httparse_request`), plus three
/// facts that the parser's source shows: `TooManyHeaders` comes only after
/// every slot was filled and one more header line was read, each line taking
/// at least one byte of `buf`, so `header_slots < buf.len()`; a complete head
/// has its method, path and version set; and it has at most `header_slots`
/// headers (the header slice is shrunk to the parsed ones).
///
/// Three more facts that the source shows, since the parser reads the bytes
/// front to back, once, and a slot is only asked for when a complete header
/// line has been read:
/// - unless it found too many headers, the same pass with any other slot
///   count gives the same result, or too many headers when there are fewer
///   slots than the header lines it read;
/// - unless it found too many headers or an invalid byte, a prefix of `buf`
///   gives the same as `buf` or is unfinished: on a prefix the parser takes
///   the same steps until the prefix ends, and then reports it unfinished;
/// - a complete head does not look at the bytes after it.
#[verifier::external_body]
pub(crate) fn parse_head(buf: &[u8], header_slots: usize) -> (res: RawParse)
    ensures
        res@ == httparse_request(buf@, header_slots as nat),
        res is TooManyHeaders ==> header_slots < buf@.len(),
        res matches RawParse::Complete(_, head) ==> {
            &&& head.method is Some
            &&& head.path is Some
            &&& head.version is Some
            &&& head.headers@.len() <= header_slots
        },
        !(res is TooManyHeaders) ==> same_at_every_slot_count(buf@, header_slots as nat, res@),
        !(res is TooManyHeaders) && !(res is Invalid) ==> prefixes_unfinished_or_same(buf@),
        res is Complete ==> extensions_same(buf@),
{
    let mut slots = vec![httparse::EMPTY_HEADER; header_slots];
    let mut req = httparse::Request::new(&mut slots);
    match req.parse(buf) {
        Ok(httparse::Status::Complete(n)) => RawParse::Complete(n, RawHead {
            method: req.method.map(String::from),
            path: req.path.map(String::from),
            version: req.version,
            headers: req.headers.iter().map(|h| (String::from(h.name), h.value.to_vec())).collect(),
        }),
        Ok(httparse::Status::Partial) => RawParse::Partial,
        Err(httparse::Error::TooManyHeaders) => RawParse::TooManyHeaders,
        Err(e) => RawParse::Invalid(e.to_string()),
    }
}

/// `String::from_utf8`: `Some` exactly when `bytes` is valid UTF-8, and then
/// the string holds the characters those bytes encode.
#[verifier::external_body]
pub(crate) fn string_from_utf8(bytes: Vec<u8>) -> (res: Option<String>)
    ensures
        res is Some <==> valid_utf8(bytes@),
        res matches Some(s) ==> s@ == decode_utf8(bytes@),
{
    String::from_utf8(bytes).ok()
}

} // verus!
