use vstd::prelude::*;
use vstd::utf8::{decode_utf8, decode_utf8_encode_utf8, encode_utf8, valid_utf8};
use crate::message::{Header, HeaderView, Request, RequestView};
use crate::raw::{
    extensions_same, httparse_request, parse_head, prefixes_unfinished_or_same, same_at_every_slot_count,
    string_from_utf8, RawHead, RawHeadView, RawParse, RawParseView,
};

verus! {

/// Why a request head could not be turned into a [`Request`].
pub enum RequestError {
    /// The parser rejected the bytes; its description of the fault.
    Malformed(String),
    /// The value of the header at this index is not valid UTF-8.
    HeaderValueNotUtf8(usize),
}

/// The outcome of parsing a buffer.
pub enum ParseResult {
    /// The head is complete.
    Complete(Request),
    /// More bytes are needed; the header slot count to parse with next time.
    Partial(usize),
    /// The head is unusable.
    Failed(RequestError),
}

/// The mathematical value of a [`RequestError`].
pub enum RequestErrorView {
    Malformed(Seq<char>),
    HeaderValueNotUtf8(nat),
}

/// The mathematical value of a [`ParseResult`].
pub enum ParseResultView {
    Complete(RequestView),
    Partial(nat),
    Failed(RequestErrorView),
}

impl View for RequestError {
    type V = RequestErrorView;

    open spec fn view(&self) -> RequestErrorView {
        match self {
            RequestError::Malformed(msg) => RequestErrorView::Malformed(msg@),
            RequestError::HeaderValueNotUtf8(i) => RequestErrorView::HeaderValueNotUtf8(*i as nat),
        }
    }
}

impl View for ParseResult {
    type V = ParseResultView;

    open spec fn view(&self) -> ParseResultView {
        match self {
            ParseResult::Complete(r) => ParseResultView::Complete(r@),
            ParseResult::Partial(n) => ParseResultView::Partial(*n as nat),
            ParseResult::Failed(e) => ParseResultView::Failed(e@),
        }
    }
}

/// A parsed header line with its value decoded as UTF-8.
pub open spec fn header_from_raw(h: (Seq<char>, Seq<u8>)) -> HeaderView {
    HeaderView { name: h.0, value: decode_utf8(h.1) }
}

/// The values of the first `k` headers are valid UTF-8.
pub open spec fn values_valid_before(headers: Seq<(Seq<char>, Seq<u8>)>, k: int) -> bool {
    forall|i: int| 0 <= i < k ==> valid_utf8(#[trigger] headers[i].1)
}

/// `i` is the first header whose value is not valid UTF-8.
pub open spec fn is_first_invalid(headers: Seq<(Seq<char>, Seq<u8>)>, i: int) -> bool {
    &&& 0 <= i < headers.len()
    &&& !valid_utf8(headers[i].1)
    &&& values_valid_before(headers, i)
}

/// The request that a complete raw head stands for.
pub open spec fn request_from_raw(head: RawHeadView) -> RequestView {
    RequestView {
        version: head.version.unwrap(),
        method: head.method.unwrap(),
        path: head.path.unwrap(),
        headers: head.headers.map_values(|h: (Seq<char>, Seq<u8>)| header_from_raw(h)),
    }
}

/// Converting a complete raw head: the request, or the first header whose
/// value is not UTF-8.
pub open spec fn convert_outcome(head: RawHeadView) -> ParseResultView {
    if values_valid_before(head.headers, head.headers.len() as int) {
        ParseResultView::Complete(request_from_raw(head))
    } else {
        ParseResultView::Failed(
            RequestErrorView::HeaderValueNotUtf8(
                (choose|i: int| is_first_invalid(head.headers, i)) as nat,
            ),
        )
    }
}

/// The header slot count at which parsing `buf` settles when it starts with
/// `n` slots: while the parser reports too many headers, ten more slots.
pub open spec fn settled_slots(buf: Seq<u8>, n: nat) -> nat
    decreases buf.len() + 10 - n,
{
    if n < buf.len() && httparse_request(buf, n) is TooManyHeaders {
        settled_slots(buf, n + 10)
    } else {
        n
    }
}

/// What one parser pass with `n` header slots decides: the outcome, or
/// `None` when the head has more header lines than slots and the pass must be
/// repeated with more.
pub open spec fn pass_outcome(raw: RawParseView, n: nat) -> Option<ParseResultView> {
    match raw {
        RawParseView::Complete(_, head) => Some(convert_outcome(head)),
        RawParseView::Partial => Some(ParseResultView::Partial(n)),
        RawParseView::Invalid(msg) => Some(ParseResultView::Failed(RequestErrorView::Malformed(msg))),
        RawParseView::TooManyHeaders => None,
    }
}

/// What parsing `buf` with `n` header slots yields.
pub open spec fn parse_outcome(buf: Seq<u8>, n: nat) -> ParseResultView {
    let m = settled_slots(buf, n);
    match pass_outcome(httparse_request(buf, m), m) {
        Some(r) => r,
        // Not reached: the parser reports too many headers only for a buffer
        // longer than the slot count, and then the slot count grows.
        None => ParseResultView::Partial(m),
    }
}

/// Two outcomes agree, except perhaps for the slot count of `Partial`.
pub open spec fn same_outcome_kind(a: ParseResultView, b: ParseResultView) -> bool {
    (a is Partial && b is Partial) || a == b
}

/// The outcome comes from a complete request head (whether or not its
/// header values are UTF-8).
pub open spec fn head_complete(r: ParseResultView) -> bool {
    r is Complete || r matches ParseResultView::Failed(RequestErrorView::HeaderValueNotUtf8(_))
}

/// The outcome is the parser's rejection of the bytes.
pub open spec fn malformed(r: ParseResultView) -> bool {
    r matches ParseResultView::Failed(RequestErrorView::Malformed(_))
}

/// `bytes` hold a complete request head for `rv`: every prefix of them,
/// with any slot count, is unfinished or gives `rv`, and so does every
/// continuation of them.
pub open spec fn settles_on(bytes: Seq<u8>, rv: RequestView) -> bool {
    &&& forall|p: Seq<u8>, h: nat|
        p.is_prefix_of(bytes) ==> #[trigger] parse_outcome(p, h) is Partial || parse_outcome(p, h)
            == ParseResultView::Complete(rv)
    &&& forall|extra: Seq<u8>, h: nat| #[trigger] parse_outcome(bytes + extra, h) == ParseResultView::Complete(rv)
}

/// Converting a complete head keeps the parser's request line as it is and
/// the headers in order: a request comes out exactly when every header value
/// is UTF-8, with the head's version, method and path unchanged, the same
/// number of headers, each with its name unchanged and a value whose UTF-8
/// encoding is the parsed bytes; otherwise the error names the first header
/// whose value is not UTF-8.
pub proof fn lemma_convert_keeps_head(head: RawHeadView)
    requires
        head.method is Some,
        head.path is Some,
        head.version is Some,
    ensures
        (forall|i: int| 0 <= i < head.headers.len() ==> valid_utf8(#[trigger] head.headers[i].1)) ==> {
            &&& convert_outcome(head) is Complete
            &&& convert_outcome(head)->Complete_0.version == head.version.unwrap()
            &&& convert_outcome(head)->Complete_0.method == head.method.unwrap()
            &&& convert_outcome(head)->Complete_0.path == head.path.unwrap()
            &&& convert_outcome(head)->Complete_0.headers.len() == head.headers.len()
            &&& forall|i: int| 0 <= i < head.headers.len() ==> {
                &&& (#[trigger] convert_outcome(head)->Complete_0.headers[i]).name == head.headers[i].0
                &&& encode_utf8(convert_outcome(head)->Complete_0.headers[i].value) == head.headers[i].1
            }
        },
        !(forall|i: int| 0 <= i < head.headers.len() ==> valid_utf8(#[trigger] head.headers[i].1)) ==> {
            &&& convert_outcome(head) matches ParseResultView::Failed(RequestErrorView::HeaderValueNotUtf8(k))
            &&& k < head.headers.len()
            &&& !valid_utf8(head.headers[k as int].1)
            &&& forall|j: int| 0 <= j < k ==> valid_utf8(#[trigger] head.headers[j].1)
        },
{
    if forall|i: int| 0 <= i < head.headers.len() ==> valid_utf8(#[trigger] head.headers[i].1) {
        assert(values_valid_before(head.headers, head.headers.len() as int));
        assert forall|i: int| 0 <= i < head.headers.len() implies encode_utf8(
            (#[trigger] convert_outcome(head)->Complete_0.headers[i]).value,
        ) == head.headers[i].1 by {
            assert(valid_utf8(head.headers[i].1));
            decode_utf8_encode_utf8(head.headers[i].1);
        }
    } else {
        let i = choose|i: int| 0 <= i < head.headers.len() && !valid_utf8(head.headers[i].1);
        lemma_first_invalid_exists(head.headers, i);
    }
}

/// If some header value is not UTF-8, there is a first such header.
proof fn lemma_first_invalid_exists(headers: Seq<(Seq<char>, Seq<u8>)>, i: int)
    requires
        0 <= i < headers.len(),
        !valid_utf8(headers[i].1),
    ensures
        exists|k: int| is_first_invalid(headers, k),
    decreases i,
{
    if values_valid_before(headers, i) {
        assert(is_first_invalid(headers, i));
    } else {
        let j = choose|j: int| 0 <= j < i && !valid_utf8(headers[j].1);
        lemma_first_invalid_exists(headers, j);
    }
}

/// The slot count only grows, in steps of ten.
pub proof fn lemma_settled_slots_grow(buf: Seq<u8>, n: nat)
    ensures
        settled_slots(buf, n) >= n,
        (settled_slots(buf, n) - n) % 10 == 0,
    decreases buf.len() + 10 - n,
{
    if n < buf.len() && httparse_request(buf, n) is TooManyHeaders {
        lemma_settled_slots_grow(buf, n + 10);
    }
}

/// Parsing the same bytes again, starting from the slot count that a parse
/// settled on, settles on that same count and so gives the same outcome.
pub proof fn lemma_settled_slots_idempotent(buf: Seq<u8>, n: nat)
    ensures
        settled_slots(buf, settled_slots(buf, n)) == settled_slots(buf, n),
        parse_outcome(buf, settled_slots(buf, n)) == parse_outcome(buf, n),
    decreases buf.len() + 10 - n,
{
    if n < buf.len() && httparse_request(buf, n) is TooManyHeaders {
        lemma_settled_slots_idempotent(buf, n + 10);
    }
}

/// When every slot count gives `r` or too many headers, parsing from any
/// slot count settles on a pass that gives `r`.
proof fn lemma_settles_on_pass(buf: Seq<u8>, m: nat, r: RawParseView, h: nat)
    requires
        same_at_every_slot_count(buf, m, r),
        !(r is TooManyHeaders),
    ensures
        httparse_request(buf, settled_slots(buf, h)) == r,
    decreases buf.len() + 10 - h,
{
    assert(httparse_request(buf, h) == r || (h < m && h < buf.len() && httparse_request(buf, h) is TooManyHeaders));
    if h < buf.len() && httparse_request(buf, h) is TooManyHeaders {
        lemma_settles_on_pass(buf, m, r, h + 10);
    }
}

/// A prefix of a buffer whose pass is not rejected nor short of slots
/// parses, from any slot count, as unfinished or as the buffer does.
proof fn lemma_prefix_outcome(buf: Seq<u8>, m: nat, r: RawParseView, p: Seq<u8>, h: nat)
    requires
        same_at_every_slot_count(buf, m, r),
        prefixes_unfinished_or_same(buf),
        !(r is TooManyHeaders),
        !(r is Invalid),
        p.is_prefix_of(buf),
    ensures
        parse_outcome(p, h) is Partial || parse_outcome(p, h) == pass_outcome(r, m).unwrap(),
    decreases p.len() + 10 - h,
{
    assert(httparse_request(buf, h) == r || (h < m && h < buf.len() && httparse_request(buf, h) is TooManyHeaders));
    assert(httparse_request(p, h) is Partial || (httparse_request(p, h) == httparse_request(buf, h) && (
    httparse_request(p, h) is TooManyHeaders ==> h < p.len())));
    if h < p.len() && httparse_request(p, h) is TooManyHeaders {
        lemma_prefix_outcome(buf, m, r, p, h + 10);
    }
}

/// Bytes appended to a buffer whose head is complete do not change what
/// parsing it yields, from any slot count.
proof fn lemma_extension_outcome(buf: Seq<u8>, m: nat, r: RawParseView, extra: Seq<u8>, h: nat)
    requires
        same_at_every_slot_count(buf, m, r),
        extensions_same(buf),
        r is Complete,
    ensures
        parse_outcome(buf + extra, h) == parse_outcome(buf, h),
    decreases buf.len() + 10 - h,
{
    assert(httparse_request(buf + extra, h) == httparse_request(buf, h));
    assert(httparse_request(buf, h) == r || (h < m && h < buf.len() && httparse_request(buf, h) is TooManyHeaders));
    assert((buf + extra).len() >= buf.len());
    if h < buf.len() && httparse_request(buf, h) is TooManyHeaders {
        lemma_extension_outcome(buf, m, r, extra, h + 10);
    }
}

/// The laws of parsing `buf`, given its final pass `r` at `m` slots.
proof fn lemma_final_pass(buf: Seq<u8>, m: nat, r: RawParseView)
    requires
        httparse_request(buf, m) == r,
        same_at_every_slot_count(buf, m, r),
        !(r is TooManyHeaders),
        !(r is Invalid) ==> prefixes_unfinished_or_same(buf),
        r is Complete ==> extensions_same(buf),
    ensures
        forall|h: nat| same_outcome_kind(#[trigger] parse_outcome(buf, h), pass_outcome(r, m).unwrap()),
        !malformed(pass_outcome(r, m).unwrap()) ==> forall|p: Seq<u8>, h: nat|
            p.is_prefix_of(buf) ==> #[trigger] parse_outcome(p, h) is Partial || parse_outcome(p, h)
                == pass_outcome(r, m).unwrap(),
        head_complete(pass_outcome(r, m).unwrap()) ==> forall|extra: Seq<u8>, h: nat|
            #[trigger] parse_outcome(buf + extra, h) == pass_outcome(r, m).unwrap(),
{
    assert forall|h: nat| same_outcome_kind(#[trigger] parse_outcome(buf, h), pass_outcome(r, m).unwrap()) by {
        lemma_settles_on_pass(buf, m, r, h);
    }
    if !malformed(pass_outcome(r, m).unwrap()) {
        assert forall|p: Seq<u8>, h: nat| p.is_prefix_of(buf) implies #[trigger] parse_outcome(p, h) is Partial
            || parse_outcome(p, h) == pass_outcome(r, m).unwrap() by {
            lemma_prefix_outcome(buf, m, r, p, h);
        }
    }
    if head_complete(pass_outcome(r, m).unwrap()) {
        assert forall|extra: Seq<u8>, h: nat| #[trigger] parse_outcome(buf + extra, h) == pass_outcome(r, m).unwrap() by {
            lemma_extension_outcome(buf, m, r, extra, h);
            lemma_settles_on_pass(buf, m, r, h);
        }
    }
}

proof fn lemma_first_invalid_unique(headers: Seq<(Seq<char>, Seq<u8>)>, i: int, j: int)
    requires
        is_first_invalid(headers, i),
        is_first_invalid(headers, j),
    ensures
        i == j,
{
    if i < j {
        assert(valid_utf8(headers[i].1));
    } else if j < i {
        assert(valid_utf8(headers[j].1));
    }
}

/// Turns a complete raw head into a [`Request`], decoding each header value
/// as UTF-8; fails at the first value that is not (an error the server turns
/// into a panic with the message "parse header value").
pub fn convert_request(head: RawHead) -> (res: Result<Request, RequestError>)
    requires
        head.method is Some,
        head.path is Some,
        head.version is Some,
    ensures
        match res {
            Ok(r) => convert_outcome(head@) == ParseResultView::Complete(r@),
            Err(e) => convert_outcome(head@) == ParseResultView::Failed(e@),
        },
        res matches Ok(r) ==> {
            &&& r.version == head.version.unwrap()
            &&& r.method@ == head.method.unwrap()@
            &&& r.path@ == head.path.unwrap()@
            &&& r.headers@.len() == head.headers@.len()
            &&& forall|i: int| 0 <= i < r.headers@.len() ==> {
                &&& (#[trigger] r.headers@[i]).name@ == head.headers@[i].0@
                &&& encode_utf8(r.headers@[i].value@) == head.headers@[i].1@
            }
        },
        res matches Err(RequestError::HeaderValueNotUtf8(i)) ==> {
            &&& i < head.headers@.len()
            &&& !valid_utf8(head.headers@[i as int].1@)
            &&& forall|j: int| 0 <= j < i ==> valid_utf8(#[trigger] head.headers@[j].1@)
        },
        !(res matches Err(RequestError::Malformed(_))),
{
    let ghost raw = head@;
    let ghost hs = head.headers@;
    proof {
        assert forall|k: int| 0 <= k < hs.len() implies #[trigger] raw.headers[k] == (hs[k].0@, hs[k].1@) by {}
        assert(raw.headers.len() == hs.len());
    }
    let mut headers: Vec<Header> = Vec::new();
    let mut i: usize = 0;
    while i < head.headers.len()
        invariant
            raw == head@,
            hs == head.headers@,
            forall|k: int| 0 <= k < hs.len() ==> #[trigger] raw.headers[k] == (hs[k].0@, hs[k].1@),
            raw.headers.len() == hs.len(),
            i <= head.headers.len(),
            headers@.len() == i,
            forall|j: int| 0 <= j < i ==> (#[trigger] headers@[j])@ == header_from_raw(raw.headers[j]),
            values_valid_before(raw.headers, i as int),
        decreases head.headers.len() - i,
    {
        let name = head.headers[i].0.clone();
        let bytes = head.headers[i].1.clone();
        assert(bytes@ =~= head.headers@[i as int].1@);
        match string_from_utf8(bytes) {
            Some(value) => {
                headers.push(Header { name, value });
            },
            None => {
                proof {
                    assert(is_first_invalid(raw.headers, i as int));
                    assert(!values_valid_before(raw.headers, raw.headers.len() as int));
                    let c = choose|k: int| is_first_invalid(raw.headers, k);
                    lemma_first_invalid_unique(raw.headers, c, i as int);
                    assert(raw.headers[i as int] == (hs[i as int].0@, hs[i as int].1@));
                    assert forall|j: int| 0 <= j < i implies valid_utf8(#[trigger] head.headers@[j].1@) by {
                        assert(raw.headers[j] == (hs[j].0@, hs[j].1@));
                        assert(valid_utf8(raw.headers[j].1));
                    }
                }
                return Err(RequestError::HeaderValueNotUtf8(i));
            },
        }
        i = i + 1;
    }
    let ghost method = head.method.unwrap()@;
    let ghost path = head.path.unwrap()@;
    assert(raw.method == Some(method));
    assert(raw.path == Some(path));
    let request = Request {
        version: head.version.unwrap(),
        method: head.method.unwrap(),
        path: head.path.unwrap(),
        headers,
    };
    assert(request@.headers =~= raw.headers.map_values(
        |h: (Seq<char>, Seq<u8>)| header_from_raw(h),
    ));
    proof {
        assert forall|k: int| 0 <= k < raw.headers.len() implies valid_utf8(#[trigger] raw.headers[k].1) by {}
        lemma_convert_keeps_head(raw);
        assert forall|k: int| 0 <= k < request.headers@.len() implies {
            &&& (#[trigger] request.headers@[k]).name@ == hs[k].0@
            &&& encode_utf8(request.headers@[k].value@) == hs[k].1@
        } by {
            assert(request@.headers[k] == request.headers@[k]@);
            assert(convert_outcome(raw)->Complete_0.headers[k] == request@.headers[k]);
            assert(raw.headers[k] == (hs[k].0@, hs[k].1@));
        }
    }
    Ok(request)
}

/// Decides on one parser pass made with `header_size` slots: a complete head
/// is converted, an unfinished one asks for more bytes (keeping the slot
/// count), a rejected one fails; `None` when there were too many headers for
/// the slots.
pub fn outcome_of_pass(raw: RawParse, header_size: usize) -> (res: Option<ParseResult>)
    requires
        raw matches RawParse::Complete(_, head) ==> head.method is Some && head.path is Some
            && head.version is Some,
    ensures
        match res {
            Some(r) => pass_outcome(raw@, header_size as nat) == Some(r@),
            None => pass_outcome(raw@, header_size as nat) is None,
        },
        res is None <==> raw is TooManyHeaders,
        (res matches Some(ParseResult::Partial(k)) && k == header_size) <==> raw is Partial,
        res matches Some(ParseResult::Complete(r)) ==> raw matches RawParse::Complete(_, head) && {
            &&& r.version == head.version.unwrap()
            &&& r.method@ == head.method.unwrap()@
            &&& r.path@ == head.path.unwrap()@
            &&& r.headers@.len() == head.headers@.len()
        },
        raw matches RawParse::Invalid(m0) ==> (res matches Some(
            ParseResult::Failed(RequestError::Malformed(m)),
        ) && m@ == m0@),
{
    match raw {
        RawParse::Complete(_, head) => match convert_request(head) {
            Ok(request) => Some(ParseResult::Complete(request)),
            Err(e) => Some(ParseResult::Failed(e)),
        },
        RawParse::Partial => Some(ParseResult::Partial(header_size)),
        RawParse::TooManyHeaders => None,
        RawParse::Invalid(msg) => Some(ParseResult::Failed(RequestError::Malformed(msg))),
    }
}

/// Parses a request head out of `buf` with `header_size` header slots; when
/// the head has more header lines than slots, tries again with ten more.
///
/// The outcome does not depend on the starting slot count, except for the
/// count a `Partial` carries; a prefix of `buf` (unless `buf` is rejected)
/// parses as unfinished or as `buf` does; and bytes appended after a complete
/// head change nothing.
pub fn parse_request(buf: &[u8], header_size: usize) -> (res: ParseResult)
    requires
        buf@.len() + 10 <= usize::MAX,
    ensures
        res@ == parse_outcome(buf@, header_size as nat),
        forall|h: nat| same_outcome_kind(#[trigger] parse_outcome(buf@, h), res@),
        !malformed(res@) ==> forall|p: Seq<u8>, h: nat|
            p.is_prefix_of(buf@) ==> #[trigger] parse_outcome(p, h) is Partial || parse_outcome(p, h) == res@,
        head_complete(res@) ==> forall|extra: Seq<u8>, h: nat| #[trigger] parse_outcome(buf@ + extra, h) == res@,
        res matches ParseResult::Complete(r) ==> settles_on(buf@, r@),
    decreases buf@.len() + 10 - header_size,
{
    let raw = parse_head(buf, header_size);
    let ghost r = raw@;
    match outcome_of_pass(raw, header_size) {
        Some(res) => {
            proof {
                lemma_final_pass(buf@, header_size as nat, r);
            }
            res
        },
        None => parse_request(buf, header_size + 10),
    }
}

} // verus!
