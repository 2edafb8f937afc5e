use vstd::prelude::*;
use crate::message::{Request, RequestView};
use crate::request::{settles_on, lemma_settled_slots_grow, parse_outcome, parse_request, ParseResult, ParseResultView, RequestError};

verus! {

/// The number of header slots the first parse of a connection uses.
pub const INITIAL_HEADER_SLOTS: usize = 10;

/// Two readers fed the same stream of bytes, split into reads in any way,
/// that have each found a complete head, found the same request: the request
/// depends on the bytes only, not on how they arrived.
pub proof fn lemma_reads_agree(stream: Seq<u8>, b1: Seq<u8>, r1: RequestView, b2: Seq<u8>, r2: RequestView)
    requires
        b1.is_prefix_of(stream),
        b2.is_prefix_of(stream),
        settles_on(b1, r1),
        settles_on(b2, r2),
    ensures
        r1 == r2,
{
    let empty = Seq::<u8>::empty();
    assert(b1 + empty =~= b1);
    assert(b2 + empty =~= b2);
    assert(parse_outcome(b1 + empty, 10) == ParseResultView::Complete(r1));
    assert(parse_outcome(b2 + empty, 10) == ParseResultView::Complete(r2));
    if b1.len() <= b2.len() {
        assert(b1.is_prefix_of(b2));
        assert(parse_outcome(b1, 10) is Partial || parse_outcome(b1, 10) == ParseResultView::Complete(r2));
    } else {
        assert(b2.is_prefix_of(b1));
        assert(parse_outcome(b2, 10) is Partial || parse_outcome(b2, 10) == ParseResultView::Complete(r1));
    }
}

/// A stream that begins with a complete head for `rv` is read as `rv`,
/// however its reads are split: every prefix of it parses (with the ten slots
/// a reader starts with) as unfinished or as `rv`, never as a failure, and
/// every prefix holding the whole head parses as `rv`. Since each answer of
/// [`RequestReader::receive`] is that parse of the bytes read so far, a
/// reader of such a stream asks for more until it has the head and then
/// returns `rv`.
pub proof fn lemma_stream_read_as_head(stream: Seq<u8>, head: Seq<u8>, rv: RequestView, b: Seq<u8>)
    requires
        head.is_prefix_of(stream),
        settles_on(head, rv),
        b.is_prefix_of(stream),
    ensures
        parse_outcome(b, INITIAL_HEADER_SLOTS as nat) is Partial || parse_outcome(b, INITIAL_HEADER_SLOTS as nat)
            == ParseResultView::Complete(rv),
        head.len() <= b.len() ==> parse_outcome(b, INITIAL_HEADER_SLOTS as nat) == ParseResultView::Complete(rv),
{
    let h = INITIAL_HEADER_SLOTS as nat;
    if head.len() <= b.len() {
        let extra = b.subrange(head.len() as int, b.len() as int);
        assert(head + extra =~= b);
        assert(parse_outcome(head + extra, h) == ParseResultView::Complete(rv));
    } else {
        assert(b.is_prefix_of(head));
        assert(parse_outcome(b, h) is Partial || parse_outcome(b, h) == ParseResultView::Complete(rv));
    }
}

/// What the connection should do after a chunk of bytes was taken in.
pub enum ReadStep {
    /// The request head is complete.
    Done(Request),
    /// Read more bytes and hand them in.
    NeedMore,
    /// The head cannot be parsed; the connection is given up (the server's
    /// connection task panics with this error).
    Failed(RequestError),
}

/// Reads one request head from a connection: accumulates the bytes read so
/// far and re-parses them after every read, remembering how many header
/// slots the last parse needed.
pub struct RequestReader {
    buffer: Vec<u8>,
    header_size: usize,
}

impl RequestReader {
    /// The header slot count is a positive multiple of ten.
    #[verifier::type_invariant]
    spec fn slots_wf(self) -> bool {
        &&& self.header_size >= INITIAL_HEADER_SLOTS
        &&& self.header_size % 10 == 0
    }

    /// The bytes read so far.
    pub closed spec fn buffered(&self) -> Seq<u8> {
        self.buffer@
    }

    /// The header slot count the next parse starts with.
    pub closed spec fn header_capacity(&self) -> nat {
        self.header_size as nat
    }

    /// A reader that has read nothing and starts with ten header slots.
    pub fn new() -> (r: Self)
        ensures
            r.buffered() == Seq::<u8>::empty(),
            r.header_capacity() == INITIAL_HEADER_SLOTS,
    {
        RequestReader { buffer: Vec::new(), header_size: INITIAL_HEADER_SLOTS }
    }

    /// The number of bytes read so far.
    pub fn buffered_len(&self) -> (n: usize)
        ensures
            n == self.buffered().len(),
    {
        self.buffer.len()
    }

    /// The header slot count the next parse starts with.
    pub fn header_slots(&self) -> (n: usize)
        ensures
            n == self.header_capacity(),
            n >= INITIAL_HEADER_SLOTS,
            n % 10 == 0,
    {
        proof {
            use_type_invariant(self);
        }
        self.header_size
    }

    /// Takes in the bytes of one read (possibly none) and parses everything
    /// read so far. The slot count grows as the parse needed and is kept for
    /// the next read.
    pub fn receive(&mut self, chunk: &[u8]) -> (step: ReadStep)
        requires
            old(self).buffered().len() + chunk@.len() + 10 <= usize::MAX,
        ensures
            final(self).buffered() == old(self).buffered() + chunk@,
            final(self).header_capacity() >= old(self).header_capacity(),
            final(self).header_capacity() % 10 == 0,
            match parse_outcome(final(self).buffered(), old(self).header_capacity()) {
                ParseResultView::Complete(rv) => step matches ReadStep::Done(r) && r@ == rv,
                ParseResultView::Partial(m) => step is NeedMore && final(self).header_capacity() == m,
                ParseResultView::Failed(ev) => step matches ReadStep::Failed(e) && e@ == ev,
            },
            match parse_outcome(final(self).buffered(), INITIAL_HEADER_SLOTS as nat) {
                ParseResultView::Complete(rv) => step matches ReadStep::Done(r) && r@ == rv,
                ParseResultView::Partial(_) => step is NeedMore,
                ParseResultView::Failed(ev) => step matches ReadStep::Failed(e) && e@ == ev,
            },
            step matches ReadStep::Done(r) ==> settles_on(final(self).buffered(), r@),
    {
        proof {
            use_type_invariant(&*self);
        }
        let mut buffer: Vec<u8> = Vec::new();
        std::mem::swap(&mut buffer, &mut self.buffer);
        buffer.extend_from_slice(chunk);
        assert(buffer@ =~= old(self).buffer@ + chunk@);
        self.buffer = buffer;
        let ghost buf = self.buffer@;
        proof {
            lemma_settled_slots_grow(buf, self.header_size as nat);
        }
        let result = parse_request(self.buffer.as_slice(), self.header_size);
        proof {
            assert(crate::request::same_outcome_kind(parse_outcome(buf, INITIAL_HEADER_SLOTS as nat), result@));
        }
        match result {
            ParseResult::Complete(request) => ReadStep::Done(request),
            ParseResult::Partial(next) => {
                self.header_size = next;
                ReadStep::NeedMore
            },
            ParseResult::Failed(e) => ReadStep::Failed(e),
        }
    }
}

} // verus!
