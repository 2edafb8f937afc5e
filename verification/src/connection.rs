use vstd::prelude::*;
use crate::message::{Request, Response};
use crate::reader::{ReadStep, RequestReader};
use crate::request::{parse_outcome, settles_on, ParseResultView, RequestError};
use crate::response::{body_byte_len, response_text, stringify_response};

verus! {

/// Where a connection stands.
#[derive(Clone, Copy, PartialEq, Eq, Structural)]
pub enum Phase {
    /// Reading the request head.
    Reading,
    /// Waiting for the handler's response.
    Handling,
    /// Writing the rendered response.
    Writing,
    /// Nothing more to do.
    Closed,
}

/// The order of the phases: an exchange only moves forward.
pub open spec fn phase_rank(p: Phase) -> nat {
    match p {
        Phase::Reading => 0,
        Phase::Handling => 1,
        Phase::Writing => 2,
        Phase::Closed => 3,
    }
}

/// What happened on the connection since the last step.
pub enum Event {
    /// A read returned these bytes (none at end of stream).
    Received(Vec<u8>),
    /// A read failed.
    ReadFailed,
    /// The handler answered.
    Responded(Response),
    /// The handler's future failed.
    HandlerFailed,
    /// The response was written out.
    Written,
    /// Writing the response failed.
    WriteFailed,
}

/// What the connection should do next.
pub enum Action {
    /// Read more bytes.
    ReadMore,
    /// Hand this request to the handler.
    Dispatch(Request),
    /// Write this text to the peer.
    Write(String),
    /// Drop the connection.
    Close,
    /// The request head cannot be parsed: give the connection up with this
    /// error (the server's connection task panics with it; the handler is
    /// not called and nothing is written).
    Abort(RequestError),
}

/// One request/response exchange on an accepted connection: read a request
/// head, hand it to the handler, write the handler's response as an HTTP
/// message, then close. Failures of a read, of the handler or of the write
/// close the connection; an unparsable head aborts it.
pub struct Connection {
    reader: RequestReader,
    phase: Phase,
}

impl Connection {
    /// The current phase.
    pub closed spec fn phase_of(&self) -> Phase {
        self.phase
    }

    /// The bytes of the request head read so far.
    pub closed spec fn buffered(&self) -> Seq<u8> {
        self.reader.buffered()
    }

    /// The header slot count the next parse starts with.
    pub closed spec fn header_capacity(&self) -> nat {
        self.reader.header_capacity()
    }

    /// A fresh connection, reading, with nothing read yet.
    pub fn new() -> (c: Self)
        ensures
            c.phase_of() == Phase::Reading,
            c.buffered() == Seq::<u8>::empty(),
            c.header_capacity() == 10,
    {
        Connection { reader: RequestReader::new(), phase: Phase::Reading }
    }

    /// The current phase.
    pub fn phase(&self) -> (p: Phase)
        ensures
            p == self.phase_of(),
    {
        self.phase
    }

    /// The number of bytes of the request head read so far.
    pub fn buffered_len(&self) -> (n: usize)
        ensures
            n == self.buffered().len(),
    {
        self.reader.buffered_len()
    }

    /// Takes in one event and says what to do next. An event that the
    /// current phase does not wait for closes the connection.
    pub fn step(&mut self, event: Event) -> (action: Action)
        requires
            event matches Event::Received(chunk) ==> old(self).buffered().len() + chunk@.len() + 10
                <= usize::MAX,
            event matches Event::Responded(r) ==> body_byte_len(r@) <= usize::MAX,
        ensures
            phase_rank(final(self).phase_of()) >= phase_rank(old(self).phase_of()),
            match (old(self).phase_of(), event) {
                (Phase::Reading, Event::Received(chunk)) => {
                    &&& final(self).buffered() == old(self).buffered() + chunk@
                    &&& match parse_outcome(final(self).buffered(), 10) {
                        ParseResultView::Complete(rv) => action matches Action::Dispatch(r) && r@ == rv,
                        ParseResultView::Partial(_) => action is ReadMore,
                        ParseResultView::Failed(ev) => action matches Action::Abort(e) && e@ == ev,
                    }
                    &&& action matches Action::Dispatch(r) ==> settles_on(final(self).buffered(), r@)
                    &&& final(self).header_capacity() >= old(self).header_capacity()
                    &&& match parse_outcome(final(self).buffered(), old(self).header_capacity()) {
                        ParseResultView::Complete(rv) => {
                            &&& action matches Action::Dispatch(r) && r@ == rv
                            &&& final(self).phase_of() == Phase::Handling
                        },
                        ParseResultView::Partial(m) => {
                            &&& action is ReadMore
                            &&& final(self).phase_of() == Phase::Reading
                            &&& final(self).header_capacity() == m
                        },
                        ParseResultView::Failed(ev) => {
                            &&& action matches Action::Abort(e) && e@ == ev
                            &&& final(self).phase_of() == Phase::Closed
                        },
                    }
                },
                (Phase::Handling, Event::Responded(r)) => {
                    &&& action matches Action::Write(text) && text@ == response_text(r@)
                    &&& final(self).phase_of() == Phase::Writing
                    &&& final(self).buffered() == old(self).buffered()
                    &&& final(self).header_capacity() == old(self).header_capacity()
                },
                _ => {
                    &&& action is Close
                    &&& final(self).phase_of() == Phase::Closed
                    &&& final(self).buffered() == old(self).buffered()
                    &&& final(self).header_capacity() == old(self).header_capacity()
                },
            },
    {
        match (self.phase, event) {
            (Phase::Reading, Event::Received(chunk)) => {
                match self.reader.receive(chunk.as_slice()) {
                    ReadStep::Done(request) => {
                        self.phase = Phase::Handling;
                        Action::Dispatch(request)
                    },
                    ReadStep::NeedMore => Action::ReadMore,
                    ReadStep::Failed(e) => {
                        self.phase = Phase::Closed;
                        Action::Abort(e)
                    },
                }
            },
            (Phase::Handling, Event::Responded(response)) => {
                self.phase = Phase::Writing;
                Action::Write(stringify_response(response))
            },
            _ => {
                self.phase = Phase::Closed;
                Action::Close
            },
        }
    }
}

} // verus!
