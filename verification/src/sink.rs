//! An output stream, held as the requests that were made of it.

use vstd::prelude::*;

verus! {

/// One request made of an output stream, as a contract speaks of it.
pub enum Effect {
    /// A write of these bytes.
    Write(Seq<u8>),
    /// A flush: what was written before it is forced downstream.
    Flush,
}

/// One request made of an output stream.
#[derive(Debug, PartialEq, Eq)]
pub enum Request {
    /// Write these bytes.
    Write(Vec<u8>),
    /// Force downstream what was written so far.
    Flush,
}

impl View for Request {
    type V = Effect;

    open spec fn view(&self) -> Effect {
        match self {
            Request::Write(bytes) => Effect::Write(bytes@),
            Request::Flush => Effect::Flush,
        }
    }
}

/// The bytes that the requests of `log` write, in the order of the requests.
pub open spec fn emitted(log: Seq<Effect>) -> Seq<u8>
    decreases log.len(),
{
    if log.len() == 0 {
        Seq::empty()
    } else {
        match log.last() {
            Effect::Write(bytes) => emitted(log.drop_last()) + bytes,
            Effect::Flush => emitted(log.drop_last()),
        }
    }
}

/// The bytes that a reader downstream is sure to have seen: those written
/// before the last flush of `log`.
pub open spec fn delivered(log: Seq<Effect>) -> Seq<u8>
    decreases log.len(),
{
    if log.len() == 0 {
        Seq::empty()
    } else {
        match log.last() {
            Effect::Write(_) => delivered(log.drop_last()),
            Effect::Flush => emitted(log.drop_last()),
        }
    }
}

/// An output stream. Its view is the sequence of requests made of it, oldest
/// first.
pub struct Sink {
    requests: Vec<Request>,
}

impl View for Sink {
    type V = Seq<Effect>;

    closed spec fn view(&self) -> Seq<Effect> {
        self.requests@.map_values(|r: Request| r@)
    }
}

impl Sink {
    /// A stream of which nothing has been asked yet.
    pub fn new() -> (sink: Sink)
        ensures
            sink@ == Seq::<Effect>::empty(),
    {
        Sink { requests: Vec::new() }
    }

    /// Asks the stream to write `bytes`.
    pub fn write(&mut self, bytes: Vec<u8>)
        ensures
            final(self)@ == old(self)@.push(Effect::Write(bytes@)),
    {
        self.requests.push(Request::Write(bytes));
    }

    /// Asks the stream to flush.
    pub fn flush(&mut self)
        ensures
            final(self)@ == old(self)@.push(Effect::Flush),
    {
        self.requests.push(Request::Flush);
    }

    /// The requests made so far, oldest first.
    pub fn requests(&self) -> (requests: &[Request])
        ensures
            requests@.len() == self@.len(),
            forall|i: int| 0 <= i < requests@.len() ==> (#[trigger] requests@[i])@ == self@[i],
    {
        self.requests.as_slice()
    }

    /// The bytes that the first `end` requests write.
    fn emitted_by(&self, end: usize) -> (bytes: Vec<u8>)
        requires
            end <= self@.len(),
        ensures
            bytes@ == emitted(self@.take(end as int)),
    {
        let mut bytes: Vec<u8> = Vec::new();
        let mut i: usize = 0;
        while i < end
            invariant
                i <= end <= self.requests@.len(),
                self@.len() == self.requests@.len(),
                bytes@ == emitted(self@.take(i as int)),
            decreases end - i,
        {
            proof {
                assert(self@.take(i + 1).drop_last() =~= self@.take(i as int));
            }
            match &self.requests[i] {
                Request::Write(chunk) => {
                    bytes.extend_from_slice(chunk.as_slice());
                },
                Request::Flush => {},
            }
            i += 1;
        }
        bytes
    }

    /// All the bytes that the stream was asked to write, in order.
    pub fn emitted(&self) -> (bytes: Vec<u8>)
        ensures
            bytes@ == emitted(self@),
    {
        assert(self@.take(self@.len() as int) =~= self@);
        self.emitted_by(self.requests.len())
    }

    /// The bytes written before the last flush.
    pub fn delivered(&self) -> (bytes: Vec<u8>)
        ensures
            bytes@ == delivered(self@),
    {
        let mut i: usize = self.requests.len();
        assert(self@.take(i as int) =~= self@);
        while i > 0
            invariant
                i <= self.requests@.len(),
                self@.len() == self.requests@.len(),
                delivered(self@) == delivered(self@.take(i as int)),
            decreases i,
        {
            proof {
                assert(self@.take(i as int).drop_last() =~= self@.take(i - 1));
            }
            match &self.requests[i - 1] {
                Request::Flush => {
                    return self.emitted_by(i - 1);
                },
                Request::Write(_) => {},
            }
            i -= 1;
        }
        Vec::new()
    }
}

} // verus!
