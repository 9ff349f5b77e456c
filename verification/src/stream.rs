//! The stream handles and the sentinels that end a chain.
//!
//! A chain starts at a handle. Each step that is not the last consumes the
//! handle and gives a fresh one of the same channel; a step that consumes a
//! sentinel gives nothing back, so no step can follow it.

use crate::console::{Console, ConsoleView};
use crate::sink::{delivered, emitted, Effect, Sink};
use crate::source::{after_first_line, first_line, raw_line, Line, LINE_FEED};
use crate::text::{Formattable, Parseable};
use vstd::prelude::*;
use vstd::string::*;
use vstd::utf8::encode_utf8;

verus! {

/// The handle of the input stream.
#[allow(nonstandard_style)]
#[derive(Debug, PartialEq, Eq)]
pub struct rin;

/// The handle of the primary output stream.
#[allow(nonstandard_style)]
#[derive(Debug, PartialEq, Eq)]
pub struct rout;

/// The handle of the diagnostic output stream.
#[allow(nonstandard_style)]
#[derive(Debug, PartialEq, Eq)]
pub struct rerr;

/// Ends a chain on an output stream with a line feed and a flush.
#[allow(nonstandard_style)]
pub struct endl;

/// Ends a chain with a flush.
#[allow(nonstandard_style)]
pub struct flush;

/// Why a read stored nothing. Either way the process is not meant to go on.
#[derive(Debug, PartialEq, Eq)]
pub enum Failure {
    /// No line could be read: the input was at its end.
    Read,
    /// The line that was read does not denote a value of the target's type.
    /// The diagnostic names the line and the type.
    Parse(String),
}

impl Failure {
    /// The description that the process ends with.
    pub fn message(&self) -> (text: String)
        ensures
            match self {
                Failure::Read => text@ == "no line could be read"@,
                Failure::Parse(diagnostic) => text@ == diagnostic@,
            },
    {
        match self {
            Failure::Read => String::from_str("no line could be read"),
            Failure::Parse(diagnostic) => diagnostic.clone(),
        }
    }
}

/// The bytes that writing `value` sends to a stream: its canonical text in
/// UTF-8.
pub open spec fn bytes_of<T: Formattable>(value: T) -> Seq<u8> {
    encode_utf8(value.text())
}

/// The requests made of a stream once `value` is written to it.
pub open spec fn wrote<T: Formattable>(log: Seq<Effect>, value: T) -> Seq<Effect> {
    log.push(Effect::Write(bytes_of(value)))
}

/// The requests made of a stream once a chain on it ends with a line feed.
pub open spec fn ended(log: Seq<Effect>) -> Seq<Effect> {
    log.push(Effect::Write(seq![LINE_FEED])).push(Effect::Flush)
}

/// The requests made of a stream once a chain on it ends with a flush.
pub open spec fn flushed(log: Seq<Effect>) -> Seq<Effect> {
    log.push(Effect::Flush)
}

/// The diagnostic for a line that does not denote a value of the type called
/// `name`: the line in double quotes, then ` is not a ` and the name.
pub open spec fn diagnostic(raw: Seq<char>, name: Seq<char>) -> Seq<char> {
    seq!['"'] + raw + seq!['"', ' ', 'i', 's', ' ', 'n', 'o', 't', ' ', 'a', ' '] + name
}

/// Writing a value adds its bytes, and nothing else, behind what a stream
/// was asked to write before, and forces nothing downstream.
pub proof fn lemma_wrote<T: Formattable>(log: Seq<Effect>, value: T)
    ensures
        emitted(wrote(log, value)) == emitted(log) + bytes_of(value),
        delivered(wrote(log, value)) == delivered(log),
{
    assert(wrote(log, value).drop_last() =~= log);
}

/// Ending a chain with a line feed adds exactly one byte, the line feed,
/// behind what was written before, and leaves nothing of it unflushed.
pub proof fn lemma_ended(log: Seq<Effect>)
    ensures
        emitted(ended(log)) == emitted(log).push(LINE_FEED),
        delivered(ended(log)) == emitted(ended(log)),
{
    let written = log.push(Effect::Write(seq![LINE_FEED]));
    assert(written.drop_last() =~= log);
    assert(ended(log).drop_last() =~= written);
    assert(emitted(written) =~= emitted(log).push(LINE_FEED));
}

/// Ending a chain with a flush writes nothing and leaves nothing of what
/// was written before unflushed.
pub proof fn lemma_flushed(log: Seq<Effect>)
    ensures
        emitted(flushed(log)) == emitted(log),
        delivered(flushed(log)) == emitted(log),
{
    assert(flushed(log).drop_last() =~= log);
}

/// The encoding of two texts put together is the two encodings put together.
pub proof fn lemma_encode_concat(a: Seq<char>, b: Seq<char>)
    ensures
        encode_utf8(a + b) == encode_utf8(a) + encode_utf8(b),
    decreases a.len(),
{
    if a.len() > 0 {
        lemma_encode_concat(a.drop_first(), b);
        assert((a + b).drop_first() =~= a.drop_first() + b);
    }
}

/// The bytes of a chain of three writes are the bytes of the three values
/// in the order of the chain, behind what was written before: the encoding
/// of the three texts put together in that order.
pub proof fn lemma_chain_order<A: Formattable, B: Formattable, C: Formattable>(
    log: Seq<Effect>,
    a: A,
    b: B,
    c: C,
)
    ensures
        emitted(wrote(wrote(wrote(log, a), b), c)) == emitted(log) + bytes_of(a) + bytes_of(b)
            + bytes_of(c),
        emitted(wrote(wrote(wrote(log, a), b), c)) == emitted(log) + encode_utf8(
            a.text() + b.text() + c.text(),
        ),
{
    lemma_wrote(log, a);
    lemma_wrote(wrote(log, a), b);
    lemma_wrote(wrote(wrote(log, a), b), c);
    lemma_encode_concat(a.text(), b.text());
    lemma_encode_concat(a.text() + b.text(), c.text());
    assert(emitted(log) + bytes_of(a) + bytes_of(b) + bytes_of(c) =~= emitted(log) + (bytes_of(a)
        + bytes_of(b) + bytes_of(c)));
}

/// Asks `sink` to write the canonical text of `value`.
fn write_to<T: Formattable>(sink: &mut Sink, value: T)
    ensures
        final(sink)@ == wrote(old(sink)@, value),
{
    let text = value.to_text();
    let bytes = text.as_str().as_bytes_vec();
    sink.write(bytes);
}

/// Asks `sink` to write a line feed and then to flush.
fn end_on(sink: &mut Sink)
    ensures
        final(sink)@ == ended(old(sink)@),
{
    let mut feed: Vec<u8> = Vec::new();
    feed.push(LINE_FEED);
    sink.write(feed);
    sink.flush();
}

/// The diagnostic for `line`, which does not denote a value of the type
/// called `name`.
fn complain(line: &Line, name: &str) -> (message: String)
    ensures
        message@ == diagnostic(line.raw(), name@),
{
    proof {
        reveal_strlit("\"");
        reveal_strlit("\n");
        reveal_strlit("\" is not a ");
    }
    let mut message = String::from_str("\"");
    message.append(line.text.as_str());
    if line.terminated {
        message.append("\n");
    }
    message.append("\" is not a ");
    message.append(name);
    message
}

impl rout {
    /// Writes the canonical text of `value` to the primary output stream.
    pub fn write<T: Formattable>(self, console: &mut Console, value: T) -> (next: rout)
        ensures
            final(console)@ == (ConsoleView {
                out: wrote(old(console)@.out, value),
                ..old(console)@
            }),
            emitted(final(console)@.out) == emitted(old(console)@.out) + encode_utf8(value.text()),
            delivered(final(console)@.out) == delivered(old(console)@.out),
    {
        proof {
            lemma_wrote(console@.out, value);
        }
        write_to(&mut console.out, value);
        self
    }

    /// Writes a line feed to the primary output stream, then flushes it.
    pub fn terminate(self, console: &mut Console, _end: endl)
        ensures
            final(console)@ == (ConsoleView { out: ended(old(console)@.out), ..old(console)@ }),
            emitted(final(console)@.out) == emitted(old(console)@.out).push(LINE_FEED),
            delivered(final(console)@.out) == emitted(final(console)@.out),
    {
        proof {
            lemma_ended(console@.out);
        }
        end_on(&mut console.out);
    }

    /// Flushes the primary output stream and writes nothing.
    pub fn flush(self, console: &mut Console, _mark: flush)
        ensures
            final(console)@ == (ConsoleView { out: flushed(old(console)@.out), ..old(console)@ }),
            emitted(final(console)@.out) == emitted(old(console)@.out),
            delivered(final(console)@.out) == emitted(final(console)@.out),
    {
        proof {
            lemma_flushed(console@.out);
        }
        console.out.flush();
    }
}

impl rerr {
    /// Writes the canonical text of `value` to the diagnostic output stream.
    pub fn write<T: Formattable>(self, console: &mut Console, value: T) -> (next: rerr)
        ensures
            final(console)@ == (ConsoleView {
                err: wrote(old(console)@.err, value),
                ..old(console)@
            }),
            emitted(final(console)@.err) == emitted(old(console)@.err) + encode_utf8(value.text()),
            delivered(final(console)@.err) == delivered(old(console)@.err),
    {
        proof {
            lemma_wrote(console@.err, value);
        }
        write_to(&mut console.err, value);
        self
    }

    /// Writes a line feed to the diagnostic output stream, then flushes it.
    pub fn terminate(self, console: &mut Console, _end: endl)
        ensures
            final(console)@ == (ConsoleView { err: ended(old(console)@.err), ..old(console)@ }),
            emitted(final(console)@.err) == emitted(old(console)@.err).push(LINE_FEED),
            delivered(final(console)@.err) == emitted(final(console)@.err),
    {
        proof {
            lemma_ended(console@.err);
        }
        end_on(&mut console.err);
    }

    /// Flushes the diagnostic output stream and writes nothing.
    pub fn flush(self, console: &mut Console, _mark: flush)
        ensures
            final(console)@ == (ConsoleView { err: flushed(old(console)@.err), ..old(console)@ }),
            emitted(final(console)@.err) == emitted(old(console)@.err),
            delivered(final(console)@.err) == emitted(final(console)@.err),
    {
        proof {
            lemma_flushed(console@.err);
        }
        console.err.flush();
    }
}

impl rin {
    /// Settles a read once a parser has been through the line: stores in
    /// `target` the value that the parser found, or, where it found none,
    /// leaves `target` as it was and fails with the diagnostic for `line` and
    /// the type called `name`.
    pub fn store<T>(self, line: &Line, parsed: Option<T>, name: &str, target: &mut T) -> (r:
        Result<rin, Failure>)
        ensures
            match parsed {
                Some(value) => r is Ok && *final(target) == value,
                None => {
                    &&& *final(target) == *old(target)
                    &&& r matches Err(Failure::Parse(message))
                    &&& message@ == diagnostic(line.raw(), name@)
                },
            },
    {
        match parsed {
            Some(value) => {
                *target = value;
                Ok(self)
            },
            None => Err(Failure::Parse(complain(line, name))),
        }
    }

    /// Reads one line from the input stream, line feed included, and stores
    /// in `target` the value that the line's text denotes.
    ///
    /// The read fails, and leaves `target` as it was, where the input is at
    /// its end and where the text denotes no value of the target's type.
    pub fn read<T: Parseable>(self, console: &mut Console, target: &mut T) -> (r: Result<
        rin,
        Failure,
    >)
        ensures
            final(console)@ == (ConsoleView {
                input: after_first_line(old(console)@.input),
                ..old(console)@
            }),
            r is Ok <==> old(console)@.input.len() > 0 && T::parsed(
                first_line(old(console)@.input),
            ) is Some,
            match r {
                Ok(_) => {
                    &&& old(console)@.input.len() > 0
                    &&& T::parsed(first_line(old(console)@.input)) == Some(final(target)@)
                },
                Err(Failure::Read) => {
                    &&& old(console)@.input.len() == 0
                    &&& *final(target) == *old(target)
                },
                Err(Failure::Parse(message)) => {
                    &&& old(console)@.input.len() > 0
                    &&& T::parsed(first_line(old(console)@.input)) is None
                    &&& *final(target) == *old(target)
                    &&& message@ == diagnostic(raw_line(old(console)@.input), T::spec_name())
                },
            },
    {
        match console.input.take_line() {
            None => Err(Failure::Read),
            Some(line) => {
                let parsed = T::parse(line.text.as_str());
                self.store(&line, parsed, T::name(), target)
            },
        }
    }

    /// Ends a chain on the input stream. There is nothing to flush on an
    /// input, so the console stays as it is.
    #[allow(unused_variables)]
    pub fn drain(self, console: &mut Console, _mark: flush)
        ensures
            *final(console) == *old(console),
    {
    }
}

} // verus!
