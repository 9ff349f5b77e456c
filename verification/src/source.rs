//! An input stream, held as the text that is still to be read, and the lines
//! that are taken from it.

use vstd::prelude::*;
use vstd::string::*;
use vstd::utf8::{
    decode_utf8_split, encode_scalar, encode_utf8, encode_utf8_decode_utf8,
    encode_utf8_valid_utf8, is_ascii_chars_encode_utf8, is_char_boundary,
    is_char_boundary_iff_not_is_continuation_byte, is_char_boundary_start_end_of_seq,
    length_of_first_scalar, pop_first_scalar, valid_utf8, valid_utf8_split,
};

verus! {

/// The byte that ends a line.
pub const LINE_FEED: u8 = 10;

/// Whether a line that starts at the front of `input` ends with a line feed,
/// that is, whether any line feed is still to come.
pub open spec fn is_terminated(input: Seq<char>) -> bool {
    input.contains('\n')
}

/// The text of the line at the front of `input`: what stands before the
/// first line feed, or all of `input` where there is none.
pub open spec fn first_line(input: Seq<char>) -> Seq<char> {
    match input.index_of_first('\n') {
        Some(i) => input.take(i),
        None => input,
    }
}

/// What is left of `input` once its first line is read, line feed included.
pub open spec fn after_first_line(input: Seq<char>) -> Seq<char> {
    match input.index_of_first('\n') {
        Some(i) => input.skip(i + 1),
        None => Seq::empty(),
    }
}

/// The line at the front of `input` as it stands there, line feed included.
pub open spec fn raw_line(input: Seq<char>) -> Seq<char> {
    if is_terminated(input) {
        first_line(input).push('\n')
    } else {
        first_line(input)
    }
}

/// One line as it was read.
pub struct Line {
    /// The text of the line, without its line feed.
    pub text: String,
    /// Whether a line feed ended the line; the last line of an input may
    /// lack one.
    pub terminated: bool,
}

impl Line {
    /// The line as it stood in the input, line feed included.
    pub open spec fn raw(&self) -> Seq<char> {
        if self.terminated {
            self.text@.push('\n')
        } else {
            self.text@
        }
    }
}

/// An input stream. Its view is the text that has not been read yet.
pub struct Source {
    pending: String,
}

impl View for Source {
    type V = Seq<char>;

    closed spec fn view(&self) -> Seq<char> {
        self.pending@
    }
}

/// A line feed is encoded as one byte.
proof fn lemma_line_feed_bytes()
    ensures
        encode_utf8(seq!['\n']) =~= seq![LINE_FEED],
{
    is_ascii_chars_encode_utf8(seq!['\n']);
}

/// A text that holds a line feed has the line-feed byte in its encoding.
proof fn lemma_line_feed_encoded(chars: Seq<char>, i: int)
    requires
        0 <= i < chars.len(),
        chars[i] == '\n',
    ensures
        encode_utf8(chars).contains(LINE_FEED),
    decreases chars.len(),
{
    let first = encode_scalar(chars[0] as u32);
    let rest = encode_utf8(chars.drop_first());
    assert(encode_utf8(chars) == first + rest);
    if i == 0 {
        lemma_line_feed_bytes();
        assert(seq!['\n'].drop_first() =~= Seq::<char>::empty());
        assert(encode_utf8(seq!['\n']) == first + encode_utf8(seq!['\n'].drop_first()));
        assert(first =~= seq![LINE_FEED]);
        assert((first + rest)[0] == LINE_FEED);
    } else {
        lemma_line_feed_encoded(chars.drop_first(), i - 1);
        let j = choose|j: int| 0 <= j < rest.len() && rest[j] == LINE_FEED;
        assert((first + rest)[first.len() + j] == LINE_FEED);
    }
}

/// A text whose encoding lacks the line-feed byte holds no line feed.
proof fn lemma_no_line_feed(chars: Seq<char>)
    requires
        !encode_utf8(chars).contains(LINE_FEED),
    ensures
        !chars.contains('\n'),
{
    if chars.contains('\n') {
        let i = choose|i: int| 0 <= i < chars.len() && chars[i] == '\n';
        lemma_line_feed_encoded(chars, i);
    }
}

/// Where `input` is `head`, a line feed and `rest`, and `head` holds no line
/// feed, `head` is the first line and `rest` is what follows it.
pub proof fn lemma_first_line_split(input: Seq<char>, head: Seq<char>, rest: Seq<char>)
    requires
        input == head + seq!['\n'] + rest,
        !head.contains('\n'),
    ensures
        is_terminated(input),
        first_line(input) == head,
        raw_line(input) == head.push('\n'),
        after_first_line(input) == rest,
{
    let at = head.len() as int;
    assert(input[at] == '\n');
    input.index_of_first_ensures('\n');
    let i = input.index_of_first('\n').unwrap();
    if i < at {
        assert(head[i] == input[i]);
    }
    assert(i == at);
    assert(input.take(i) =~= head);
    assert(input.skip(i + 1) =~= rest);
}

/// An input that holds no line feed is one line without an end, and
/// nothing follows it.
pub proof fn lemma_first_line_whole(input: Seq<char>)
    requires
        !input.contains('\n'),
    ensures
        !is_terminated(input),
        first_line(input) == input,
        raw_line(input) == input,
        after_first_line(input) == Seq::<char>::empty(),
{
    input.index_of_first_ensures('\n');
}

impl Source {
    /// An input with nothing to read.
    pub fn new() -> (source: Source)
        ensures
            source@ == Seq::<char>::empty(),
    {
        Source { pending: String::new() }
    }

    /// Adds `text` behind what is still to be read.
    pub fn feed(&mut self, text: &str)
        ensures
            final(self)@ == old(self)@ + text@,
    {
        self.pending.append(text);
    }

    /// The text that is still to be read.
    pub fn pending(&self) -> (text: &str)
        ensures
            text@ == self@,
    {
        self.pending.as_str()
    }

    /// Takes the first line off the input: everything up to the first line
    /// feed, which is consumed with it, or all that is left where no line
    /// feed follows. There is no line to take from an empty input.
    pub fn take_line(&mut self) -> (line: Option<Line>)
        ensures
            line is Some <==> old(self)@.len() > 0,
            final(self)@ == after_first_line(old(self)@),
            line matches Some(l) ==> {
                &&& l.text@ == first_line(old(self)@)
                &&& l.terminated == is_terminated(old(self)@)
                &&& l.raw() == raw_line(old(self)@)
            },
    {
        let input = self.pending.as_str();
        if input.is_empty() {
            proof {
                lemma_first_line_whole(input@);
                assert(input@ =~= Seq::<char>::empty());
            }
            return None;
        }
        let bytes = input.as_bytes();
        let n = bytes.len();
        let mut k: usize = 0;
        while k < n && bytes[k] != LINE_FEED
            invariant
                k <= n,
                n == bytes@.len(),
                forall|j: int| 0 <= j < k ==> bytes@[j] != LINE_FEED,
            decreases n - k,
        {
            k += 1;
        }
        proof {
            encode_utf8_valid_utf8(input@);
            encode_utf8_decode_utf8(input@);
        }
        if k == n {
            proof {
                lemma_no_line_feed(input@);
                lemma_first_line_whole(input@);
            }
            let text = String::from_str(input);
            self.pending = String::new();
            Some(Line { text, terminated: false })
        } else {
            proof {
                is_char_boundary_iff_not_is_continuation_byte(bytes@, k as int);
            }
            let (head, tail) = input.split_at(k);
            proof {
                valid_utf8_split(bytes@, k as int);
                decode_utf8_split(bytes@, k as int);
                encode_utf8_decode_utf8(head@);
                encode_utf8_decode_utf8(tail@);
                assert(input@ =~= head@ + tail@);
                let t = tail.spec_bytes();
                assert(t[0] == LINE_FEED);
                assert(valid_utf8(t));
                if t.len() == 1 {
                    is_char_boundary_start_end_of_seq(t);
                } else {
                    assert(length_of_first_scalar(t) == 1);
                    assert(is_char_boundary(pop_first_scalar(t), 0));
                    assert(is_char_boundary(t, 1));
                }
            }
            let (mark, rest) = tail.split_at(1);
            proof {
                decode_utf8_split(tail.spec_bytes(), 1);
                encode_utf8_decode_utf8(mark@);
                encode_utf8_decode_utf8(rest@);
                assert(tail@ =~= mark@ + rest@);
                lemma_line_feed_bytes();
                encode_utf8_decode_utf8(seq!['\n']);
                assert(mark.spec_bytes() =~= seq![LINE_FEED]);
                assert(mark@ == seq!['\n']);
                assert(!encode_utf8(head@).contains(LINE_FEED));
                lemma_no_line_feed(head@);
                assert(input@ =~= head@ + seq!['\n'] + rest@);
                lemma_first_line_split(input@, head@, rest@);
            }
            let text = String::from_str(head);
            let left = String::from_str(rest);
            self.pending = left;
            Some(Line { text, terminated: true })
        }
    }
}

} // verus!
