//! Line counting over a stream of byte chunks.
//!
//! A file counts as text when it is valid UTF-8 and holds no NUL byte. Its
//! line count is the number of line feeds, plus one for a last line that no
//! line feed ends. A `"\r\n"` pair ends one line, as it holds one line feed.
//! So an empty file has 0 lines, `"a\n"` has 1 and `"a\nb"` has 2. Anything
//! that is not text is binary and has 0 lines.

use vstd::prelude::*;
use vstd::utf8::{
    char_is_scalar, char_u32_cast, decode_utf8, decode_utf8_encode_utf8, encode_scalar,
    encode_utf8, has_width_1_encoding, has_width_2_encoding, has_width_3_encoding,
    last_continuation_byte, leading_byte_width_1, leading_byte_width_2, leading_byte_width_3,
    leading_byte_width_4, length_of_first_scalar, second_last_continuation_byte,
    third_last_continuation_byte, valid_utf8, valid_utf8_concat,
};
use crate::utils::sequence::{joined, lemma_joined_concat, lemma_joined_take};
use crate::file_system::utf8::{
    decode_utf8_prefix, lemma_first_char, lemma_invalid_tail, lemma_rest_is_invalid,
    lemma_valid_prefix_len, lemma_valid_suffix, valid_prefix_len,
};

verus! {

/// The line feed byte.
pub const LINE_FEED: u8 = 0x0A;

/// How many bytes the whole-buffer counter decodes at a time. It is small so
/// that a binary file is given up after its first chunk.
pub const CHUNK_SIZE: usize = 128;

/// Number of line feeds in `bytes`.
pub open spec fn newline_count(bytes: Seq<u8>) -> nat
    decreases bytes.len(),
{
    if bytes.len() == 0 {
        0
    } else {
        newline_count(bytes.drop_last()) + if bytes.last() == LINE_FEED {
            1nat
        } else {
            0nat
        }
    }
}

/// The last line of `bytes` is not ended by a line feed.
pub open spec fn ends_in_open_line(bytes: Seq<u8>) -> bool {
    bytes.len() > 0 && bytes.last() != LINE_FEED
}

/// `bytes` is text: valid UTF-8 without a NUL byte.
pub open spec fn is_text(bytes: Seq<u8>) -> bool {
    valid_utf8(bytes) && !bytes.contains(0u8)
}

/// Lines of a text: its line feeds, and one more for an open last line.
pub open spec fn text_line_count(bytes: Seq<u8>) -> nat {
    newline_count(bytes) + if ends_in_open_line(bytes) {
        1nat
    } else {
        0nat
    }
}

/// Lines of a file's content: those of the text, or 0 for binary content.
pub open spec fn line_count(bytes: Seq<u8>) -> nat {
    if is_text(bytes) {
        text_line_count(bytes)
    } else {
        0
    }
}

/// Number of line feeds in a text.
pub open spec fn line_feeds(text: Seq<char>) -> nat
    decreases text.len(),
{
    if text.len() == 0 {
        0
    } else {
        line_feeds(text.drop_first()) + if text[0] == '\n' {
            1nat
        } else {
            0nat
        }
    }
}

/// Lines of a text as its characters tell them: its line feeds, and one more
/// for a last line that no line feed ends.
pub open spec fn char_line_count(text: Seq<char>) -> nat {
    line_feeds(text) + if text.len() > 0 && text.last() != '\n' {
        1nat
    } else {
        0nat
    }
}

/// `n` as a `u64`, held at `u64::MAX` where it does not fit.
pub open spec fn saturated(n: int) -> u64 {
    if n > u64::MAX {
        u64::MAX
    } else {
        n as u64
    }
}

/// Line feeds add up over concatenation.
pub proof fn lemma_newline_count_concat(head: Seq<u8>, tail: Seq<u8>)
    ensures
        newline_count(head + tail) == newline_count(head) + newline_count(tail),
    decreases tail.len(),
{
    if tail.len() == 0 {
        assert(head + tail =~= head);
    } else {
        lemma_newline_count_concat(head, tail.drop_last());
        assert((head + tail).drop_last() =~= head + tail.drop_last());
    }
}

/// There are no more line feeds than bytes, and fewer where the last byte is
/// none.
pub proof fn lemma_newline_count_bound(bytes: Seq<u8>)
    ensures
        newline_count(bytes) <= bytes.len(),
        ends_in_open_line(bytes) ==> newline_count(bytes) < bytes.len(),
    decreases bytes.len(),
{
    if bytes.len() > 0 {
        lemma_newline_count_bound(bytes.drop_last());
    }
}

proof fn lemma_low_byte(scalar: u32)
    by (bit_vector)
    requires
        scalar <= 0x7f,
    ensures
        (scalar & 0x7f) as u8 == scalar,
{
}

proof fn lemma_high_byte(mark: u8, bits: u8)
    by (bit_vector)
    requires
        mark >= 0x80,
    ensures
        mark | bits >= 0x80,
{
}

/// Bytes of which none is a line feed count none.
proof fn lemma_no_line_feed(bytes: Seq<u8>)
    requires
        forall|i: int| 0 <= i < bytes.len() ==> bytes[i] != LINE_FEED,
    ensures
        newline_count(bytes) == 0,
    decreases bytes.len(),
{
    if bytes.len() > 0 {
        lemma_no_line_feed(bytes.drop_last());
    }
}

/// The encoding of one character holds a line feed byte exactly where the
/// character is a line feed, which is encoded as that one byte.
proof fn lemma_encoded_char(c: char)
    ensures
        encode_scalar(c as u32).len() > 0,
        newline_count(encode_scalar(c as u32)) == if c == '\n' {
            1nat
        } else {
            0nat
        },
        encode_scalar(c as u32).last() == LINE_FEED <==> c == '\n',
{
    let scalar = c as u32;
    let bytes = encode_scalar(scalar);
    char_is_scalar(c);
    char_u32_cast(c, scalar);
    char_u32_cast('\n', 10u32);
    assert(c == '\n' <==> scalar == 10u32);
    let lead2 = ((scalar >> 6) & 0x1F) as u8;
    let lead3 = ((scalar >> 12) & 0x0F) as u8;
    let lead4 = ((scalar >> 18) & 0x7) as u8;
    let last = (scalar & 0x3F) as u8;
    let second_last = ((scalar >> 6) & 0x3F) as u8;
    let third_last = ((scalar >> 12) & 0x3F) as u8;
    lemma_high_byte(0xC0, lead2);
    lemma_high_byte(0xE0, lead3);
    lemma_high_byte(0xF0, lead4);
    lemma_high_byte(0x80, last);
    lemma_high_byte(0x80, second_last);
    lemma_high_byte(0x80, third_last);
    if has_width_1_encoding(scalar) {
        lemma_low_byte(scalar);
        assert(bytes =~= seq![leading_byte_width_1(scalar)]);
        assert(bytes.len() == 1);
        assert(bytes.drop_last() =~= Seq::<u8>::empty());
        assert(newline_count(Seq::<u8>::empty()) == 0);
        assert(bytes.last() == scalar);
    } else if has_width_2_encoding(scalar) {
        assert(bytes =~= seq![leading_byte_width_2(scalar), last_continuation_byte(scalar)]);
        assert(bytes.len() == 2);
        lemma_no_line_feed(bytes);
    } else if has_width_3_encoding(scalar) {
        assert(bytes =~= seq![
            leading_byte_width_3(scalar),
            second_last_continuation_byte(scalar),
            last_continuation_byte(scalar),
        ]);
        assert(bytes.len() == 3);
        lemma_no_line_feed(bytes);
    } else {
        assert(bytes =~= seq![
            leading_byte_width_4(scalar),
            third_last_continuation_byte(scalar),
            second_last_continuation_byte(scalar),
            last_continuation_byte(scalar),
        ]);
        assert(bytes.len() == 4);
        lemma_no_line_feed(bytes);
    }
}

/// A text has as many line feeds as its UTF-8 encoding has line feed bytes,
/// and ends in a line feed exactly where the encoding ends in that byte.
pub proof fn lemma_encoded_line_feeds(text: Seq<char>)
    ensures
        newline_count(encode_utf8(text)) == line_feeds(text),
        encode_utf8(text).len() > 0 <==> text.len() > 0,
        text.len() > 0 ==> (encode_utf8(text).last() == LINE_FEED <==> text.last() == '\n'),
    decreases text.len(),
{
    if text.len() > 0 {
        let first = encode_scalar(text[0] as u32);
        let rest = text.drop_first();
        lemma_encoded_char(text[0]);
        lemma_encoded_line_feeds(rest);
        lemma_newline_count_concat(first, encode_utf8(rest));
        if rest.len() == 0 {
            assert(first + encode_utf8(rest) =~= first);
        } else {
            assert(text.last() == rest.last());
        }
    }
}

/// The lines counted over the bytes of valid UTF-8 are the lines of the text
/// that the bytes encode.
pub proof fn lemma_lines_of_the_text(bytes: Seq<u8>)
    requires
        valid_utf8(bytes),
    ensures
        text_line_count(bytes) == char_line_count(decode_utf8(bytes)),
{
    decode_utf8_encode_utf8(bytes);
    lemma_encoded_line_feeds(decode_utf8(bytes));
}

/// Counts the line feeds in `bytes`.
pub fn count_newlines(bytes: &[u8]) -> (count: usize)
    ensures
        count == newline_count(bytes@),
{
    let mut count: usize = 0;
    let mut i: usize = 0;
    while i < bytes.len()
        invariant
            i <= bytes.len(),
            count == newline_count(bytes@.subrange(0, i as int)),
            count <= i,
        decreases bytes.len() - i,
    {
        proof {
            let next = bytes@.subrange(0, i + 1);
            assert(next.drop_last() =~= bytes@.subrange(0, i as int));
        }
        if bytes[i] == LINE_FEED {
            count = count + 1;
        }
        i = i + 1;
    }
    proof {
        assert(bytes@.subrange(0, i as int) =~= bytes@);
    }
    count
}

/// Tells whether `bytes` holds a NUL byte.
pub fn contains_nul(bytes: &[u8]) -> (found: bool)
    ensures
        found == bytes@.contains(0u8),
{
    let mut i: usize = 0;
    while i < bytes.len()
        invariant
            i <= bytes.len(),
            forall|j: int| 0 <= j < i ==> bytes@[j] != 0u8,
        decreases bytes.len() - i,
    {
        if bytes[i] == 0 {
            return true;
        }
        i = i + 1;
    }
    false
}

/// What a `LineCounter` remembers between chunks.
pub struct CounterState {
    /// Bytes at the end of what was fed that have not decoded yet.
    pub leftover: Seq<u8>,
    /// Line feeds in what has decoded.
    pub newlines: u64,
    /// What has decoded is not empty and does not end in a line feed.
    pub open_line: bool,
    /// The content was judged binary.
    pub binary: bool,
}

/// The state before any chunk.
pub open spec fn initial_state() -> CounterState {
    CounterState { leftover: Seq::empty(), newlines: 0, open_line: false, binary: false }
}

/// The state that has judged the content binary.
pub open spec fn binary_state() -> CounterState {
    CounterState { leftover: Seq::empty(), newlines: 0, open_line: false, binary: true }
}

/// The state after one more chunk.
///
/// An empty chunk changes nothing, and nothing changes a binary verdict. A
/// chunk with a NUL byte is binary at once. Otherwise the chunk is decoded
/// behind the leftover bytes: if not even one byte decodes the content is
/// binary; else the line feeds of what decoded are counted and the rest is
/// kept for the next chunk.
pub open spec fn fed(state: CounterState, chunk: Seq<u8>) -> CounterState {
    if state.binary || chunk.len() == 0 {
        state
    } else if chunk.contains(0u8) {
        binary_state()
    } else {
        let buffer = state.leftover + chunk;
        let k = valid_prefix_len(buffer) as int;
        if k == 0 {
            binary_state()
        } else {
            CounterState {
                leftover: buffer.subrange(k, buffer.len() as int),
                newlines: saturated(state.newlines + newline_count(buffer.subrange(0, k))),
                open_line: buffer[k - 1] != LINE_FEED,
                binary: false,
            }
        }
    }
}

/// The count at the end of the stream: 0 for binary content and where bytes
/// are left that never decoded, else the line feeds and one more for an open
/// last line. A count that a `u64` does not hold stays at the largest `u64`.
pub open spec fn outcome(state: CounterState) -> u64 {
    if state.binary || state.leftover.len() > 0 {
        0
    } else {
        saturated(
            state.newlines + if state.open_line {
                1int
            } else {
                0int
            },
        )
    }
}

/// Counts the lines of a stream that arrives in chunks.
pub struct LineCounter {
    leftover: Vec<u8>,
    newlines: u64,
    open_line: bool,
    binary: bool,
}

impl View for LineCounter {
    type V = CounterState;

    closed spec fn view(&self) -> CounterState {
        CounterState {
            leftover: self.leftover@,
            newlines: self.newlines,
            open_line: self.open_line,
            binary: self.binary,
        }
    }
}

impl LineCounter {
    /// A counter that has seen nothing.
    pub fn new() -> (counter: Self)
        ensures
            counter@ == initial_state(),
    {
        LineCounter { leftover: Vec::new(), newlines: 0, open_line: false, binary: false }
    }

    /// Whether the content was judged binary. No later chunk changes that, so
    /// a reader may stop at once.
    pub fn is_binary(&self) -> (binary: bool)
        ensures
            binary == self@.binary,
    {
        self.binary
    }

    fn give_up(&mut self)
        ensures
            final(self)@ == binary_state(),
    {
        self.leftover = Vec::new();
        self.newlines = 0;
        self.open_line = false;
        self.binary = true;
    }

    /// Takes the next chunk of the stream.
    pub fn feed(&mut self, chunk: &[u8])
        ensures
            final(self)@ == fed(old(self)@, chunk@),
    {
        if self.binary || chunk.len() == 0 {
            return ;
        }
        if contains_nul(chunk) {
            self.give_up();
            return ;
        }
        let mut buffer: Vec<u8> = Vec::new();
        core::mem::swap(&mut buffer, &mut self.leftover);
        let ghost before = buffer@;
        let mut i: usize = 0;
        while i < chunk.len()
            invariant
                i <= chunk.len(),
                buffer@ == before + chunk@.subrange(0, i as int),
            decreases chunk.len() - i,
        {
            buffer.push(chunk[i]);
            i = i + 1;
            assert(buffer@ =~= before + chunk@.subrange(0, i as int));
        }
        assert(buffer@ =~= before + chunk@);
        let k: usize = match decode_utf8_prefix(buffer.as_slice()) {
            Ok(_) => buffer.len(),
            Err(k) => k,
        };
        proof {
            lemma_valid_prefix_len(buffer@);
            if valid_utf8(buffer@) {
                assert(buffer@.subrange(0, buffer@.len() as int) =~= buffer@);
            }
            assert(k == valid_prefix_len(buffer@));
        }
        if k == 0 {
            self.give_up();
            return ;
        }
        let rest = buffer.split_off(k);
        let counted = count_newlines(buffer.as_slice());
        self.newlines = self.newlines.saturating_add(counted as u64);
        self.open_line = buffer[k - 1] != LINE_FEED;
        self.leftover = rest;
    }

    /// The line count, once the stream has ended.
    pub fn finish(&self) -> (lines: u64)
        ensures
            lines == outcome(self@),
    {
        if self.binary || self.leftover.len() > 0 {
            0
        } else if self.open_line {
            self.newlines.saturating_add(1)
        } else {
            self.newlines
        }
    }
}

/// `state` has kept up with the part `done` of the content `whole`: either it
/// has judged the content binary, and `whole` is no text; or `done` splits
/// into a decoded part, which is valid UTF-8 and whose line feeds are counted,
/// and the leftover bytes, and no NUL byte was seen.
pub open spec fn keeps_up(state: CounterState, done: Seq<u8>, whole: Seq<u8>) -> bool {
    if state.binary {
        !is_text(whole)
    } else {
        let cut = done.len() - state.leftover.len();
        &&& cut >= 0
        &&& done.subrange(cut, done.len() as int) == state.leftover
        &&& valid_utf8(done.subrange(0, cut))
        &&& !done.contains(0u8)
        &&& state.newlines == newline_count(done.subrange(0, cut))
        &&& state.open_line == ends_in_open_line(done.subrange(0, cut))
        &&& (state.leftover.len() > 0 ==> !valid_utf8(state.leftover))
    }
}

/// A fresh counter has kept up with the empty start of any content.
pub proof fn lemma_initial_keeps_up(whole: Seq<u8>)
    ensures
        keeps_up(initial_state(), Seq::empty(), whole),
{
    let done = Seq::<u8>::empty();
    assert(done.subrange(0, 0) =~= done);
}

/// One chunk more keeps a counter up with the content, where the chunk has at
/// least four bytes or is the last one: a chunk that long always holds the
/// end of the character that the leftover bytes began.
pub proof fn lemma_fed_keeps_up(state: CounterState, done: Seq<u8>, chunk: Seq<u8>, rest: Seq<u8>)
    requires
        keeps_up(state, done, done + chunk + rest),
        chunk.len() >= 4 || rest.len() == 0,
        done.len() + chunk.len() <= u64::MAX,
    ensures
        keeps_up(fed(state, chunk), done + chunk, done + chunk + rest),
{
    let whole = done + chunk + rest;
    let next = fed(state, chunk);
    if state.binary {
    } else if chunk.len() == 0 {
        assert(done + chunk =~= done);
    } else if chunk.contains(0u8) {
        let i = choose|i: int| 0 <= i < chunk.len() && chunk[i] == 0u8;
        assert(whole[done.len() + i] == 0u8);
    } else {
        let cut = done.len() - state.leftover.len();
        let decoded = done.subrange(0, cut);
        let buffer = state.leftover + chunk;
        let k = valid_prefix_len(buffer) as int;
        lemma_valid_prefix_len(buffer);
        assert(done =~= decoded + state.leftover);
        assert(whole =~= decoded + (buffer + rest));
        if k == 0 {
            if valid_utf8(whole) {
                lemma_valid_suffix(decoded, buffer + rest);
                lemma_first_char(buffer + rest);
                let width = length_of_first_scalar(buffer + rest);
                if width <= buffer.len() {
                    assert((buffer + rest).subrange(0, width) =~= buffer.subrange(0, width));
                } else {
                    assert(buffer + rest =~= buffer);
                    assert(buffer.subrange(0, buffer.len() as int) =~= buffer);
                }
            }
        } else {
            let now = done + chunk;
            let taken = buffer.subrange(0, k);
            let left = buffer.subrange(k, buffer.len() as int);
            let new_cut = now.len() - left.len();
            assert(now =~= decoded + buffer);
            assert(now.subrange(new_cut, now.len() as int) =~= left);
            assert(now.subrange(0, new_cut) =~= decoded + taken);
            valid_utf8_concat(decoded, taken);
            assert(!now.contains(0u8)) by {
                if now.contains(0u8) {
                    let i = choose|i: int| 0 <= i < now.len() && now[i] == 0u8;
                    if i < done.len() {
                        assert(done[i] == 0u8);
                    } else {
                        assert(chunk[i - done.len()] == 0u8);
                    }
                }
            }
            lemma_newline_count_concat(decoded, taken);
            lemma_newline_count_bound(decoded + taken);
            assert((decoded + taken).last() == buffer[k - 1]);
            lemma_rest_is_invalid(buffer);
        }
    }
}

/// A counter that has kept up with the whole content ends on its line count.
pub proof fn lemma_outcome_is_line_count(state: CounterState, whole: Seq<u8>)
    requires
        keeps_up(state, whole, whole),
        whole.len() <= u64::MAX,
    ensures
        outcome(state) == line_count(whole),
{
    if !state.binary {
        let cut = whole.len() - state.leftover.len();
        let decoded = whole.subrange(0, cut);
        assert(whole =~= decoded + state.leftover);
        if state.leftover.len() > 0 {
            lemma_invalid_tail(decoded, state.leftover);
        } else {
            assert(decoded =~= whole);
            lemma_newline_count_bound(whole);
        }
    }
}

/// The state after each of `chunks` in turn.
pub open spec fn fed_all(state: CounterState, chunks: Seq<Seq<u8>>) -> CounterState
    decreases chunks.len(),
{
    if chunks.len() == 0 {
        state
    } else {
        fed(fed_all(state, chunks.drop_last()), chunks.last())
    }
}

/// A counter keeps up with a content that arrives in chunks of at least four
/// bytes each, but for the last.
proof fn lemma_fed_all_keeps_up(chunks: Seq<Seq<u8>>, n: int)
    requires
        0 <= n <= chunks.len(),
        forall|i: int| 0 <= i < chunks.len() - 1 ==> (#[trigger] chunks[i]).len() >= 4,
        joined(chunks).len() <= u64::MAX,
    ensures
        keeps_up(fed_all(initial_state(), chunks.take(n)), joined(chunks.take(n)), joined(chunks)),
    decreases n,
{
    if n == 0 {
        assert(chunks.take(0) =~= Seq::<Seq<u8>>::empty());
        lemma_initial_keeps_up(joined(chunks));
    } else {
        lemma_fed_all_keeps_up(chunks, n - 1);
        let done = joined(chunks.take(n - 1));
        let chunk = chunks[n - 1];
        let rest = joined(chunks.skip(n));
        lemma_joined_take(chunks, n - 1);
        lemma_joined_concat(chunks.take(n), chunks.skip(n));
        assert(chunks.take(n) + chunks.skip(n) =~= chunks);
        assert(chunks.take(n).drop_last() =~= chunks.take(n - 1));
        if n == chunks.len() {
            assert(chunks.skip(n) =~= Seq::<Seq<u8>>::empty());
        }
        lemma_fed_keeps_up(fed_all(initial_state(), chunks.take(n - 1)), done, chunk, rest);
    }
}

/// However a content is cut into chunks of at least four bytes each, but for
/// the last, a counter that is fed the chunks in turn ends on the line count
/// of the content: that of the text, or 0 where a NUL byte or a sequence
/// that is no UTF-8 stands anywhere in it.
pub proof fn lemma_chunked_count(chunks: Seq<Seq<u8>>)
    requires
        forall|i: int| 0 <= i < chunks.len() - 1 ==> (#[trigger] chunks[i]).len() >= 4,
        joined(chunks).len() <= u64::MAX,
    ensures
        outcome(fed_all(initial_state(), chunks)) == line_count(joined(chunks)),
{
    lemma_fed_all_keeps_up(chunks, chunks.len() as int);
    assert(chunks.take(chunks.len() as int) =~= chunks);
    lemma_outcome_is_line_count(fed_all(initial_state(), chunks), joined(chunks));
}

/// The bytes that a counter keeps for the next chunk never decode on their
/// own, however the stream was cut: they begin where decoding stopped. So a
/// stream that ends with bytes left over is no UTF-8.
pub proof fn lemma_leftover_never_decodes(chunks: Seq<Seq<u8>>)
    ensures
        fed_all(initial_state(), chunks).leftover.len() > 0 ==> !valid_utf8(
            fed_all(initial_state(), chunks).leftover,
        ),
    decreases chunks.len(),
{
    if chunks.len() > 0 {
        lemma_leftover_never_decodes(chunks.drop_last());
        let before = fed_all(initial_state(), chunks.drop_last());
        let buffer = before.leftover + chunks.last();
        lemma_rest_is_invalid(buffer);
        lemma_valid_prefix_len(buffer);
        assert(fed_all(initial_state(), chunks) == fed(before, chunks.last()));
    } else {
        assert(initial_state().leftover.len() == 0);
    }
}

/// Counts the lines of a file's whole content, decoding `CHUNK_SIZE` bytes at
/// a time. Text gets its line count, and anything with a NUL byte or a byte
/// sequence that is not UTF-8 anywhere gets 0, whatever text comes before it.
pub fn count_lines(bytes: &[u8]) -> (lines: u64)
    ensures
        lines == line_count(bytes@),
        is_text(bytes@) ==> lines == char_line_count(decode_utf8(bytes@)),
        !valid_utf8(bytes@) || bytes@.contains(0u8) ==> lines == 0,
{
    proof {
        if valid_utf8(bytes@) {
            lemma_lines_of_the_text(bytes@);
        }
    }
    let mut counter = LineCounter::new();
    let mut pos: usize = 0;
    proof {
        lemma_initial_keeps_up(bytes@);
        assert(bytes@.subrange(0, 0) =~= Seq::<u8>::empty());
    }
    while pos < bytes.len()
        invariant
            pos <= bytes.len(),
            keeps_up(counter@, bytes@.subrange(0, pos as int), bytes@),
        decreases bytes.len() - pos,
    {
        let end: usize = if bytes.len() - pos > CHUNK_SIZE {
            pos + CHUNK_SIZE
        } else {
            bytes.len()
        };
        let chunk = &bytes[pos..end];
        proof {
            let done = bytes@.subrange(0, pos as int);
            let rest = bytes@.subrange(end as int, bytes@.len() as int);
            assert(done + chunk@ + rest =~= bytes@);
            assert(done + chunk@ =~= bytes@.subrange(0, end as int));
            lemma_fed_keeps_up(counter@, done, chunk@, rest);
        }
        counter.feed(chunk);
        pos = end;
    }
    proof {
        assert(bytes@.subrange(0, pos as int) =~= bytes@);
        lemma_outcome_is_line_count(counter@, bytes@);
    }
    counter.finish()
}

} // verus!
