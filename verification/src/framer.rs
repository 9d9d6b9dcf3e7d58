//! The line framer: from chunks of a byte stream to newline-delimited lines.

use crate::text::{chunk_text, decode_chunk, lemma_decode_utf8_concat};
use vstd::prelude::*;
use vstd::utf8::{decode_utf8, valid_utf8};

verus! {

/// The position of the first line feed in `text`; its length where it
/// holds none.
pub open spec fn first_newline(text: Seq<char>) -> nat
    decreases text.len(),
{
    if text.len() == 0 || text[0] == '\n' {
        0
    } else {
        1 + first_newline(text.skip(1))
    }
}

/// `line` without one trailing carriage return, if it ends in one.
pub open spec fn strip_cr(line: Seq<char>) -> Seq<char> {
    if line.len() > 0 && line.last() == '\r' {
        line.drop_last()
    } else {
        line
    }
}

/// The lines that `text` completes: each stretch up to a line feed, in
/// order, without the line feed and without one carriage return before it.
pub open spec fn complete_lines(text: Seq<char>) -> Seq<Seq<char>>
    decreases text.len(),
{
    let cut = first_newline(text) as int;
    if cut >= text.len() {
        Seq::empty()
    } else {
        seq![strip_cr(text.take(cut))] + complete_lines(text.skip(cut + 1))
    }
}

/// What follows the last line feed of `text`: the part no line feed has
/// completed yet.
pub open spec fn remainder(text: Seq<char>) -> Seq<char>
    decreases text.len(),
{
    let cut = first_newline(text) as int;
    if cut >= text.len() {
        text
    } else {
        remainder(text.skip(cut + 1))
    }
}

/// Whether `text` holds no line feed, as what a framer keeps buffered does.
pub open spec fn unterminated(text: Seq<char>) -> bool {
    first_newline(text) == text.len()
}

/// The lines that come out when the texts of `chunks` are pushed one after
/// another into a framer that holds `buffer`.
pub open spec fn lines_of_chunks(buffer: Seq<char>, chunks: Seq<Seq<char>>) -> Seq<Seq<char>>
    decreases chunks.len(),
{
    if chunks.len() == 0 {
        Seq::empty()
    } else {
        complete_lines(buffer + chunks[0]) + lines_of_chunks(
            remainder(buffer + chunks[0]),
            chunks.skip(1),
        )
    }
}

/// What a framer that held `buffer` holds after the texts of `chunks` were
/// pushed one after another.
pub open spec fn buffer_after_chunks(buffer: Seq<char>, chunks: Seq<Seq<char>>) -> Seq<char>
    decreases chunks.len(),
{
    if chunks.len() == 0 {
        buffer
    } else {
        buffer_after_chunks(remainder(buffer + chunks[0]), chunks.skip(1))
    }
}

/// All the texts of `chunks`, joined in order.
pub open spec fn joined(chunks: Seq<Seq<char>>) -> Seq<char>
    decreases chunks.len(),
{
    if chunks.len() == 0 {
        Seq::empty()
    } else {
        chunks[0] + joined(chunks.skip(1))
    }
}

/// All the bytes of `chunks`, joined in order.
pub open spec fn joined_bytes(chunks: Seq<Seq<u8>>) -> Seq<u8>
    decreases chunks.len(),
{
    if chunks.len() == 0 {
        Seq::empty()
    } else {
        chunks[0] + joined_bytes(chunks.skip(1))
    }
}

/// The text of each chunk, decoded by itself.
pub open spec fn decoded(chunks: Seq<Seq<u8>>) -> Seq<Seq<char>> {
    Seq::new(chunks.len(), |i: int| chunk_text(chunks[i]))
}

/// The first line feed lies within the text, or at its end where there is
/// none; nothing before it is a line feed.
pub proof fn lemma_first_newline(text: Seq<char>)
    ensures
        first_newline(text) <= text.len(),
        first_newline(text) < text.len() ==> text[first_newline(text) as int] == '\n',
        forall|i: int| 0 <= i < first_newline(text) ==> text[i] != '\n',
    decreases text.len(),
{
    if text.len() == 0 || text[0] == '\n' {
    } else {
        let tail = text.skip(1);
        lemma_first_newline(tail);
        assert forall|i: int| 0 <= i < first_newline(text) implies text[i] != '\n' by {
            if i > 0 {
                assert(text[i] == tail[i - 1]);
            }
        }
    }
}

/// A position that holds a line feed, with none before it, is the first.
pub proof fn lemma_first_newline_at(text: Seq<char>, cut: int)
    requires
        0 <= cut <= text.len(),
        cut < text.len() ==> text[cut] == '\n',
        forall|i: int| 0 <= i < cut ==> text[i] != '\n',
    ensures
        first_newline(text) == cut,
    decreases text.len(),
{
    if cut == 0 {
    } else {
        let tail = text.skip(1);
        assert forall|i: int| 0 <= i < cut - 1 implies tail[i] != '\n' by {
            assert(tail[i] == text[i + 1]);
        }
        lemma_first_newline_at(tail, cut - 1);
    }
}

/// What stays buffered holds no line feed.
pub proof fn lemma_remainder_has_no_newline(text: Seq<char>)
    ensures
        first_newline(remainder(text)) == remainder(text).len(),
        complete_lines(remainder(text)) == Seq::<Seq<char>>::empty(),
        remainder(remainder(text)) == remainder(text),
    decreases text.len(),
{
    lemma_first_newline(text);
    let cut = first_newline(text) as int;
    if cut < text.len() {
        lemma_remainder_has_no_newline(text.skip(cut + 1));
    }
}

/// Framing a text in two parts: the lines of the whole are the lines of the
/// first part, then the lines of what the first part left over followed by
/// the second part; and the same text stays buffered either way.
pub proof fn lemma_split(head: Seq<char>, tail: Seq<char>)
    ensures
        complete_lines(head + tail) == complete_lines(head) + complete_lines(
            remainder(head) + tail,
        ),
        remainder(head + tail) == remainder(remainder(head) + tail),
    decreases head.len(),
{
    lemma_first_newline(head);
    let cut = first_newline(head) as int;
    if cut >= head.len() {
        assert(complete_lines(head) + complete_lines(head + tail) =~= complete_lines(
            head + tail,
        ));
    } else {
        let whole = head + tail;
        assert forall|i: int| 0 <= i < cut implies whole[i] != '\n' by {
            assert(whole[i] == head[i]);
        }
        assert(whole[cut] == head[cut]);
        lemma_first_newline_at(whole, cut);
        assert(whole.take(cut) =~= head.take(cut));
        assert(whole.skip(cut + 1) =~= head.skip(cut + 1) + tail);
        lemma_split(head.skip(cut + 1), tail);
        let first = seq![strip_cr(head.take(cut))];
        assert(first + (complete_lines(head.skip(cut + 1)) + complete_lines(
            remainder(head) + tail,
        )) =~= (first + complete_lines(head.skip(cut + 1))) + complete_lines(
            remainder(head) + tail,
        ));
    }
}

/// Framing a text that grew by one character: a line feed completes what
/// was buffered, anything else joins it.
pub proof fn lemma_push_char(text: Seq<char>, c: char)
    ensures
        c == '\n' ==> complete_lines(text.push(c)) == complete_lines(text).push(
            strip_cr(remainder(text)),
        ) && remainder(text.push(c)) == Seq::<char>::empty(),
        c != '\n' ==> complete_lines(text.push(c)) == complete_lines(text) && remainder(
            text.push(c),
        ) == remainder(text).push(c),
{
    let rest = remainder(text);
    let last = rest + seq![c];
    lemma_split(text, seq![c]);
    lemma_remainder_has_no_newline(text);
    lemma_first_newline(rest);
    assert(text.push(c) =~= text + seq![c]);
    assert forall|i: int| 0 <= i < rest.len() implies last[i] != '\n' by {
        assert(last[i] == rest[i]);
    }
    if c == '\n' {
        lemma_first_newline_at(last, rest.len() as int);
        assert(last.take(rest.len() as int) =~= rest);
        assert(last.skip(rest.len() as int + 1) =~= Seq::<char>::empty());
        assert(complete_lines(Seq::<char>::empty()) =~= Seq::<Seq<char>>::empty());
        assert(remainder(Seq::<char>::empty()) =~= Seq::<char>::empty());
        assert(complete_lines(last) =~= seq![strip_cr(rest)]);
        assert(complete_lines(text) + seq![strip_cr(rest)] =~= complete_lines(text).push(
            strip_cr(rest),
        ));
    } else {
        lemma_first_newline_at(last, last.len() as int);
        assert(last =~= rest.push(c));
        assert(complete_lines(text) + complete_lines(last) =~= complete_lines(text));
    }
}

/// Splitting a text into chunks does not change its framing: pushing the
/// chunks one after another into a framer yields the lines, and leaves the
/// buffer, that pushing their concatenation as one chunk does.
pub proof fn lemma_chunking_is_invisible(buffer: Seq<char>, chunks: Seq<Seq<char>>)
    requires
        unterminated(buffer),
    ensures
        lines_of_chunks(buffer, chunks) == complete_lines(buffer + joined(chunks)),
        buffer_after_chunks(buffer, chunks) == remainder(buffer + joined(chunks)),
    decreases chunks.len(),
{
    if chunks.len() == 0 {
        assert(buffer + joined(chunks) =~= buffer);
    } else {
        let first = buffer + chunks[0];
        let rest = chunks.skip(1);
        lemma_remainder_has_no_newline(first);
        lemma_chunking_is_invisible(remainder(first), rest);
        lemma_split(first, joined(rest));
        assert(first + joined(rest) =~= buffer + joined(chunks));
    }
}

/// The same of a byte stream, where the cuts leave the text alone. A chunk
/// is decoded by itself, so a cut inside a character shows in the text:
/// each part of the character is replaced on its own. For every way of
/// cutting that gives the chunks, together, the text of the whole stream,
/// pushing the chunks one after another yields the lines, and leaves the
/// buffer, that pushing the whole stream as one chunk does.
pub proof fn lemma_byte_chunking_is_invisible(buffer: Seq<char>, chunks: Seq<Seq<u8>>)
    requires
        unterminated(buffer),
        chunk_text(joined_bytes(chunks)) == joined(decoded(chunks)),
    ensures
        lines_of_chunks(buffer, decoded(chunks)) == complete_lines(
            buffer + chunk_text(joined_bytes(chunks)),
        ),
        buffer_after_chunks(buffer, decoded(chunks)) == remainder(
            buffer + chunk_text(joined_bytes(chunks)),
        ),
{
    lemma_chunking_is_invisible(buffer, decoded(chunks));
}

/// Cuts between characters leave the text alone: where every chunk is
/// well-formed UTF-8 by itself, so is the whole stream, and the texts of
/// the chunks, joined, are its text.
pub proof fn lemma_whole_characters_decode_alike(chunks: Seq<Seq<u8>>)
    requires
        forall|i: int| 0 <= i < chunks.len() ==> valid_utf8(#[trigger] chunks[i]),
    ensures
        valid_utf8(joined_bytes(chunks)),
        chunk_text(joined_bytes(chunks)) == joined(decoded(chunks)),
    decreases chunks.len(),
{
    if chunks.len() == 0 {
        assert(decode_utf8(joined_bytes(chunks)) =~= joined(decoded(chunks)));
    } else {
        let rest = chunks.skip(1);
        assert forall|i: int| 0 <= i < rest.len() implies valid_utf8(#[trigger] rest[i]) by {
            assert(rest[i] == chunks[i + 1]);
        }
        lemma_whole_characters_decode_alike(rest);
        lemma_decode_utf8_concat(chunks[0], joined_bytes(rest));
        assert(decoded(chunks).skip(1) =~= decoded(rest));
    }
}

/// Turns the chunks of a byte stream into lines. What has arrived after
/// the last line feed is kept until a later chunk completes it.
///
/// The view is the text that is kept; it never holds a line feed.
pub struct LineFramer {
    buffer: String,
}

impl View for LineFramer {
    type V = Seq<char>;

    closed spec fn view(&self) -> Seq<char> {
        self.buffer@
    }
}

/// Removes one trailing carriage return from `line`, if it ends in one.
fn strip_trailing_cr(line: &mut String)
    ensures
        final(line)@ == strip_cr(old(line)@),
{
    match line.pop() {
        Some(last) => {
            if last != '\r' {
                line.push(last);
                assert(line@ =~= old(line)@);
            }
        },
        None => {},
    }
}

impl LineFramer {
    #[verifier::type_invariant]
    closed spec fn buffer_is_unterminated(&self) -> bool {
        unterminated(self.buffer@)
    }

    /// A framer that holds nothing.
    pub fn new() -> (framer: Self)
        ensures
            framer@ == Seq::<char>::empty(),
            unterminated(framer@),
    {
        LineFramer { buffer: String::new() }
    }

    /// The text that is kept for the next chunk to complete.
    pub fn pending(&self) -> (text: &str)
        ensures
            text@ == self@,
            unterminated(self@),
    {
        proof {
            use_type_invariant(self);
        }
        self.buffer.as_str()
    }

    /// Forgets what is kept.
    pub fn clear(&mut self)
        ensures
            final(self)@ == Seq::<char>::empty(),
    {
        self.buffer = String::new();
    }

    /// Takes the next chunk of the stream, decoded permissively, and
    /// returns the lines that it completes, in order. What follows the last
    /// line feed stays in the framer.
    pub fn push(&mut self, chunk: &[u8]) -> (lines: Vec<String>)
        ensures
            lines.deep_view() == complete_lines(old(self)@ + chunk_text(chunk@)),
            final(self)@ == remainder(old(self)@ + chunk_text(chunk@)),
            unterminated(final(self)@),
    {
        let text = decode_chunk(chunk);
        self.push_text(text.as_str())
    }

    /// Takes the next piece of the stream as text and returns the lines
    /// that it completes, in order. What follows the last line feed stays
    /// in the framer.
    pub fn push_text(&mut self, text: &str) -> (lines: Vec<String>)
        ensures
            lines.deep_view() == complete_lines(old(self)@ + text@),
            final(self)@ == remainder(old(self)@ + text@),
            unterminated(final(self)@),
    {
        broadcast use vstd::string::group_string_axioms;

        proof {
            use_type_invariant(&*self);
        }
        let mut lines: Vec<String> = Vec::new();
        let mut current = String::new();
        core::mem::swap(&mut self.buffer, &mut current);
        let ghost held = current@;
        assert(held + text@.take(0) =~= held);
        for c in it: text.chars()
            invariant
                it.seq() == text@,
                lines.deep_view() == complete_lines(held + text@.take(it.index() as int)),
                current@ == remainder(held + text@.take(it.index() as int)),
        {
            proof {
                let seen = held + text@.take(it.index() as int);
                lemma_push_char(seen, c);
                assert(seen.push(c) =~= held + text@.take(it.index() + 1));
            }
            if c == '\n' {
                strip_trailing_cr(&mut current);
                let ghost before = lines.deep_view();
                lines.push(current);
                assert(lines.deep_view() =~= before.push(current@));
                current = String::new();
            } else {
                current.push(c);
            }
        }
        assert(text@.take(text@.len() as int) =~= text@);
        proof {
            lemma_remainder_has_no_newline(held + text@);
        }
        self.buffer = current;
        lines
    }
}

} // verus!
