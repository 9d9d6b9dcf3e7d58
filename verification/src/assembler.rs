//! The event assembler: from framed lines to application messages.
//!
//! Only the `data:` field and the blank line that ends an event are
//! honoured. Every other line is left out of the event.

use crate::text::{is_white_space, push_chars_from, to_chars};
use vstd::prelude::*;

verus! {

/// The field name, colon included, that opens a payload line.
pub open spec fn data_prefix() -> Seq<char> {
    seq!['d', 'a', 't', 'a', ':']
}

/// Whether `line` opens with the field name `data:`.
pub open spec fn is_data_line(line: Seq<char>) -> bool {
    line.len() >= 5 && line.take(5) == data_prefix()
}

/// `text` without the white space that it opens with.
pub open spec fn trim_leading(text: Seq<char>) -> Seq<char>
    decreases text.len(),
{
    if text.len() > 0 && is_white_space(text[0]) {
        trim_leading(text.skip(1))
    } else {
        text
    }
}

/// The payload that a `data:` line carries: what follows the field name,
/// without leading white space.
pub open spec fn payload(line: Seq<char>) -> Seq<char> {
    trim_leading(line.skip(5))
}

/// The accumulator after one more payload: an empty payload changes
/// nothing, and payloads are joined by a line feed.
pub open spec fn accumulate(pending: Seq<char>, data: Seq<char>) -> Seq<char> {
    if data.len() == 0 {
        pending
    } else if pending.len() == 0 {
        data
    } else {
        pending + seq!['\n'] + data
    }
}

/// The accumulator after `line` was fed to an assembler that held
/// `pending`.
pub open spec fn pending_after(pending: Seq<char>, line: Seq<char>) -> Seq<char> {
    if is_data_line(line) {
        accumulate(pending, payload(line))
    } else if line.len() == 0 {
        Seq::empty()
    } else {
        pending
    }
}

/// The message, if any, that feeding `line` to an assembler that held
/// `pending` completes: a blank line completes a non-empty accumulator.
pub open spec fn message_on(pending: Seq<char>, line: Seq<char>) -> Option<Seq<char>> {
    if line.len() == 0 && pending.len() > 0 {
        Some(pending)
    } else {
        None
    }
}

/// The accumulator after `lines` were fed in order.
pub open spec fn pending_after_lines(pending: Seq<char>, lines: Seq<Seq<char>>) -> Seq<char>
    decreases lines.len(),
{
    if lines.len() == 0 {
        pending
    } else {
        pending_after(pending_after_lines(pending, lines.drop_last()), lines.last())
    }
}

/// The messages that feeding `lines` in order completes, in order.
pub open spec fn messages_of_lines(pending: Seq<char>, lines: Seq<Seq<char>>) -> Seq<Seq<char>>
    decreases lines.len(),
{
    if lines.len() == 0 {
        Seq::empty()
    } else {
        let earlier = messages_of_lines(pending, lines.drop_last());
        match message_on(pending_after_lines(pending, lines.drop_last()), lines.last()) {
            Some(message) => earlier.push(message),
            None => earlier,
        }
    }
}

/// Where the white space that opens `text[from..]` ends.
fn skip_white_space(text: &Vec<char>, from: usize) -> (at: usize)
    requires
        from <= text.len(),
    ensures
        from <= at <= text.len(),
        text@.skip(at as int) == trim_leading(text@.skip(from as int)),
{
    let mut at: usize = from;
    while at < text.len() && text[at].is_whitespace()
        invariant
            from <= at <= text.len(),
            trim_leading(text@.skip(at as int)) == trim_leading(text@.skip(from as int)),
        decreases text.len() - at,
    {
        assert(text@.skip(at as int)[0] == text@[at as int]);
        assert(text@.skip(at as int).skip(1) =~= text@.skip(at + 1));
        at += 1;
    }
    proof {
        if at < text.len() {
            assert(text@.skip(at as int)[0] == text@[at as int]);
        }
    }
    at
}

/// Whether `line` opens with the field name `data:`.
fn opens_with_data(line: &Vec<char>) -> (yes: bool)
    ensures
        yes == is_data_line(line@),
{
    if line.len() < 5 {
        return false;
    }
    let yes = line[0] == 'd' && line[1] == 'a' && line[2] == 't' && line[3] == 'a' && line[4]
        == ':';
    proof {
        let head = line@.take(5);
        if yes {
            assert(head =~= data_prefix());
        } else {
            assert(head[0] == line@[0] && head[1] == line@[1] && head[2] == line@[2] && head[3]
                == line@[3] && head[4] == line@[4]);
        }
    }
    yes
}

/// Assembles the payload lines of one event at a time.
///
/// The view is the accumulator: the payload lines received since the last
/// completed event, joined by line feeds.
pub struct EventAssembler {
    data: String,
}

impl View for EventAssembler {
    type V = Seq<char>;

    closed spec fn view(&self) -> Seq<char> {
        self.data@
    }
}

impl EventAssembler {
    /// An assembler with an empty accumulator.
    pub fn new() -> (assembler: Self)
        ensures
            assembler@ == Seq::<char>::empty(),
    {
        EventAssembler { data: String::new() }
    }

    /// The payload accumulated for the event that is being assembled.
    pub fn pending(&self) -> (text: &str)
        ensures
            text@ == self@,
    {
        self.data.as_str()
    }

    /// Whether no payload is waiting for its blank line.
    pub fn is_empty(&self) -> (empty: bool)
        ensures
            empty == (self@.len() == 0),
    {
        self.data.as_str().is_empty()
    }

    /// Takes the accumulated payload out, leaving the accumulator empty.
    pub fn take(&mut self) -> (text: String)
        ensures
            text@ == old(self)@,
            final(self)@ == Seq::<char>::empty(),
    {
        let mut text = String::new();
        core::mem::swap(&mut self.data, &mut text);
        text
    }

    /// Takes one framed line. A `data:` line adds its payload, unless the
    /// payload is empty; a blank line completes the event and returns its
    /// message, unless nothing was accumulated; any other line is ignored.
    pub fn feed(&mut self, line: &str) -> (message: Option<String>)
        ensures
            final(self)@ == pending_after(old(self)@, line@),
            match message {
                Some(text) => message_on(old(self)@, line@) == Some(text@),
                None => message_on(old(self)@, line@) is None,
            },
    {
        let chars = to_chars(line);
        if opens_with_data(&chars) {
            let start = skip_white_space(&chars, 5);
            if start < chars.len() {
                if !self.is_empty() {
                    self.data.push('\n');
                }
                push_chars_from(&mut self.data, &chars, start);
                assert(old(self)@.push('\n') =~= old(self)@ + seq!['\n']);
            }
            None
        } else if chars.len() == 0 {
            if self.is_empty() {
                assert(old(self)@ =~= Seq::<char>::empty());
                None
            } else {
                Some(self.take())
            }
        } else {
            None
        }
    }

    /// Takes framed lines in order and returns the messages that they
    /// complete, in order.
    pub fn feed_all(&mut self, lines: &Vec<String>) -> (messages: Vec<String>)
        ensures
            final(self)@ == pending_after_lines(old(self)@, lines.deep_view()),
            messages.deep_view() == messages_of_lines(old(self)@, lines.deep_view()),
    {
        let ghost all = lines.deep_view();
        let mut messages: Vec<String> = Vec::new();
        let mut i: usize = 0;
        while i < lines.len()
            invariant
                i <= lines.len(),
                all == lines.deep_view(),
                self@ == pending_after_lines(old(self)@, all.take(i as int)),
                messages.deep_view() == messages_of_lines(old(self)@, all.take(i as int)),
            decreases lines.len() - i,
        {
            proof {
                let fed = all.take(i + 1);
                assert(fed.drop_last() =~= all.take(i as int));
                assert(fed.last() == lines[i as int]@);
            }
            let ghost before = messages.deep_view();
            match self.feed(lines[i].as_str()) {
                Some(message) => {
                    messages.push(message);
                    assert(messages.deep_view() =~= before.push(message@));
                },
                None => {},
            }
            i += 1;
        }
        assert(all.take(lines.len() as int) =~= all);
        messages
    }
}

} // verus!