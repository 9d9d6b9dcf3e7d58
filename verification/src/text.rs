//! Text primitives shared by the framer, the assembler and the driver.
//!
//! Text is modelled as `Seq<char>`, the view of `str` and `String`. The
//! standard-library calls that vstd does not specify are given their
//! contracts here; those contracts are believed, not proved.

use vstd::prelude::*;
use vstd::utf8::{
    decode_first_scalar, decode_utf8, pop_first_scalar, valid_utf8, valid_utf8_concat,
};

verus! {

/// The text that permissive UTF-8 decoding makes of `bytes`: every
/// well-formed sequence decoded, every malformed one replaced by U+FFFD.
pub uninterp spec fn lossy_decode(bytes: Seq<u8>) -> Seq<char>;

/// Whether `c` is white space as Unicode defines it (White_Space).
pub uninterp spec fn is_white_space(c: char) -> bool;

/// `String::push` appends the one character to the string.
pub assume_specification[ String::push ](s: &mut String, ch: char)
    ensures
        final(s)@ == old(s)@.push(ch),
;

/// `String::pop` removes the last character and returns it, or returns
/// `None` and leaves the string alone where it is empty.
pub assume_specification[ String::pop ](s: &mut String) -> (last: Option<char>)
    ensures
        old(s)@.len() == 0 ==> last is None && final(s)@ == old(s)@,
        old(s)@.len() > 0 ==> last == Some(old(s)@.last()) && final(s)@ == old(s)@.drop_last(),
;

/// `char::is_whitespace` tells whether the character is white space as
/// Unicode defines it; which characters are is left to the standard
/// library.
pub assume_specification[ char::is_whitespace ](c: char) -> (white: bool)
    ensures
        white == is_white_space(c),
;

/// `String::from_utf8_lossy`: the permissive decoding of `bytes`, as an
/// owned string. It never fails, and well-formed UTF-8 comes out as the
/// text that it encodes.
#[verifier::external_body]
fn decode_lossy(bytes: &[u8]) -> (text: String)
    ensures
        text@ == lossy_decode(bytes@),
        valid_utf8(bytes@) ==> text@ == decode_utf8(bytes@),
{
    String::from_utf8_lossy(bytes).into_owned()
}

/// The text of a chunk of the stream: what its bytes encode where they
/// are well-formed UTF-8, and their permissive decoding where they are
/// not.
pub open spec fn chunk_text(bytes: Seq<u8>) -> Seq<char> {
    if valid_utf8(bytes) {
        decode_utf8(bytes)
    } else {
        lossy_decode(bytes)
    }
}

/// Decodes a chunk of the stream. No chunk is refused.
pub fn decode_chunk(bytes: &[u8]) -> (text: String)
    ensures
        text@ == chunk_text(bytes@),
{
    decode_lossy(bytes)
}

/// Well-formed UTF-8 can be decoded piece by piece: the text of two
/// well-formed pieces, joined, is the text of the joined pieces.
pub proof fn lemma_decode_utf8_concat(head: Seq<u8>, tail: Seq<u8>)
    requires
        valid_utf8(head),
        valid_utf8(tail),
    ensures
        valid_utf8(head + tail),
        decode_utf8(head + tail) == decode_utf8(head) + decode_utf8(tail),
    decreases head.len(),
{
    valid_utf8_concat(head, tail);
    if head.len() == 0 {
        assert(head + tail =~= tail);
        assert(decode_utf8(head) + decode_utf8(tail) =~= decode_utf8(tail));
    } else {
        let rest = pop_first_scalar(head);
        assert(pop_first_scalar(head + tail) =~= rest + tail);
        lemma_decode_utf8_concat(rest, tail);
        assert(decode_first_scalar(head + tail) == decode_first_scalar(head));
        assert(decode_utf8(head + tail) =~= decode_utf8(head) + decode_utf8(tail));
    }
}

/// The characters of `s`, in order.
pub(crate) fn to_chars(s: &str) -> (chars: Vec<char>)
    ensures
        chars@ == s@,
{
    broadcast use vstd::string::group_string_axioms;

    let mut chars: Vec<char> = Vec::new();
    for c in it: s.chars()
        invariant
            it.seq() == s@,
            chars@ == it.seq().take(it.index() as int),
    {
        chars.push(c);
    }
    chars
}

/// Appends `chars[from..]` to `out`.
pub(crate) fn push_chars_from(out: &mut String, chars: &Vec<char>, from: usize)
    requires
        from <= chars.len(),
    ensures
        final(out)@ == old(out)@ + chars@.skip(from as int),
{
    let mut i: usize = from;
    while i < chars.len()
        invariant
            from <= i <= chars.len(),
            out@ == old(out)@ + chars@.subrange(from as int, i as int),
        decreases chars.len() - i,
    {
        out.push(chars[i]);
        i += 1;
    }
    assert(chars@.subrange(from as int, i as int) == chars@.skip(from as int));
}

/// The decimal digit for `d`, for `d` below ten.
pub open spec fn digit(d: nat) -> char {
    (d + 48) as char
}

/// The decimal notation of `n`, without leading zeros.
pub open spec fn decimal(n: nat) -> Seq<char>
    decreases n,
{
    if n < 10 {
        seq![digit(n)]
    } else {
        decimal(n / 10).push(digit(n % 10))
    }
}

/// The decimal notation of `n` as a string.
pub fn decimal_string(n: u64) -> (s: String)
    ensures
        s@ == decimal(n as nat),
{
    let mut reversed: Vec<char> = Vec::new();
    let mut rest: u64 = n;
    while rest >= 10
        invariant
            decimal(n as nat) == decimal(rest as nat) + reversed@.reverse(),
        decreases rest,
    {
        let d: u8 = (rest % 10) as u8;
        let c: char = (d + 48) as char;
        proof {
            let shorter = decimal((rest / 10) as nat);
            assert(c == digit((rest % 10) as nat));
            assert(decimal(rest as nat) == shorter.push(c));
            assert(reversed@.push(c).reverse() =~= seq![c] + reversed@.reverse());
            assert(shorter.push(c) + reversed@.reverse() =~= shorter + reversed@.push(c).reverse());
        }
        reversed.push(c);
        rest = rest / 10;
    }
    let mut s = String::new();
    s.push((rest as u8 + 48) as char);
    let mut i: usize = reversed.len();
    while i > 0
        invariant
            i <= reversed.len(),
            s@ == decimal(rest as nat) + reversed@.reverse().take(reversed.len() - i),
        decreases i,
    {
        i -= 1;
        s.push(reversed[i]);
        assert(reversed@.reverse().take(reversed.len() - i) =~= reversed@.reverse().take(
            reversed.len() - i - 1,
        ).push(reversed@[i as int]));
    }
    assert(reversed@.reverse().take(reversed.len() as int) =~= reversed@.reverse());
    s
}

} // verus!
