//! Incremental UTF-8 decoding of the shell's output stream.
//!
//! The pseudo-terminal hands over arbitrary byte chunks, so a multi-byte
//! character may be split across reads. The decoder consumes the stream
//! one byte at a time, keeping at most the three bytes of a still
//! incomplete character between calls; what it yields therefore depends
//! only on the concatenated byte stream, never on where the chunks were
//! cut. Bytes that cannot begin or continue any character (which a
//! well-behaved shell never produces) are dropped, so the carried state
//! can never grow past three bytes.
//!
//! The decoded characters are pinned to [`vstd::utf8::decode_utf8`]: on a
//! valid UTF-8 stream the decoder yields exactly that character sequence.

use vstd::prelude::*;

use vstd::utf8::decode_first_scalar;
use vstd::utf8::decode_utf8;
use vstd::utf8::valid_utf8;

verus! {

/// A UTF-8 continuation byte (any position after the first).
pub open spec fn is_cont(b: u8) -> bool {
    0x80 <= b <= 0xbf
}

/// The leading byte of a two-byte encoding (0xc0 and 0xc1 would only
/// start overlong encodings and never appear in valid UTF-8).
pub open spec fn is_lead_2(b: u8) -> bool {
    0xc2 <= b <= 0xdf
}

/// The leading byte of a three-byte encoding.
pub open spec fn is_lead_3(b: u8) -> bool {
    0xe0 <= b <= 0xef
}

/// The leading byte of a four-byte encoding (0xf5 through 0xf7 would
/// only encode values past the last Unicode scalar).
pub open spec fn is_lead_4(b: u8) -> bool {
    0xf0 <= b <= 0xf4
}

/// Whether `b2` may follow the leading byte `b1`: most leads accept any
/// continuation byte, but the border leads restrict it so that overlong
/// encodings, surrogates and values past the last scalar are impossible.
pub open spec fn valid_second(b1: u8, b2: u8) -> bool {
    if is_lead_2(b1) {
        is_cont(b2)
    } else if b1 == 0xe0 {
        0xa0 <= b2 <= 0xbf
    } else if b1 == 0xed {
        0x80 <= b2 <= 0x9f
    } else if is_lead_3(b1) {
        is_cont(b2)
    } else if b1 == 0xf0 {
        0x90 <= b2 <= 0xbf
    } else if b1 == 0xf4 {
        0x80 <= b2 <= 0x8f
    } else if is_lead_4(b1) {
        is_cont(b2)
    } else {
        false
    }
}

/// `s` is a strict prefix of the encoding of some Unicode scalar: the
/// bytes seen so far of a character that is still incomplete. At most
/// three bytes long.
pub open spec fn is_partial_scalar(s: Seq<u8>) -> bool {
    ||| s.len() == 0
    ||| (s.len() == 1 && (is_lead_2(s[0]) || is_lead_3(s[0]) || is_lead_4(s[0])))
    ||| (s.len() == 2 && (is_lead_3(s[0]) || is_lead_4(s[0])) && valid_second(s[0], s[1]))
    ||| (s.len() == 3 && is_lead_4(s[0]) && valid_second(s[0], s[1]) && is_cont(s[2]))
}

/// `s` is exactly the encoding of one Unicode scalar.
pub open spec fn is_complete_scalar(s: Seq<u8>) -> bool {
    ||| (s.len() == 1 && s[0] <= 0x7f)
    ||| (s.len() == 2 && is_lead_2(s[0]) && is_cont(s[1]))
    ||| (s.len() == 3 && is_lead_3(s[0]) && valid_second(s[0], s[1]) && is_cont(s[2]))
    ||| (s.len() == 4 && is_lead_4(s[0]) && valid_second(s[0], s[1]) && is_cont(s[2]) && is_cont(
        s[3],
    ))
}

/// The character encoded by exactly the bytes `s`.
pub open spec fn scalar_char(s: Seq<u8>) -> char {
    decode_first_scalar(s) as char
}

/// One step of the decoder: the carried bytes after consuming `b`, and
/// the characters (none or one) the step yields. A byte that completes a
/// character yields it; a byte that extends a still possible character is
/// carried; any other byte invalidates what was carried, and is then
/// itself either yielded (printable on its own), carried (a fresh leading
/// byte), or dropped.
pub open spec fn step(p: Seq<u8>, b: u8) -> (Seq<u8>, Seq<char>) {
    let s = p.push(b);
    if is_complete_scalar(s) {
        (Seq::empty(), seq![scalar_char(s)])
    } else if is_partial_scalar(s) {
        (s, Seq::empty())
    } else if b <= 0x7f {
        (Seq::empty(), seq![scalar_char(seq![b])])
    } else if is_lead_2(b) || is_lead_3(b) || is_lead_4(b) {
        (seq![b], Seq::empty())
    } else {
        (Seq::empty(), Seq::empty())
    }
}

/// The decoder run over a whole input: the carried bytes afterwards, and
/// every character yielded, in order.
pub open spec fn run(p: Seq<u8>, input: Seq<u8>) -> (Seq<u8>, Seq<char>)
    decreases input.len(),
{
    if input.len() == 0 {
        (p, Seq::empty())
    } else {
        let first = step(p, input[0]);
        let rest = run(first.0, input.drop_first());
        (rest.0, first.1 + rest.1)
    }
}

/// One step always leaves a strict prefix of some character's encoding,
/// never more than three bytes.
proof fn lemma_step_partial(p: Seq<u8>, b: u8)
    requires
        is_partial_scalar(p),
    ensures
        is_partial_scalar(step(p, b).0),
{
}

/// A whole run always leaves a strict prefix of some character's
/// encoding, never more than three bytes: the carried state is bounded.
pub proof fn lemma_run_partial(p: Seq<u8>, input: Seq<u8>)
    requires
        is_partial_scalar(p),
    ensures
        is_partial_scalar(run(p, input).0),
        run(p, input).0.len() <= 3,
    decreases input.len(),
{
    if input.len() > 0 {
        lemma_step_partial(p, input[0]);
        lemma_run_partial(step(p, input[0]).0, input.drop_first());
    }
}

/// Feeding two chunks one after the other is the same as feeding their
/// concatenation in one call.
pub proof fn lemma_run_append(p: Seq<u8>, a: Seq<u8>, b: Seq<u8>)
    ensures
        run(p, a + b).0 == run(run(p, a).0, b).0,
        run(p, a + b).1 == run(p, a).1 + run(run(p, a).0, b).1,
    decreases a.len(),
{
    if a.len() == 0 {
        assert(a + b =~= b);
        assert(run(p, a).1 + run(run(p, a).0, b).1 =~= run(p, b).1);
    } else {
        let q = step(p, a[0]).0;
        assert((a + b).drop_first() =~= a.drop_first() + b);
        lemma_run_append(q, a.drop_first(), b);
        assert(run(p, a).1 + run(run(p, a).0, b).1 =~= run(p, a + b).1);
    }
}

/// The decoder run over a sequence of chunks, fed through successive
/// calls in order.
pub open spec fn run_chunks(p: Seq<u8>, chunks: Seq<Seq<u8>>) -> (Seq<u8>, Seq<char>)
    decreases chunks.len(),
{
    if chunks.len() == 0 {
        (p, Seq::empty())
    } else {
        let first = run(p, chunks[0]);
        let rest = run_chunks(first.0, chunks.drop_first());
        (rest.0, first.1 + rest.1)
    }
}

/// Chunking is decode-transparent: however a byte stream is cut into
/// chunks, feeding the chunks through successive calls yields the same
/// characters, and leaves the same carried bytes, as decoding the whole
/// stream in one call.
pub proof fn lemma_chunking_invariance(p: Seq<u8>, chunks: Seq<Seq<u8>>)
    ensures
        run_chunks(p, chunks).0 == run(p, chunks.flatten()).0,
        run_chunks(p, chunks).1 == run(p, chunks.flatten()).1,
    decreases chunks.len(),
{
    if chunks.len() == 0 {
        assert(chunks.flatten() =~= Seq::<u8>::empty());
    } else {
        let q = run(p, chunks[0]).0;
        lemma_chunking_invariance(q, chunks.drop_first());
        assert(chunks.flatten() =~= chunks[0] + chunks.drop_first().flatten());
        lemma_run_append(p, chunks[0], chunks.drop_first().flatten());
    }
}

/// A run over input that only extends a still incomplete character
/// carries all of it and yields nothing.
proof fn lemma_run_carries_partial(p: Seq<u8>, rest: Seq<u8>)
    requires
        is_partial_scalar(p + rest),
    ensures
        run(p, rest).0 == p + rest,
        run(p, rest).1 == Seq::<char>::empty(),
    decreases rest.len(),
{
    if rest.len() == 0 {
        assert(p + rest =~= p);
    } else {
        let whole = p + rest;
        let s = p.push(rest[0]);
        assert(s.len() == p.len() + 1);
        assert(forall|i: int| 0 <= i < s.len() ==> s[i] == whole[i]);
        assert(is_partial_scalar(s));
        assert(!is_complete_scalar(s));
        assert(s + rest.drop_first() =~= whole);
        lemma_run_carries_partial(s, rest.drop_first());
        assert(run(p, rest).1 =~= Seq::<char>::empty());
    }
}

/// A run over exactly one character's encoding, starting with nothing
/// carried, yields that character and carries nothing.
proof fn lemma_run_scalar(s: Seq<u8>)
    requires
        is_complete_scalar(s),
    ensures
        run(Seq::empty(), s).0 == Seq::<u8>::empty(),
        run(Seq::empty(), s).1 == seq![scalar_char(s)],
{
    reveal_with_fuel(run, 2);
    let e = Seq::<u8>::empty();
    let k = s.len() as int;
    let q = s.subrange(0, k - 1);
    let b = s[k - 1];
    assert(e + q =~= q);
    assert(is_partial_scalar(q));
    lemma_run_carries_partial(e, q);
    assert(q + seq![b] =~= s);
    lemma_run_append(e, q, seq![b]);
    assert(q.push(b) =~= s);
    assert(is_complete_scalar(q.push(b)));
    assert(seq![b][0] == b);
    assert(seq![b].drop_first().len() == 0);
    assert(run(q, seq![b]).0 == step(q, b).0);
    assert(run(q, seq![b]).1 =~= step(q, b).1);
    assert(step(q, b).0 =~= Seq::<u8>::empty());
    assert(step(q, b).1 =~= seq![scalar_char(s)]);
    assert(run(e, s).0 =~= Seq::<u8>::empty());
    assert(run(e, s).1 =~= seq![scalar_char(s)]);
}

/// The first character's encoding in a well-formed UTF-8 sequence is a
/// complete scalar encoding in the sense of the decoder's byte tables,
/// and decodes to the sequence's first character.
proof fn lemma_valid_first_scalar_complete(bytes: Seq<u8>)
    requires
        vstd::utf8::valid_first_scalar(bytes),
    ensures
        is_complete_scalar(vstd::utf8::take_first_scalar(bytes)),
        scalar_char(vstd::utf8::take_first_scalar(bytes)) == decode_first_scalar(bytes) as char,
{
    let k = vstd::utf8::length_of_first_scalar(bytes);
    let s = vstd::utf8::take_first_scalar(bytes);
    assert(forall|i: int| 0 <= i < k ==> s[i] == bytes[i]);
    let b1 = bytes[0];
    if vstd::utf8::is_leading_byte_width_1(b1) {
    } else if vstd::utf8::is_leading_byte_width_2(b1) {
        let b2 = bytes[1];
        assert(b1 >= 0xc2) by (bit_vector)
            requires
                0xc0 <= b1 <= 0xdf && 0x80 <= b2 <= 0xbf && ((((b1 & 0x1f) as u32) << 6) | ((b2
                    & 0x3f) as u32)) >= 0x80,
        ;
    } else if vstd::utf8::is_leading_byte_width_3(b1) {
        let b2 = bytes[1];
        let b3 = bytes[2];
        assert((b1 == 0xe0 ==> 0xa0 <= b2) && (b1 == 0xed ==> b2 <= 0x9f)) by (bit_vector)
            requires
                0xe0 <= b1 <= 0xef && 0x80 <= b2 <= 0xbf && 0x80 <= b3 <= 0xbf && ({
                    let cp = ((((b1 & 0x0f) as u32) << 12) | (((b2 & 0x3f) as u32) << 6)) | ((
                    b3 & 0x3f) as u32);
                    cp >= 0x800 && !(0xd800 <= cp <= 0xdfff)
                }),
        ;
    } else {
        let b2 = bytes[1];
        let b3 = bytes[2];
        let b4 = bytes[3];
        assert(b1 <= 0xf4 && (b1 == 0xf0 ==> 0x90 <= b2) && (b1 == 0xf4 ==> b2 <= 0x8f))
            by (bit_vector)
            requires
                0xf0 <= b1 <= 0xf7 && 0x80 <= b2 <= 0xbf && 0x80 <= b3 <= 0xbf && 0x80 <= b4
                    <= 0xbf && ({
                    let cp = (((((b1 & 0x07) as u32) << 18) | (((b2 & 0x3f) as u32) << 12)) | (((
                    b3 & 0x3f) as u32) << 6)) | ((b4 & 0x3f) as u32);
                    0x10000 <= cp <= 0x10ffff
                }),
        ;
    }
    assert(decode_first_scalar(s) == decode_first_scalar(bytes));
}

/// What the decoder yields is what `vstd::utf8::decode_utf8` says: run
/// from a clean start over a valid UTF-8 sequence followed by the first
/// bytes of a still incomplete character, the decoder yields exactly the
/// sequence's characters and carries exactly the incomplete bytes. With
/// an empty tail: decoding a whole valid stream in one call yields
/// `decode_utf8` of it.
pub proof fn lemma_decoder_decodes(prefix: Seq<u8>, tail: Seq<u8>)
    requires
        valid_utf8(prefix),
        is_partial_scalar(tail),
    ensures
        run(Seq::empty(), prefix + tail).0 == tail,
        run(Seq::empty(), prefix + tail).1 == decode_utf8(prefix),
    decreases prefix.len(),
{
    let e = Seq::<u8>::empty();
    if prefix.len() == 0 {
        assert(prefix + tail =~= tail);
        assert(e + tail =~= tail);
        lemma_run_carries_partial(e, tail);
        assert(decode_utf8(prefix) =~= Seq::<char>::empty());
    } else {
        let k = vstd::utf8::length_of_first_scalar(prefix);
        let s = vstd::utf8::take_first_scalar(prefix);
        let rest = vstd::utf8::pop_first_scalar(prefix);
        lemma_valid_first_scalar_complete(prefix);
        assert(1 <= k <= prefix.len());
        assert(rest.len() == prefix.len() - k);
        assert(prefix + tail =~= s + (rest + tail));
        lemma_run_append(e, s, rest + tail);
        lemma_run_scalar(s);
        lemma_decoder_decodes(rest, tail);
        assert(run(e, prefix + tail).1 =~= decode_utf8(prefix));
    }
}

/// A byte sequence that encodes exactly one scalar is a well-formed
/// scalar encoding in the sense of `vstd::utf8`, covering all its bytes
/// and decoding to a legal Unicode scalar value.
proof fn lemma_complete_scalar_valid(s: Seq<u8>)
    requires
        is_complete_scalar(s),
    ensures
        vstd::utf8::valid_first_scalar(s),
        vstd::utf8::length_of_first_scalar(s) == s.len(),
        vstd::utf8::is_scalar(decode_first_scalar(s)),
{
    if s.len() == 1 {
        let b1 = s[0];
        assert((b1 & 0x7f) == b1 && ((b1 & 0x7f) as u32) <= 0x7f) by (bit_vector)
            requires
                b1 <= 0x7f,
        ;
    } else if s.len() == 2 {
        let b1 = s[0];
        let b2 = s[1];
        assert(0x80 <= ((((b1 & 0x1f) as u32) << 6) | ((b2 & 0x3f) as u32)) <= 0x7ff)
            by (bit_vector)
            requires
                0xc2 <= b1 <= 0xdf && 0x80 <= b2 <= 0xbf,
        ;
        assert(decode_first_scalar(s) == (((b1 & 0x1f) as u32) << 6) | ((b2 & 0x3f) as u32));
    } else if s.len() == 3 {
        let b1 = s[0];
        let b2 = s[1];
        let b3 = s[2];
        assert(is_cont(b2));
        assert({
            let cp = ((((b1 & 0x0f) as u32) << 12) | (((b2 & 0x3f) as u32) << 6)) | ((b3
                & 0x3f) as u32);
            0x800 <= cp <= 0xffff && !(0xd800 <= cp <= 0xdfff)
        }) by (bit_vector)
            requires
                0xe0 <= b1 <= 0xef && 0x80 <= b2 <= 0xbf && 0x80 <= b3 <= 0xbf && (b1 == 0xe0
                    ==> 0xa0 <= b2) && (b1 == 0xed ==> b2 <= 0x9f),
        ;
        assert(decode_first_scalar(s) == ((((b1 & 0x0f) as u32) << 12) | (((b2 & 0x3f) as u32)
            << 6)) | ((b3 & 0x3f) as u32));
    } else {
        let b1 = s[0];
        let b2 = s[1];
        let b3 = s[2];
        let b4 = s[3];
        assert(is_cont(b2));
        assert({
            let cp = (((((b1 & 0x07) as u32) << 18) | (((b2 & 0x3f) as u32) << 12)) | (((b3
                & 0x3f) as u32) << 6)) | ((b4 & 0x3f) as u32);
            0x10000 <= cp <= 0x10ffff
        }) by (bit_vector)
            requires
                0xf0 <= b1 <= 0xf4 && 0x80 <= b2 <= 0xbf && 0x80 <= b3 <= 0xbf && 0x80 <= b4
                    <= 0xbf && (b1 == 0xf0 ==> 0x90 <= b2) && (b1 == 0xf4 ==> b2 <= 0x8f),
        ;
        assert(decode_first_scalar(s) == (((((b1 & 0x07) as u32) << 18) | (((b2 & 0x3f) as u32)
            << 12)) | (((b3 & 0x3f) as u32) << 6)) | ((b4 & 0x3f) as u32));
    }
}

/// Relies on `char::from_u32` of core: it returns `Some` exactly when the
/// value is a Unicode scalar value (not a surrogate, not past the last
/// code point), and the returned character's code point is that value.
pub assume_specification[ char::from_u32 ](v: u32) -> (r: Option<char>)
    ensures
        r is Some <==> vstd::utf8::is_scalar(v),
        r matches Some(c) ==> c as u32 == v,
;

/// Whether `b2` may follow the leading byte `b1`.
fn valid_second_byte(b1: u8, b2: u8) -> (r: bool)
    ensures
        r == valid_second(b1, b2),
{
    if 0xc2 <= b1 && b1 <= 0xdf {
        0x80 <= b2 && b2 <= 0xbf
    } else if b1 == 0xe0 {
        0xa0 <= b2 && b2 <= 0xbf
    } else if b1 == 0xed {
        0x80 <= b2 && b2 <= 0x9f
    } else if 0xe0 <= b1 && b1 <= 0xef {
        0x80 <= b2 && b2 <= 0xbf
    } else if b1 == 0xf0 {
        0x90 <= b2 && b2 <= 0xbf
    } else if b1 == 0xf4 {
        0x80 <= b2 && b2 <= 0x8f
    } else if 0xf0 <= b1 && b1 <= 0xf4 {
        0x80 <= b2 && b2 <= 0xbf
    } else {
        false
    }
}

/// Whether `b` completes the character whose first bytes are `p`.
fn completes_scalar(p: &Vec<u8>, b: u8) -> (r: bool)
    requires
        is_partial_scalar(p@),
    ensures
        r == is_complete_scalar(p@.push(b)),
{
    if p.len() == 0 {
        b <= 0x7f
    } else if p.len() == 1 {
        let b1 = p[0];
        if 0xc2 <= b1 && b1 <= 0xdf {
            0x80 <= b && b <= 0xbf
        } else {
            false
        }
    } else if p.len() == 2 {
        let b1 = p[0];
        if 0xe0 <= b1 && b1 <= 0xef {
            0x80 <= b && b <= 0xbf
        } else {
            false
        }
    } else {
        0x80 <= b && b <= 0xbf
    }
}

/// Whether `b` extends `p` into a longer, still incomplete character.
fn extends_scalar(p: &Vec<u8>, b: u8) -> (r: bool)
    requires
        is_partial_scalar(p@),
    ensures
        r == is_partial_scalar(p@.push(b)),
{
    if p.len() == 0 {
        (0xc2 <= b && b <= 0xdf) || (0xe0 <= b && b <= 0xef) || (0xf0 <= b && b <= 0xf4)
    } else if p.len() == 1 {
        let b1 = p[0];
        if 0xe0 <= b1 && b1 <= 0xf4 {
            valid_second_byte(b1, b)
        } else {
            false
        }
    } else if p.len() == 2 {
        let b1 = p[0];
        (0xf0 <= b1 && b1 <= 0xf4) && 0x80 <= b && b <= 0xbf
    } else {
        false
    }
}

/// The character completed by pushing `b` onto `p`.
fn completed_char(p: &Vec<u8>, b: u8) -> (c: char)
    requires
        is_complete_scalar(p@.push(b)),
    ensures
        c == scalar_char(p@.push(b)),
{
    let cp: u32 = if p.len() == 0 {
        b as u32
    } else if p.len() == 1 {
        (((p[0] & 0x1f) as u32) << 6) | ((b & 0x3f) as u32)
    } else if p.len() == 2 {
        ((((p[0] & 0x0f) as u32) << 12) | (((p[1] & 0x3f) as u32) << 6)) | ((b & 0x3f) as u32)
    } else {
        (((((p[0] & 0x07) as u32) << 18) | (((p[1] & 0x3f) as u32) << 12)) | (((p[2]
            & 0x3f) as u32) << 6)) | ((b & 0x3f) as u32)
    };
    proof {
        let s = p@.push(b);
        lemma_complete_scalar_valid(s);
        if p@.len() == 0 {
            let b1 = s[0];
            assert((b1 & 0x7f) == b1) by (bit_vector)
                requires
                    b1 <= 0x7f,
            ;
        }
        assert(cp == decode_first_scalar(s));
    }
    let r = char::from_u32(cp);
    let c = r.unwrap();
    proof {
        vstd::utf8::char_u32_cast(c, cp);
    }
    c
}

/// Decodes the shell's byte stream incrementally, carrying the bytes of a
/// character split across reads from one call to the next.
pub struct Utf8Decoder {
    incomplete_utf8: Vec<u8>,
}

impl Utf8Decoder {
    /// The bytes carried from the previous call: the strict prefix of one
    /// character's encoding, at most three bytes.
    pub closed spec fn pending(&self) -> Seq<u8> {
        self.incomplete_utf8@
    }

    /// The carried bytes are a strict prefix of some character's
    /// encoding; in particular there are at most three of them.
    pub closed spec fn wf(&self) -> bool {
        is_partial_scalar(self.incomplete_utf8@)
    }

    pub fn new() -> (r: Self)
        ensures
            r.wf(),
            r.pending() == Seq::<u8>::empty(),
    {
        Self { incomplete_utf8: Vec::new() }
    }

    /// Decodes one chunk of the stream: any bytes carried from the
    /// previous call are logically prepended, as much of the stream as
    /// possible is decoded, and a still incomplete trailing character is
    /// carried over to the next call.
    pub fn decode(&mut self, input: &Vec<u8>) -> (chars: Vec<char>)
        requires
            old(self).wf(),
        ensures
            final(self).wf(),
            final(self).pending() == run(old(self).pending(), input@).0,
            final(self).pending().len() <= 3,
            chars@ == run(old(self).pending(), input@).1,
    {
        let ghost p0 = old(self).pending();
        let mut chars: Vec<char> = Vec::new();
        let mut i: usize = 0;
        proof {
            assert(input@.skip(0) =~= input@);
            assert(chars@ + run(self.incomplete_utf8@, input@).1 =~= run(p0, input@).1);
        }
        while i < input.len()
            invariant
                0 <= i <= input@.len(),
                is_partial_scalar(self.incomplete_utf8@),
                run(p0, input@).0 == run(self.incomplete_utf8@, input@.skip(i as int)).0,
                run(p0, input@).1 == chars@ + run(self.incomplete_utf8@, input@.skip(i as int)).1,
            decreases input@.len() - i,
        {
            let ghost p = self.incomplete_utf8@;
            let ghost rest = input@.skip(i as int);
            let b = input[i];
            proof {
                assert(rest[0] == input@[i as int]);
                assert(rest.drop_first() =~= input@.skip(i as int + 1));
            }
            self.consume(b, &mut chars);
            i = i + 1;
            proof {
                assert(run(p0, input@).1 =~= chars@ + run(
                    self.incomplete_utf8@,
                    input@.skip(i as int),
                ).1);
            }
        }
        proof {
            assert(input@.skip(input@.len() as int) =~= Seq::<u8>::empty());
        }
        chars
    }

    /// Consumes one byte of the stream, yielding at most one character.
    fn consume(&mut self, b: u8, chars: &mut Vec<char>)
        requires
            old(self).wf(),
        ensures
            final(self).wf(),
            final(self).incomplete_utf8@ == step(old(self).incomplete_utf8@, b).0,
            final(chars)@ == old(chars)@ + step(old(self).incomplete_utf8@, b).1,
    {
        if self.completes_scalar_b(b) {
            let c = completed_char(&self.incomplete_utf8, b);
            self.incomplete_utf8.clear();
            chars.push(c);
        } else if self.extends_scalar_b(b) {
            self.incomplete_utf8.push(b);
        } else if b <= 0x7f {
            self.incomplete_utf8.clear();
            proof {
                assert(Seq::<u8>::empty().push(b) =~= seq![b]);
            }
            let c = completed_char(&self.incomplete_utf8, b);
            chars.push(c);
        } else if (0xc2 <= b && b <= 0xdf) || (0xe0 <= b && b <= 0xef) || (0xf0 <= b && b
            <= 0xf4) {
            self.incomplete_utf8.clear();
            self.incomplete_utf8.push(b);
            proof {
                assert(self.incomplete_utf8@ =~= seq![b]);
            }
        } else {
            self.incomplete_utf8.clear();
        }
    }

    fn completes_scalar_b(&self, b: u8) -> (r: bool)
        requires
            self.wf(),
        ensures
            r == is_complete_scalar(self.incomplete_utf8@.push(b)),
    {
        completes_scalar(&self.incomplete_utf8, b)
    }

    fn extends_scalar_b(&self, b: u8) -> (r: bool)
        requires
            self.wf(),
        ensures
            r == is_partial_scalar(self.incomplete_utf8@.push(b)),
    {
        extends_scalar(&self.incomplete_utf8, b)
    }
}

} // verus!
