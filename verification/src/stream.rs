//! Framing of the byte stream that a pseudo-terminal produces.
//!
//! A read from a terminal returns raw bytes, and a multi-byte character may be
//! cut by the end of a read. The functions here find how much of a buffer can be
//! handed on as text, and state what that amount is: the longest prefix that is
//! well-formed UTF-8.

use vstd::prelude::*;
use vstd::slice::slice_subrange;
use vstd::utf8::*;

verus! {

/// `n` is the length of the longest prefix of `bytes` that is well-formed UTF-8.
pub open spec fn is_valid_boundary(bytes: Seq<u8>, n: int) -> bool {
    &&& 0 <= n <= bytes.len()
    &&& valid_utf8(bytes.subrange(0, n))
    &&& forall|k: int| n < k <= bytes.len() ==> !valid_utf8(#[trigger] bytes.subrange(0, k))
}

/// Length of the longest prefix of `bytes` that is well-formed UTF-8.
pub open spec fn valid_prefix_len(bytes: Seq<u8>) -> int
    decreases bytes.len(),
{
    if valid_utf8(bytes) {
        bytes.len() as int
    } else {
        valid_prefix_len(bytes.drop_last())
    }
}

/// Number of bytes that a sequence starting with `byte` occupies, 1 where
/// `byte` starts none.
pub open spec fn expected_width(byte: u8) -> int {
    if is_leading_byte_width_2(byte) {
        2
    } else if is_leading_byte_width_3(byte) {
        3
    } else if is_leading_byte_width_4(byte) {
        4
    } else {
        1
    }
}

/// `std::str::from_utf8` accepts a byte slice exactly when it is well-formed
/// UTF-8; this reports whether it did.
#[verifier::external_body]
fn is_utf8(bytes: &[u8]) -> (ok: bool)
    ensures
        ok == valid_utf8(bytes@),
{
    std::str::from_utf8(bytes).is_ok()
}

/// The first scalar of a sequence is read from its first bytes alone, so bytes
/// appended behind a sequence that starts with a whole scalar change neither
/// that scalar nor its length.
proof fn lemma_first_scalar_of_concat(a: Seq<u8>, p: Seq<u8>)
    requires
        valid_first_scalar(a),
    ensures
        valid_first_scalar(a + p),
        length_of_first_scalar(a + p) == length_of_first_scalar(a),
        pop_first_scalar(a + p) == pop_first_scalar(a) + p,
{
    let w = length_of_first_scalar(a);
    assert(1 <= w <= 4 && w <= a.len());
    assert forall|i: int| 0 <= i < w implies (a + p)[i] == a[i] by {}
    assert((a + p)[0] == a[0]);
    assert(pop_first_scalar(a + p) =~= pop_first_scalar(a) + p);
}

/// What follows a well-formed prefix of a well-formed sequence is well-formed.
pub proof fn lemma_valid_suffix(a: Seq<u8>, p: Seq<u8>)
    requires
        valid_utf8(a),
        valid_utf8(a + p),
    ensures
        valid_utf8(p),
    decreases a.len(),
{
    if a.len() == 0 {
        assert(a + p =~= p);
    } else {
        lemma_first_scalar_of_concat(a, p);
        lemma_valid_suffix(pop_first_scalar(a), p);
    }
}

/// Behind a well-formed prefix, the whole is well-formed exactly when the rest is.
pub proof fn lemma_valid_concat_iff(a: Seq<u8>, p: Seq<u8>)
    requires
        valid_utf8(a),
    ensures
        valid_utf8(a + p) == valid_utf8(p),
{
    if valid_utf8(p) {
        valid_utf8_concat(a, p);
    }
    if valid_utf8(a + p) {
        lemma_valid_suffix(a, p);
    }
}

/// A sequence that is shorter than its first byte announces is not well-formed.
proof fn lemma_truncated_scalar_invalid(t: Seq<u8>)
    requires
        0 < t.len() < expected_width(t[0]),
    ensures
        !valid_utf8(t),
{
}

/// Where a sequence that the end of the buffer cuts short starts at `pos`,
/// behind a well-formed prefix, no longer prefix is well-formed.
proof fn lemma_boundary_before_truncated(bytes: Seq<u8>, pos: int)
    requires
        0 <= pos < bytes.len(),
        bytes.len() - pos < expected_width(bytes[pos]),
        valid_utf8(bytes.subrange(0, pos)),
    ensures
        is_valid_boundary(bytes, pos),
{
    assert forall|k: int| pos < k <= bytes.len() implies !valid_utf8(
        #[trigger] bytes.subrange(0, k),
    ) by {
        let head = bytes.subrange(0, pos);
        let tail = bytes.subrange(pos, k);
        assert(head + tail =~= bytes.subrange(0, k));
        lemma_truncated_scalar_invalid(tail);
        lemma_valid_concat_iff(head, tail);
    }
}

/// The longest well-formed prefix is unique, and `valid_prefix_len` is its length.
pub proof fn lemma_valid_prefix_len(bytes: Seq<u8>, n: int)
    ensures
        is_valid_boundary(bytes, valid_prefix_len(bytes)),
        is_valid_boundary(bytes, n) ==> n == valid_prefix_len(bytes),
    decreases bytes.len(),
{
    let len = bytes.len() as int;
    assert(bytes.subrange(0, len) =~= bytes);
    if valid_utf8(bytes) {
    } else {
        let shorter = bytes.drop_last();
        lemma_valid_prefix_len(shorter, n);
        let m = valid_prefix_len(shorter);
        assert(shorter.subrange(0, m) =~= bytes.subrange(0, m));
        assert forall|k: int| m < k <= len implies !valid_utf8(
            #[trigger] bytes.subrange(0, k),
        ) by {
            if k < len {
                assert(shorter.subrange(0, k) =~= bytes.subrange(0, k));
            }
        }
        if is_valid_boundary(bytes, n) {
            assert(n < len);
            assert(shorter.subrange(0, n) =~= bytes.subrange(0, n));
            assert forall|k: int| n < k <= shorter.len() implies !valid_utf8(
                #[trigger] shorter.subrange(0, k),
            ) by {
                assert(shorter.subrange(0, k) =~= bytes.subrange(0, k));
            }
            assert(is_valid_boundary(shorter, n));
        }
    }
}

/// Length of the longest prefix of `bytes` that is well-formed UTF-8.
///
/// A buffer that is well-formed as a whole is answered at once. Otherwise the
/// last four bytes are searched for a sequence that the end of the buffer cut
/// short: where one starts behind a well-formed prefix, that prefix is the
/// answer. What remains is searched from the longest prefix down.
pub fn find_valid_utf8_boundary(bytes: &[u8]) -> (n: usize)
    ensures
        is_valid_boundary(bytes@, n as int),
        n == valid_prefix_len(bytes@),
{
    let len = bytes.len();
    proof {
        lemma_valid_prefix_len(bytes@, 0);
        assert(bytes@.subrange(0, len as int) =~= bytes@);
    }
    if is_utf8(bytes) {
        return len;
    }
    let mut i: usize = 1;
    while i <= 4 && i <= len
        invariant
            1 <= i <= 5,
            len == bytes.len(),
            !valid_utf8(bytes@),
        decreases 5 - i,
    {
        let pos = len - i;
        let byte = bytes[pos];
        if (byte & 0xC0) != 0x80 {
            let expected_len: usize = if byte < 0x80 {
                1
            } else if (byte & 0xE0) == 0xC0 {
                2
            } else if (byte & 0xF0) == 0xE0 {
                3
            } else if (byte & 0xF8) == 0xF0 {
                4
            } else {
                1
            };
            proof {
                utf8_byte_ranges_bitwise(byte);
                assert(expected_len == expected_width(byte));
            }
            if i < expected_len && is_utf8(slice_subrange(bytes, 0, pos)) {
                proof {
                    lemma_boundary_before_truncated(bytes@, pos as int);
                    lemma_valid_prefix_len(bytes@, pos as int);
                }
                return pos;
            }
        }
        i += 1;
    }
    let mut k: usize = len;
    while k > 0
        invariant
            k <= len,
            len == bytes.len(),
            forall|j: int| k < j <= len ==> !valid_utf8(#[trigger] bytes@.subrange(0, j)),
        decreases k,
    {
        if is_utf8(slice_subrange(bytes, 0, k)) {
            proof {
                lemma_valid_prefix_len(bytes@, k as int);
            }
            return k;
        }
        k -= 1;
    }
    proof {
        assert(bytes@.subrange(0, 0) =~= Seq::<u8>::empty());
        lemma_valid_prefix_len(bytes@, 0);
    }
    0
}

/// `String::from_utf8_lossy` hands back the text that well-formed bytes encode;
/// nothing is claimed of bytes that are not well-formed.
#[verifier::external_body]
fn text_of(bytes: &[u8]) -> (text: String)
    ensures
        valid_utf8(bytes@) ==> text@ == decode_utf8(bytes@),
{
    String::from_utf8_lossy(bytes).into_owned()
}

/// Decoding distributes over the concatenation of well-formed sequences.
pub proof fn lemma_decode_concat(a: Seq<u8>, b: Seq<u8>)
    requires
        valid_utf8(a),
        valid_utf8(b),
    ensures
        valid_utf8(a + b),
        decode_utf8(a + b) == decode_utf8(a) + decode_utf8(b),
    decreases a.len(),
{
    valid_utf8_concat(a, b);
    if a.len() == 0 {
        assert(a + b =~= b);
        assert(decode_utf8(a) + decode_utf8(b) =~= decode_utf8(b));
    } else {
        lemma_first_scalar_of_concat(a, b);
        lemma_decode_concat(pop_first_scalar(a), b);
        assert(decode_utf8(a + b) =~= decode_utf8(a) + decode_utf8(b));
    }
}

/// Behind a well-formed prefix `a`, the longest well-formed prefix of the whole
/// is `a` followed by the longest well-formed prefix of the rest.
pub proof fn lemma_valid_prefix_len_concat(a: Seq<u8>, b: Seq<u8>)
    requires
        valid_utf8(a),
    ensures
        valid_prefix_len(a + b) == a.len() + valid_prefix_len(b),
{
    let m = valid_prefix_len(b);
    let n = a.len() + m;
    lemma_valid_prefix_len(b, m);
    assert((a + b).subrange(0, n) =~= a + b.subrange(0, m));
    valid_utf8_concat(a, b.subrange(0, m));
    assert forall|k: int| n < k <= (a + b).len() implies !valid_utf8(
        #[trigger] (a + b).subrange(0, k),
    ) by {
        assert((a + b).subrange(0, k) =~= a + b.subrange(0, k - a.len()));
        lemma_valid_concat_iff(a, b.subrange(0, k - a.len()));
    }
    lemma_valid_prefix_len(a + b, n);
}

/// The bytes of `carry` followed by `chunk` that can be handed on as text.
pub open spec fn ready_bytes(carry: Seq<u8>, chunk: Seq<u8>) -> Seq<u8> {
    (carry + chunk).subrange(0, valid_prefix_len(carry + chunk))
}

/// The text that a decoder holding `carry` hands on when it is fed `chunk`.
pub open spec fn ready_text(carry: Seq<u8>, chunk: Seq<u8>) -> Seq<char> {
    decode_utf8(ready_bytes(carry, chunk))
}

/// The bytes that a decoder holding `carry` keeps back when it is fed `chunk`.
pub open spec fn held_back(carry: Seq<u8>, chunk: Seq<u8>) -> Seq<u8> {
    (carry + chunk).subrange(valid_prefix_len(carry + chunk), (carry + chunk).len() as int)
}

/// Feeding a decoder two chunks one after the other hands on the same text, and
/// keeps back the same bytes, as feeding it both in one chunk: wherever a read
/// cuts the stream, even inside a character, the text that comes out is the same.
pub proof fn lemma_chunking_invariant(carry: Seq<u8>, first: Seq<u8>, second: Seq<u8>)
    ensures
        ready_text(carry, first) + ready_text(held_back(carry, first), second) == ready_text(
            carry,
            first + second,
        ),
        held_back(held_back(carry, first), second) == held_back(carry, first + second),
{
    let d = carry + first;
    let v = valid_prefix_len(d);
    lemma_valid_prefix_len(d, v);
    let head = d.subrange(0, v);
    let rest = d.subrange(v, d.len() as int);
    let e = rest + second;
    let w = valid_prefix_len(e);
    lemma_valid_prefix_len(e, w);
    let whole = carry + (first + second);
    assert(whole =~= head + e);
    lemma_valid_prefix_len_concat(head, e);
    assert(whole.subrange(0, v + w) =~= head + e.subrange(0, w));
    lemma_decode_concat(head, e.subrange(0, w));
    assert(whole.subrange(v + w, whole.len() as int) =~= e.subrange(w, e.len() as int));
}

/// The chunks one after the other, as one sequence of bytes.
pub open spec fn joined(chunks: Seq<Seq<u8>>) -> Seq<u8>
    decreases chunks.len(),
{
    if chunks.len() == 0 {
        Seq::empty()
    } else {
        joined(chunks.drop_last()) + chunks.last()
    }
}

/// The bytes that a decoder holding `carry` keeps back after it was fed the
/// chunks one after the other.
pub open spec fn held_back_after(carry: Seq<u8>, chunks: Seq<Seq<u8>>) -> Seq<u8>
    decreases chunks.len(),
{
    if chunks.len() == 0 {
        carry
    } else {
        held_back(held_back_after(carry, chunks.drop_last()), chunks.last())
    }
}

/// The text that a decoder holding `carry` hands on, all in all, when it is fed
/// the chunks one after the other.
pub open spec fn text_after(carry: Seq<u8>, chunks: Seq<Seq<u8>>) -> Seq<char>
    decreases chunks.len(),
{
    if chunks.len() == 0 {
        Seq::empty()
    } else {
        text_after(carry, chunks.drop_last()) + ready_text(
            held_back_after(carry, chunks.drop_last()),
            chunks.last(),
        )
    }
}

/// However a stream is cut into chunks, and into however many, a decoder hands
/// on the same text and keeps back the same bytes as if it were fed the stream
/// in one chunk. This holds of a decoder whose bytes held back start with no
/// text, as those of every decoder do.
pub proof fn lemma_any_chunking(carry: Seq<u8>, chunks: Seq<Seq<u8>>)
    requires
        valid_prefix_len(carry) == 0,
    ensures
        text_after(carry, chunks) == ready_text(carry, joined(chunks)),
        held_back_after(carry, chunks) == held_back(carry, joined(chunks)),
    decreases chunks.len(),
{
    if chunks.len() == 0 {
        assert(carry + joined(chunks) =~= carry);
        assert(carry.subrange(0, 0) =~= Seq::<u8>::empty());
        assert(carry.subrange(0, carry.len() as int) =~= carry);
        assert(decode_utf8(Seq::<u8>::empty()) =~= Seq::<char>::empty());
    } else {
        lemma_any_chunking(carry, chunks.drop_last());
        lemma_chunking_invariant(carry, joined(chunks.drop_last()), chunks.last());
    }
}

/// Nothing is lost and nothing is made up: what is handed on followed by what is
/// held back is what was held back before followed by the chunk. What is handed
/// on is well-formed, and what is held back starts with no text.
pub proof fn lemma_nothing_lost(carry: Seq<u8>, chunk: Seq<u8>)
    ensures
        ready_bytes(carry, chunk) + held_back(carry, chunk) == carry + chunk,
        valid_utf8(ready_bytes(carry, chunk)),
        valid_prefix_len(held_back(carry, chunk)) == 0,
{
    let all = carry + chunk;
    lemma_valid_prefix_len(all, 0);
    assert(ready_bytes(carry, chunk) + held_back(carry, chunk) =~= all);
    lemma_valid_prefix_len_concat(ready_bytes(carry, chunk), held_back(carry, chunk));
}

/// In well-formed text a character starts at most three bytes before any place.
proof fn lemma_boundary_near(text: Seq<u8>, cut: int) -> (start: int)
    requires
        valid_utf8(text),
        0 <= cut <= text.len(),
    ensures
        0 <= start <= cut,
        cut - start <= 3,
        valid_utf8(text.subrange(0, start)),
    decreases text.len(),
{
    let width = length_of_first_scalar(text);
    if cut == 0 || cut < width {
        assert(text.subrange(0, 0) =~= Seq::<u8>::empty());
        0
    } else {
        let first = take_first_scalar(text);
        let rest = pop_first_scalar(text);
        assert(valid_utf8(first)) by {
            assert(valid_first_scalar(text));
            assert(first.len() == width);
            assert(first[0] == text[0]);
            assert(valid_first_scalar(first));
            assert(pop_first_scalar(first) =~= Seq::<u8>::empty());
            assert(valid_utf8(Seq::<u8>::empty()));
        }
        let inner = lemma_boundary_near(rest, cut - width);
        assert(text.subrange(0, width + inner) =~= first + rest.subrange(0, inner));
        valid_utf8_concat(first, rest.subrange(0, inner));
        width + inner
    }
}

/// Of well-formed text that a read has cut anywhere, at most three bytes are
/// held back: the start of the character that the cut went through.
pub proof fn lemma_cut_text_holds_back_little(text: Seq<u8>, cut: int)
    requires
        valid_utf8(text),
        0 <= cut <= text.len(),
    ensures
        held_back(Seq::empty(), text.subrange(0, cut)).len() <= 3,
{
    let read = text.subrange(0, cut);
    let start = lemma_boundary_near(text, cut);
    assert(Seq::<u8>::empty() + read =~= read);
    lemma_valid_prefix_len(read, 0);
    assert(read.subrange(0, start) =~= text.subrange(0, start));
}

/// Well-formed bytes fed to an empty decoder come out whole, however they are cut
/// in two: the text of both feeds together is the text of the bytes, and nothing
/// is kept back at the end.
pub proof fn lemma_split_text_is_whole(first: Seq<u8>, second: Seq<u8>)
    requires
        valid_utf8(first + second),
    ensures
        ready_text(Seq::empty(), first) + ready_text(held_back(Seq::empty(), first), second)
            == decode_utf8(first + second),
        held_back(held_back(Seq::empty(), first), second) == Seq::<u8>::empty(),
{
    let whole = first + second;
    lemma_chunking_invariant(Seq::empty(), first, second);
    assert(Seq::<u8>::empty() + whole =~= whole);
    assert(whole.subrange(0, whole.len() as int) =~= whole);
    assert(whole.subrange(whole.len() as int, whole.len() as int) =~= Seq::<u8>::empty());
}

/// The bytes that a reader has received and could not yet hand on as text.
pub struct StreamDecoder {
    pending: Vec<u8>,
}

impl View for StreamDecoder {
    type V = Seq<u8>;

    closed spec fn view(&self) -> Seq<u8> {
        self.pending@
    }
}

impl StreamDecoder {
    /// A decoder that holds nothing back.
    pub fn new() -> (decoder: StreamDecoder)
        ensures
            decoder@ == Seq::<u8>::empty(),
    {
        StreamDecoder { pending: Vec::new() }
    }

    /// The bytes held back, oldest first.
    pub fn pending(&self) -> (bytes: &[u8])
        ensures
            bytes@ == self@,
    {
        self.pending.as_slice()
    }

    /// Takes the bytes of one read. The longest well-formed prefix of what was
    /// held back followed by `chunk` comes out as text, `None` where that prefix
    /// is empty; the rest is held back for the next read.
    pub fn feed(&mut self, chunk: &[u8]) -> (text: Option<String>)
        ensures
            final(self)@ == held_back(old(self)@, chunk@),
            ready_bytes(old(self)@, chunk@).len() == 0 ==> text is None,
            ready_bytes(old(self)@, chunk@).len() > 0 ==> text is Some && text->Some_0@
                == ready_text(old(self)@, chunk@),
    {
        self.pending.extend_from_slice(chunk);
        assert(self.pending@ =~= old(self)@ + chunk@);
        let valid_len = find_valid_utf8_boundary(self.pending.as_slice());
        let rest = self.pending.split_off(valid_len);
        let text = if valid_len > 0 {
            Some(text_of(self.pending.as_slice()))
        } else {
            None
        };
        self.pending = rest;
        text
    }
}

} // verus!
