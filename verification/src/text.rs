//! Text by its content: comparison, search, and the white space around it.
//!
//! A string is searched through the bytes that encode it. Since the encoding
//! tells where a character starts, what is found among the bytes is found among
//! the characters, and the contracts here speak of characters.

use vstd::prelude::*;
use vstd::string::*;
use vstd::utf8::*;

verus! {

/// The text of each string of a sequence, in its order.
pub open spec fn texts(strings: Seq<String>) -> Seq<Seq<char>> {
    Seq::new(strings.len(), |i: int| strings[i]@)
}

/// The text of an optional string.
pub open spec fn optional_text(text: Option<String>) -> Option<Seq<char>> {
    match text {
        Some(s) => Some(s@),
        None => None,
    }
}

/// The name and value of each pair, as text.
pub open spec fn pair_texts(pairs: Seq<(String, String)>) -> Seq<(Seq<char>, Seq<char>)> {
    Seq::new(pairs.len(), |i: int| (pairs[i].0@, pairs[i].1@))
}

/// What `str::trim` returns for a text: the text without the white space at its
/// start and at its end.
pub uninterp spec fn trimmed(text: Seq<char>) -> Seq<char>;

/// `str::trim` returns the text without leading and trailing white space.
#[verifier::external_body]
pub(crate) fn trim(text: &str) -> (out: &str)
    ensures
        out@ == trimmed(text@),
{
    text.trim()
}

/// `text` with each occurrence of `pattern` replaced by `with`, the occurrences
/// taken from the left and not overlapping.
pub open spec fn replaced(text: Seq<char>, pattern: Seq<char>, with: Seq<char>) -> Seq<char>
    decreases text.len(),
{
    if pattern.len() == 0 || text.len() < pattern.len() {
        text
    } else if text.subrange(0, pattern.len() as int) == pattern {
        with + replaced(text.subrange(pattern.len() as int, text.len() as int), pattern, with)
    } else {
        seq![text[0]] + replaced(text.drop_first(), pattern, with)
    }
}

/// `str::replace` replaces all matches of a pattern with another string. An empty
/// pattern, which matches between any two characters, is left out.
#[verifier::external_body]
pub(crate) fn replace_all(text: &str, pattern: &str, with: &str) -> (out: String)
    requires
        pattern@.len() > 0,
    ensures
        out@ == replaced(text@, pattern@, with@),
{
    text.replace(pattern, with)
}

/// Whether two strings hold the same text. Two strings are compared through their
/// UTF-8 bytes, which decide the text that they encode.
pub fn str_eq(a: &str, b: &str) -> (same: bool)
    ensures
        same == (a@ == b@),
{
    let x = a.as_bytes();
    let y = b.as_bytes();
    proof {
        encode_utf8_decode_utf8(a@);
        encode_utf8_decode_utf8(b@);
    }
    if x.len() != y.len() {
        return false;
    }
    let mut i: usize = 0;
    while i < x.len()
        invariant
            i <= x.len(),
            x.len() == y.len(),
            forall|j: int| 0 <= j < i ==> x@[j] == y@[j],
            x@ == encode_utf8(a@),
            y@ == encode_utf8(b@),
            decode_utf8(encode_utf8(a@)) == a@,
            decode_utf8(encode_utf8(b@)) == b@,
        decreases x.len() - i,
    {
        if x[i] != y[i] {
            return false;
        }
        i += 1;
    }
    assert(x@ =~= y@);
    true
}

/// Whether `part` stands in `text` from place `i` on.
pub open spec fn occurs_at<T>(part: Seq<T>, text: Seq<T>, i: int) -> bool {
    0 <= i && i + part.len() <= text.len() && text.subrange(i, i + part.len()) == part
}

/// Whether `part` occurs in `text`: the characters of `part` stand somewhere in
/// `text`, one after the other.
pub open spec fn occurs_in(part: Seq<char>, text: Seq<char>) -> bool {
    exists|i: int| occurs_at(part, text, i)
}

/// Whether `text` ends with `end`: the last characters of `text` are those of
/// `end`.
pub open spec fn ends_with(text: Seq<char>, end: Seq<char>) -> bool {
    end.len() <= text.len() && occurs_at(end, text, text.len() - end.len())
}

/// The encoding of two texts one after the other is the encoding of the first
/// followed by the encoding of the second.
pub proof fn lemma_encode_concat(a: Seq<char>, b: Seq<char>)
    ensures
        encode_utf8(a + b) == encode_utf8(a) + encode_utf8(b),
{
    let x = encode_utf8(a);
    let y = encode_utf8(b);
    encode_utf8_valid_utf8(a);
    encode_utf8_valid_utf8(b);
    encode_utf8_decode_utf8(a);
    encode_utf8_decode_utf8(b);
    crate::stream::lemma_decode_concat(x, y);
    decode_utf8_encode_utf8(x + y);
}

/// Where `part` stands among the characters of `text`, its encoding stands
/// among the bytes of `text`; and it stands at the end of the bytes where `part`
/// stands at the end of the characters.
proof fn lemma_found_among_bytes(part: Seq<char>, text: Seq<char>, k: int) -> (at: int)
    requires
        occurs_at(part, text, k),
    ensures
        occurs_at(encode_utf8(part), encode_utf8(text), at),
        k + part.len() == text.len() ==> at + encode_utf8(part).len() == encode_utf8(text).len(),
{
    let before = text.subrange(0, k);
    let after = text.subrange(k + part.len(), text.len() as int);
    assert(text =~= before + part + after);
    lemma_encode_concat(before, part);
    lemma_encode_concat(before + part, after);
    let at = encode_utf8(before).len() as int;
    assert(encode_utf8(text).subrange(at, at + encode_utf8(part).len()) =~= encode_utf8(part));
    at
}

/// Where the encoding of `part` stands among the bytes of `text`, `part` stands
/// among the characters of `text`; and it stands at the end of the characters
/// where the encoding stands at the end of the bytes.
proof fn lemma_found_among_chars(part: Seq<char>, text: Seq<char>, at: int) -> (k: int)
    requires
        occurs_at(encode_utf8(part), encode_utf8(text), at),
    ensures
        occurs_at(part, text, k),
        at + encode_utf8(part).len() == encode_utf8(text).len() ==> k + part.len() == text.len(),
{
    let p = encode_utf8(part);
    let t = encode_utf8(text);
    encode_utf8_valid_utf8(part);
    encode_utf8_valid_utf8(text);
    encode_utf8_decode_utf8(part);
    encode_utf8_decode_utf8(text);
    if p.len() == 0 {
        assert(part.len() == 0) by {
            if part.len() > 0 {
                encode_utf8_first_scalar(part);
            }
        }
        let k: int = if at == t.len() { text.len() as int } else { 0 };
        assert(text.subrange(k, k) =~= part);
        k
    } else {
        let x = t.subrange(0, at);
        let rest = t.subrange(at, t.len() as int);
        let y = t.subrange(at + p.len(), t.len() as int);
        assert(t.subrange(at, at + p.len())[0] == t[at]);
        is_char_boundary_iff_not_is_continuation_byte(t, at);
        valid_utf8_split(t, at);
        assert(t =~= x + rest);
        assert(rest =~= p + y);
        crate::stream::lemma_valid_concat_iff(p, y);
        crate::stream::lemma_decode_concat(p, y);
        crate::stream::lemma_decode_concat(x, rest);
        let before = decode_utf8(x);
        let after = decode_utf8(y);
        assert(text =~= before + (part + after));
        assert(text.subrange(before.len() as int, (before.len() + part.len()) as int) =~= part);
        before.len() as int
    }
}

/// Whether the bytes `part` stand in the bytes `text` from place `i` on.
fn bytes_at(part: &[u8], text: &[u8], i: usize) -> (same: bool)
    requires
        i + part@.len() <= text@.len(),
    ensures
        same == occurs_at(part@, text@, i as int),
{
    let len = text.len();
    let mut j: usize = 0;
    while j < part.len()
        invariant
            j <= part@.len(),
            i + part@.len() <= text@.len(),
            text@.len() == len,
            forall|k: int| 0 <= k < j ==> text@[i + k] == part@[k],
        decreases part@.len() - j,
    {
        if text[i + j] != part[j] {
            assert(text@.subrange(i as int, i + part@.len())[j as int] != part@[j as int]);
            return false;
        }
        j += 1;
    }
    assert(text@.subrange(i as int, i + part@.len()) =~= part@);
    true
}

/// Whether `part` occurs in `text`.
pub fn is_part_of(part: &str, text: &str) -> (found: bool)
    ensures
        found == occurs_in(part@, text@),
{
    let p = part.as_bytes();
    let t = text.as_bytes();
    if p.len() > t.len() {
        proof {
            if occurs_in(part@, text@) {
                let k = choose|k: int| occurs_at(part@, text@, k);
                lemma_found_among_bytes(part@, text@, k);
            }
        }
        return false;
    }
    let last = t.len() - p.len();
    let mut i: usize = 0;
    while i < last
        invariant
            i <= last,
            last + p@.len() == t@.len(),
            p@ == encode_utf8(part@),
            t@ == encode_utf8(text@),
            forall|k: int| 0 <= k < i ==> !occurs_at(p@, t@, k),
        decreases last - i,
    {
        if bytes_at(p, t, i) {
            proof {
                lemma_found_among_chars(part@, text@, i as int);
            }
            return true;
        }
        i += 1;
    }
    let found = bytes_at(p, t, last);
    proof {
        if found {
            lemma_found_among_chars(part@, text@, last as int);
        } else if occurs_in(part@, text@) {
            let k = choose|k: int| occurs_at(part@, text@, k);
            lemma_found_among_bytes(part@, text@, k);
        }
    }
    found
}

/// Whether `text` ends with `end`.
pub fn has_ending(text: &str, end: &str) -> (found: bool)
    ensures
        found == ends_with(text@, end@),
{
    let e = end.as_bytes();
    let t = text.as_bytes();
    proof {
        if ends_with(text@, end@) {
            lemma_found_among_bytes(end@, text@, text@.len() - end@.len());
        }
    }
    if e.len() > t.len() {
        return false;
    }
    let found = bytes_at(e, t, t.len() - e.len());
    proof {
        if found {
            lemma_found_among_chars(end@, text@, t@.len() - e@.len());
        }
    }
    found
}

} // verus!
