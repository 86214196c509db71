//! Facts about the UTF-8 encoding of text that the byte-capped buffers of the
//! library rely on: encoding distributes over concatenation, and the character
//! boundaries of an encoding are exactly the encodings of its prefixes.

use vstd::prelude::*;
use vstd::utf8::*;
use vstd::string::StringSliceAdditionalSpecFns;

verus! {

broadcast use vstd::utf8::group_utf8_lib;

/// The number of bytes in the UTF-8 encoding of `s`.
pub open spec fn utf8_len(s: Seq<char>) -> nat {
    encode_utf8(s).len()
}

/// Every character is encoded with at least one byte.
proof fn lemma_encode_scalar_nonempty(c: char)
    ensures
        encode_scalar(c as u32).len() >= 1,
{
}

/// Encoding the concatenation of two texts gives the concatenation of their encodings.
pub proof fn lemma_encode_concat(a: Seq<char>, b: Seq<char>)
    ensures
        encode_utf8(a + b) == encode_utf8(a) + encode_utf8(b),
    decreases a.len(),
{
    if a.len() == 0 {
        assert(a + b =~= b);
        assert(encode_utf8(a) =~= Seq::<u8>::empty());
        assert(encode_utf8(a) + encode_utf8(b) =~= encode_utf8(b));
    } else {
        let ab = a + b;
        assert(ab[0] == a[0]);
        assert(ab.drop_first() =~= a.drop_first() + b);
        lemma_encode_concat(a.drop_first(), b);
        assert(encode_utf8(ab) =~= encode_scalar(a[0] as u32) + encode_utf8(a.drop_first() + b));
        assert(encode_utf8(a) =~= encode_scalar(a[0] as u32) + encode_utf8(a.drop_first()));
        assert(encode_utf8(ab) =~= encode_utf8(a) + encode_utf8(b));
    }
}

/// The encoding of a text splits at any character index into the encodings of
/// the two parts.
pub proof fn lemma_encode_split(c: Seq<char>, j: int)
    requires
        0 <= j <= c.len(),
    ensures
        encode_utf8(c) == encode_utf8(c.take(j)) + encode_utf8(c.skip(j)),
        utf8_len(c) == utf8_len(c.take(j)) + utf8_len(c.skip(j)),
{
    assert(c =~= c.take(j) + c.skip(j));
    lemma_encode_concat(c.take(j), c.skip(j));
}

/// Longer prefixes have strictly longer encodings.
pub proof fn lemma_prefix_len_strictly_increasing(c: Seq<char>, i: int, j: int)
    requires
        0 <= i < j <= c.len(),
    ensures
        utf8_len(c.take(i)) < utf8_len(c.take(j)),
    decreases j - i,
{
    let cj = c.take(j);
    lemma_encode_split(cj, j - 1);
    assert(cj.take(j - 1) =~= c.take(j - 1));
    assert(cj.skip(j - 1) =~= seq![c[j - 1]]);
    let last = seq![c[j - 1]];
    assert(last.drop_first() =~= Seq::<char>::empty());
    assert(encode_utf8(last) =~= encode_scalar(c[j - 1] as u32) + encode_utf8(
        Seq::<char>::empty(),
    ));
    lemma_encode_scalar_nonempty(c[j - 1]);
    if i < j - 1 {
        lemma_prefix_len_strictly_increasing(c, i, j - 1);
    }
}

/// The first scalar of a nonempty encoding is the encoding of the first character.
proof fn lemma_first_scalar_of_encoding(c: Seq<char>)
    requires
        c.len() > 0,
    ensures
        length_of_first_scalar(encode_utf8(c)) == encode_scalar(c[0] as u32).len(),
        pop_first_scalar(encode_utf8(c)) == encode_utf8(c.drop_first()),
        valid_utf8(encode_utf8(c)),
{
    encode_utf8_first_scalar(c);
    let bytes = encode_utf8(c);
    assert(pop_first_scalar(bytes) =~= encode_utf8(c.drop_first()));
}

/// The end of the encoding of every prefix is a character boundary.
pub proof fn lemma_prefix_is_boundary(c: Seq<char>, j: int)
    requires
        0 <= j <= c.len(),
    ensures
        is_char_boundary(encode_utf8(c), utf8_len(c.take(j)) as int),
    decreases j,
{
    let bytes = encode_utf8(c);
    if j == 0 {
        assert(c.take(0) =~= Seq::<char>::empty());
        assert(utf8_len(c.take(0)) == 0);
    } else {
        lemma_first_scalar_of_encoding(c);
        let rest = c.drop_first();
        lemma_prefix_is_boundary(rest, j - 1);
        let t = c.take(j);
        assert(t[0] == c[0]);
        assert(t.drop_first() =~= rest.take(j - 1));
        assert(encode_utf8(t) =~= encode_scalar(c[0] as u32) + encode_utf8(rest.take(j - 1)));
        lemma_encode_split(c, j);
        lemma_encode_scalar_nonempty(c[0]);
    }
}

/// Every character boundary of an encoding ends the encoding of some prefix.
pub proof fn lemma_boundary_is_prefix(c: Seq<char>, i: int)
    requires
        is_char_boundary(encode_utf8(c), i),
    ensures
        exists|j: int| 0 <= j <= c.len() && i == utf8_len(#[trigger] c.take(j)),
    decreases c.len(),
{
    let bytes = encode_utf8(c);
    if i == 0 {
        assert(c.take(0) =~= Seq::<char>::empty());
        assert(utf8_len(c.take(0)) == 0);
    } else {
        if c.len() == 0 {
            assert(bytes =~= Seq::<u8>::empty());
            assert(false);
        }
        lemma_first_scalar_of_encoding(c);
        let rest = c.drop_first();
        let l1 = encode_scalar(c[0] as u32).len() as int;
        assert(is_char_boundary(encode_utf8(rest), i - l1));
        lemma_boundary_is_prefix(rest, i - l1);
        let k = choose|k: int| 0 <= k <= rest.len() && i - l1 == utf8_len(#[trigger] rest.take(k));
        let t = c.take(k + 1);
        assert(t[0] == c[0]);
        assert(t.drop_first() =~= rest.take(k));
        assert(encode_utf8(t) =~= encode_scalar(c[0] as u32) + encode_utf8(rest.take(k)));
        assert(i == utf8_len(c.take(k + 1)));
    }
}

/// Decoding the encoding of a suffix gives the suffix back.
pub proof fn lemma_decode_suffix(c: Seq<char>, j: int)
    requires
        0 <= j <= c.len(),
    ensures
        decode_utf8(
            encode_utf8(c).subrange(utf8_len(c.take(j)) as int, utf8_len(c) as int),
        ) == c.skip(j),
{
    lemma_encode_split(c, j);
    let bytes = encode_utf8(c);
    assert(bytes.subrange(utf8_len(c.take(j)) as int, utf8_len(c) as int) =~= encode_utf8(
        c.skip(j),
    ));
}

/// The least character boundary of `bytes` at or after `i`.
pub open spec fn first_boundary_from(bytes: Seq<u8>, i: int) -> int
    decreases bytes.len() - i,
{
    if i >= bytes.len() || is_char_boundary(bytes, i) {
        i
    } else {
        first_boundary_from(bytes, i + 1)
    }
}

/// The least character boundary of `text` at or after the byte index `from`.
pub fn next_char_boundary(text: &str, from: usize) -> (at: usize)
    requires
        from <= text.spec_bytes().len(),
    ensures
        at == first_boundary_from(text.spec_bytes(), from as int),
        from <= at <= text.spec_bytes().len(),
        is_char_boundary(text.spec_bytes(), at as int),
{
    let ghost bytes = text.spec_bytes();
    let len = text.as_bytes().len();
    let mut at = from;
    proof {
        is_char_boundary_start_end_of_seq(bytes);
    }
    while !text.is_char_boundary(at)
        invariant
            bytes == text.spec_bytes(),
            len == bytes.len(),
            valid_utf8(bytes),
            is_char_boundary(bytes, len as int),
            from <= at <= len,
            first_boundary_from(bytes, from as int) == first_boundary_from(bytes, at as int),
        decreases len - at,
    {
        at = at + 1;
    }
    at
}

} // verus!
