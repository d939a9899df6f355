//! Facts about the UTF-8 encoding of text that the payload builder rests on:
//! encoding distributes over concatenation, and a null byte appears in the
//! encoding exactly where the null character appears in the text.

use vstd::prelude::*;
use vstd::utf8::*;

verus! {

/// No byte of `bytes` is the null byte.
pub open spec fn nul_free(bytes: Seq<u8>) -> bool {
    forall|i: int| 0 <= i < bytes.len() ==> bytes[i] != 0u8
}

/// The null character occurs somewhere in `text`.
pub open spec fn has_nul_char(text: Seq<char>) -> bool {
    exists|i: int| 0 <= i < text.len() && text[i] == '\0'
}

/// Masking a scalar below 128 to seven bits leaves it as it is.
proof fn lemma_width_1_byte(v: u32)
    by (bit_vector)
    requires
        v <= 0x7F,
    ensures
        (v & 0x7F) as u8 == v,
{
}

/// Leading bytes of multi-byte encodings and continuation bytes are never null.
proof fn lemma_marker_bytes_nonzero(v: u32)
    by (bit_vector)
    ensures
        0xC0u8 | ((v >> 6) & 0x1F) as u8 != 0,
        0xE0u8 | ((v >> 12) & 0x0F) as u8 != 0,
        0xF0u8 | ((v >> 18) & 0x7) as u8 != 0,
        0x80u8 | (v & 0x3F) as u8 != 0,
        0x80u8 | ((v >> 6) & 0x3F) as u8 != 0,
        0x80u8 | ((v >> 12) & 0x3F) as u8 != 0,
{
}

/// The encoding of one character: a character below 128 is its own single
/// byte, and only the null character yields a null byte.
pub proof fn lemma_encode_scalar(c: char)
    ensures
        (c as u32) <= 0x7F ==> encode_scalar(c as u32) == seq![(c as u32) as u8],
        c == '\0' ==> encode_scalar(c as u32) == seq![0u8],
        c != '\0' ==> nul_free(encode_scalar(c as u32)),
{
    let v = c as u32;
    lemma_marker_bytes_nonzero(v);
    if v <= 0x7F {
        lemma_width_1_byte(v);
        assert(encode_scalar(v) =~= seq![v as u8]);
    }
}

/// Encoding a concatenation is concatenating the encodings.
pub proof fn lemma_encode_concat(a: Seq<char>, b: Seq<char>)
    ensures
        encode_utf8(a + b) == encode_utf8(a) + encode_utf8(b),
    decreases a.len(),
{
    if a.len() == 0 {
        assert(a + b =~= b);
        assert(encode_utf8(a) + encode_utf8(b) =~= encode_utf8(b));
    } else {
        lemma_encode_concat(a.drop_first(), b);
        assert((a + b).drop_first() =~= a.drop_first() + b);
        assert((a + b)[0] == a[0]);
        assert(encode_utf8(a + b) =~= encode_utf8(a) + encode_utf8(b));
    }
}

/// The encoding of a text of one character below 128 is that one byte.
pub proof fn lemma_encode_single_ascii(c: char)
    requires
        (c as u32) <= 0x7F,
    ensures
        encode_utf8(seq![c]) == seq![(c as u32) as u8],
{
    let text = seq![c];
    lemma_encode_scalar(c);
    assert(text.drop_first() =~= Seq::<char>::empty());
    assert(encode_utf8(text.drop_first()) =~= Seq::<u8>::empty());
    assert(encode_utf8(text) =~= seq![(c as u32) as u8]);
}

/// The encoding of a text is free of null bytes exactly when the text is free
/// of the null character.
pub proof fn lemma_encode_nul(text: Seq<char>)
    ensures
        nul_free(encode_utf8(text)) <==> !has_nul_char(text),
    decreases text.len(),
{
    if text.len() == 0 {
    } else {
        let head = encode_scalar(text[0] as u32);
        let rest = text.drop_first();
        let tail = encode_utf8(rest);
        lemma_encode_nul(rest);
        lemma_encode_scalar(text[0]);
        assert(encode_utf8(text) == head + tail);
        if has_nul_char(text) {
            let i = choose|i: int| 0 <= i < text.len() && text[i] == '\0';
            if i == 0 {
                assert((head + tail)[0] == 0u8);
            } else {
                assert(rest[i - 1] == '\0');
                assert(has_nul_char(rest));
                let j = choose|j: int| 0 <= j < tail.len() && tail[j] == 0u8;
                assert((head + tail)[head.len() + j] == 0u8);
            }
        } else {
            assert(text[0] != '\0');
            if has_nul_char(rest) {
                let i = choose|i: int| 0 <= i < rest.len() && rest[i] == '\0';
                assert(text[i + 1] == '\0');
            }
            assert(nul_free(head));
            assert(nul_free(tail));
            assert forall|k: int| 0 <= k < (head + tail).len() implies (head + tail)[k] != 0u8 by {
                if k < head.len() {
                    assert((head + tail)[k] == head[k]);
                } else {
                    assert((head + tail)[k] == tail[k - head.len()]);
                }
            }
        }
    }
}

} // verus!
