//! The payload: the bytes that are typed into a terminal, built once from the
//! command's tokens and read-only from then on.

use crate::encoding::{
    has_nul_char, lemma_encode_concat, lemma_encode_nul, lemma_encode_single_ascii, nul_free,
};
use crate::error::Error;
use vstd::prelude::*;
use vstd::slice::slice_subrange;
use vstd::string::*;
use vstd::utf8::encode_utf8;

verus! {

/// The tokens joined by single spaces.
pub open spec fn joined(tokens: Seq<Seq<char>>) -> Seq<char>
    decreases tokens.len(),
{
    if tokens.len() == 0 {
        Seq::empty()
    } else if tokens.len() == 1 {
        tokens[0]
    } else {
        joined(tokens.drop_last()) + seq![' '] + tokens.last()
    }
}

/// The text that is typed for a command: its tokens joined by single spaces,
/// followed by a newline unless that is suppressed.
pub open spec fn command_text(tokens: Seq<Seq<char>>, no_newline: bool) -> Seq<char> {
    if no_newline {
        joined(tokens)
    } else {
        joined(tokens) + seq!['\n']
    }
}

/// A null-terminated byte string without an interior null byte.
///
/// The view is the content: the bytes before the terminator.
#[derive(Debug, PartialEq, Eq)]
pub struct Payload {
    raw: Vec<u8>,
}

impl View for Payload {
    type V = Seq<u8>;

    closed spec fn view(&self) -> Seq<u8> {
        self.raw@.drop_last()
    }
}

impl Payload {
    /// The stored bytes end in the only null byte they hold.
    #[verifier::type_invariant]
    pub closed spec fn wf(&self) -> bool {
        &&& self.raw@.len() >= 1
        &&& self.raw@.last() == 0u8
        &&& nul_free(self.raw@.drop_last())
    }

    /// The content followed by the terminating null byte.
    pub closed spec fn with_nul(&self) -> Seq<u8> {
        self.raw@
    }

    /// A well-formed payload is its null-free content followed by one null
    /// byte, so the first null byte that a reader meets is the terminator.
    pub proof fn lemma_terminator(&self)
        requires
            self.wf(),
        ensures
            nul_free(self@),
            self.with_nul() == self@.push(0u8),
            self.with_nul()[self@.len() as int] == 0u8,
            forall|i: int| 0 <= i < self@.len() ==> self.with_nul()[i] != 0u8,
    {
        assert(self.raw@ =~= self.raw@.drop_last().push(self.raw@.last()));
    }

    /// Takes `bytes` as the content of a payload, unless a null byte is among them.
    pub fn new(bytes: Vec<u8>) -> (r: Result<Payload, Error>)
        ensures
            nul_free(bytes@) ==> r is Ok,
            match r {
                Ok(p) => p.wf() && p@ == bytes@ && nul_free(bytes@),
                Err(e) => e == Error::InvalidPayload && !nul_free(bytes@),
            },
    {
        let mut i: usize = 0;
        while i < bytes.len()
            invariant
                i <= bytes.len(),
                forall|k: int| 0 <= k < i ==> bytes@[k] != 0u8,
            decreases bytes.len() - i,
        {
            if bytes[i] == 0u8 {
                return Err(Error::InvalidPayload);
            }
            i += 1;
        }
        let ghost content = bytes@;
        let mut raw = bytes;
        raw.push(0u8);
        assert(raw@.drop_last() =~= content);
        Ok(Payload { raw })
    }

    /// The number of content bytes.
    pub fn len(&self) -> (n: usize)
        ensures
            n == self@.len(),
    {
        proof {
            use_type_invariant(self);
        }
        self.raw.len() - 1
    }

    /// Whether there is nothing to type.
    pub fn is_empty(&self) -> (b: bool)
        ensures
            b == (self@.len() == 0),
    {
        self.len() == 0
    }

    /// The content byte at `index`, or `None` from the terminator on.
    pub fn get(&self, index: usize) -> (b: Option<u8>)
        ensures
            b == (if index < self@.len() {
                Some(self@[index as int])
            } else {
                None
            }),
            b matches Some(byte) ==> byte != 0u8,
    {
        proof {
            use_type_invariant(self);
        }
        if index < self.raw.len() - 1 {
            Some(self.raw[index])
        } else {
            None
        }
    }

    /// The content, without the terminating null byte.
    pub fn as_bytes(&self) -> (bytes: &[u8])
        ensures
            bytes@ == self@,
            nul_free(bytes@),
    {
        proof {
            use_type_invariant(self);
        }
        slice_subrange(self.raw.as_slice(), 0, self.raw.len() - 1)
    }

    /// The content followed by the terminating null byte.
    pub fn as_bytes_with_nul(&self) -> (bytes: &[u8])
        ensures
            bytes@ == self@.push(0u8),
            bytes@ == self.with_nul(),
    {
        proof {
            use_type_invariant(self);
            self.lemma_terminator();
        }
        self.raw.as_slice()
    }
}

impl Clone for Payload {
    /// A payload with the same content.
    fn clone(&self) -> (copy: Self)
        ensures
            copy@ == self@,
            copy.wf(),
    {
        proof {
            use_type_invariant(self);
        }
        let raw = self.raw.clone();
        assert(raw@ =~= self.raw@);
        Payload { raw }
    }
}

/// Appends the bytes of `src` to `dst`.
fn append_bytes(dst: &mut Vec<u8>, src: &[u8])
    ensures
        final(dst)@ == old(dst)@ + src@,
{
    let mut k: usize = 0;
    while k < src.len()
        invariant
            k <= src.len(),
            dst@ == old(dst)@ + src@.take(k as int),
        decreases src.len() - k,
    {
        dst.push(src[k]);
        assert(src@.take(k + 1) =~= src@.take(k as int).push(src@[k as int]));
        k += 1;
    }
    assert(src@.take(src@.len() as int) =~= src@);
}

/// Joining one token more: the encoding grows by a space, unless the token
/// is the first, and by the token's own encoding.
proof fn lemma_joined_step(tokens: Seq<Seq<char>>, i: int)
    requires
        0 <= i < tokens.len(),
    ensures
        encode_utf8(joined(tokens.take(i + 1))) == encode_utf8(joined(tokens.take(i))) + (if i
            == 0 {
            Seq::<u8>::empty()
        } else {
            seq![0x20u8]
        }) + encode_utf8(tokens[i]),
{
    let before = tokens.take(i);
    let upto = tokens.take(i + 1);
    assert(upto.drop_last() =~= before);
    assert(upto.last() == tokens[i]);
    if i == 0 {
        assert(encode_utf8(joined(before)) =~= Seq::<u8>::empty());
        assert(Seq::<u8>::empty() + Seq::<u8>::empty() + encode_utf8(tokens[i]) =~= encode_utf8(
            tokens[i],
        ));
    } else {
        lemma_encode_concat(joined(before) + seq![' '], tokens[i]);
        lemma_encode_concat(joined(before), seq![' ']);
        lemma_encode_single_ascii(' ');
    }
}

/// The byte strings joined by single space bytes.
pub open spec fn joined_bytes(parts: Seq<Seq<u8>>) -> Seq<u8>
    decreases parts.len(),
{
    if parts.len() == 0 {
        Seq::empty()
    } else if parts.len() == 1 {
        parts[0]
    } else {
        joined_bytes(parts.drop_last()) + seq![0x20u8] + parts.last()
    }
}

/// Each token encoded by itself.
pub open spec fn encoded(tokens: Seq<Seq<char>>) -> Seq<Seq<u8>> {
    Seq::new(tokens.len(), |i: int| encode_utf8(tokens[i]))
}

/// The bytes of the joined tokens are the bytes of each token, joined by
/// single space bytes.
pub proof fn lemma_joined_encoding(tokens: Seq<Seq<char>>)
    ensures
        encode_utf8(joined(tokens)) == joined_bytes(encoded(tokens)),
    decreases tokens.len(),
{
    if tokens.len() >= 2 {
        let before = tokens.drop_last();
        lemma_joined_encoding(before);
        assert(encoded(tokens).drop_last() =~= encoded(before));
        lemma_encode_concat(joined(before) + seq![' '], tokens.last());
        lemma_encode_concat(joined(before), seq![' ']);
        lemma_encode_single_ascii(' ');
    }
}

/// The bytes typed for a command are the bytes of its joined tokens, followed
/// by the newline byte unless that is suppressed; and a null byte is among
/// them exactly when the null character is among the joined tokens.
pub proof fn lemma_command_bytes(tokens: Seq<Seq<char>>, no_newline: bool)
    ensures
        encode_utf8(command_text(tokens, no_newline)) == (if no_newline {
            encode_utf8(joined(tokens))
        } else {
            encode_utf8(joined(tokens)).push(0x0Au8)
        }),
        nul_free(encode_utf8(command_text(tokens, no_newline))) <==> !has_nul_char(
            joined(tokens),
        ),
{
    let j = joined(tokens);
    let t = command_text(tokens, no_newline);
    if !no_newline {
        lemma_encode_concat(j, seq!['\n']);
        lemma_encode_single_ascii('\n');
        assert(encode_utf8(j) + seq![0x0Au8] =~= encode_utf8(j).push(0x0Au8));
    }
    lemma_encode_nul(t);
    if has_nul_char(j) {
        let i = choose|i: int| 0 <= i < j.len() && j[i] == '\0';
        assert(t[i] == '\0');
    }
    if has_nul_char(t) {
        let i = choose|i: int| 0 <= i < t.len() && t[i] == '\0';
        assert(j[i] == '\0');
    }
}

/// Builds the payload for a command: the tokens joined by single spaces,
/// followed by a newline unless `no_newline` is set, encoded as UTF-8.
///
/// Fails with [`Error::InvalidPayload`] exactly when the joined tokens hold
/// the null character.
pub fn parse_cmd(cmd: Vec<String>, no_newline: bool) -> (r: Result<Payload, Error>)
    ensures
        r is Ok <==> !has_nul_char(joined(cmd.deep_view())),
        match r {
            Ok(p) => {
                &&& p.wf()
                &&& p@ == encode_utf8(command_text(cmd.deep_view(), no_newline))
                &&& nul_free(p@)
            },
            Err(e) => e == Error::InvalidPayload,
        },
{
    let ghost tokens = cmd.deep_view();
    let mut bytes: Vec<u8> = Vec::new();
    let mut i: usize = 0;
    while i < cmd.len()
        invariant
            i <= cmd.len(),
            tokens == cmd.deep_view(),
            bytes@ == encode_utf8(joined(tokens.take(i as int))),
        decreases cmd.len() - i,
    {
        proof {
            lemma_joined_step(tokens, i as int);
        }
        if i > 0 {
            bytes.push(0x20u8);
        }
        append_bytes(&mut bytes, cmd[i].as_str().as_bytes());
        i += 1;
    }
    assert(tokens.take(i as int) =~= tokens);
    if !no_newline {
        bytes.push(0x0Au8);
    }
    proof {
        lemma_command_bytes(tokens, no_newline);
    }
    Payload::new(bytes)
}

} // verus!
