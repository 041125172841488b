//! Arguments in the form the operating system takes them: bytes with no NUL among them.

use crate::util::text::{occurs_at, replace_all, texts};
use vstd::prelude::*;
use vstd::utf8::*;

verus! {

/// No byte of `bytes` is NUL.
pub open spec fn nul_free(bytes: Seq<u8>) -> bool {
    forall|i: int| 0 <= i < bytes.len() ==> bytes[i] != 0
}

/// No character of `text` is NUL.
pub open spec fn text_nul_free(text: Seq<char>) -> bool {
    forall|i: int| 0 <= i < text.len() ==> text[i] as u32 != 0
}

/// The first byte a character is written with is NUL only for the NUL character.
proof fn lemma_leading_byte_nul(scalar: u32)
    by (bit_vector)
    requires
        scalar <= 0x7F,
    ensures
        ((scalar & 0x7F) as u8 == 0) == (scalar == 0),
{
}

/// A byte with one of its two high bits set is not NUL.
proof fn lemma_marked_byte_not_nul(mark: u8, bits: u8)
    by (bit_vector)
    requires
        mark == 0x80 || mark == 0xC0 || mark == 0xE0 || mark == 0xF0,
    ensures
        mark | bits != 0,
{
}

/// The bytes one character is written with hold a NUL only if the character is NUL.
proof fn lemma_encode_scalar_nul(c: char)
    ensures
        nul_free(encode_scalar(c as u32)) == (c as u32 != 0),
{
    let scalar = c as u32;
    let bytes = encode_scalar(scalar);
    if has_width_1_encoding(scalar) {
        lemma_leading_byte_nul(scalar);
        assert(bytes[0] == (scalar & 0x7F) as u8);
    } else {
        lemma_marked_byte_not_nul(0xC0, ((scalar >> 6) & 0x1F) as u8);
        lemma_marked_byte_not_nul(0xE0, ((scalar >> 12) & 0x0F) as u8);
        lemma_marked_byte_not_nul(0xF0, ((scalar >> 18) & 0x7) as u8);
        lemma_marked_byte_not_nul(0x80, (scalar & 0x3F) as u8);
        lemma_marked_byte_not_nul(0x80, ((scalar >> 6) & 0x3F) as u8);
        lemma_marked_byte_not_nul(0x80, ((scalar >> 12) & 0x3F) as u8);
    }
}

/// A text written as UTF-8 holds a NUL byte exactly if it holds the NUL character.
pub proof fn lemma_encode_utf8_nul(text: Seq<char>)
    ensures
        nul_free(encode_utf8(text)) == text_nul_free(text),
    decreases text.len(),
{
    if text.len() > 0 {
        let head = encode_scalar(text[0] as u32);
        let rest = encode_utf8(text.drop_first());
        lemma_encode_scalar_nul(text[0]);
        lemma_encode_utf8_nul(text.drop_first());
        if !text_nul_free(text) {
            let i = choose|i: int| 0 <= i < text.len() && text[i] as u32 == 0;
            if i == 0 {
                let k = choose|k: int| 0 <= k < head.len() && head[k] == 0;
                assert((head + rest)[k] == 0);
            } else {
                assert(text.drop_first()[i - 1] == text[i]);
                let k = choose|k: int| 0 <= k < rest.len() && rest[k] == 0;
                assert((head + rest)[head.len() + k] == 0);
            }
        }
    }
}

/// A value free of NUL put into a text free of NUL gives a text free of NUL.
pub proof fn lemma_replace_all_nul_free(text: Seq<char>, token: Seq<char>, value: Seq<char>)
    requires
        text_nul_free(text),
        text_nul_free(value),
    ensures
        text_nul_free(replace_all(text, token, value)),
    decreases text.len(),
{
    if text.len() > 0 {
        let step: int = if token.len() > 0 && occurs_at(text, token, 0) {
            token.len() as int
        } else {
            1
        };
        let rest = text.skip(step);
        lemma_replace_all_nul_free(rest, token, value);
    }
}

/// An argument as the operating system takes it: a run of bytes, none of them NUL.
#[derive(Debug, PartialEq, Eq)]
pub struct CString {
    bytes: Vec<u8>,
}

impl View for CString {
    type V = Seq<u8>;

    closed spec fn view(&self) -> Seq<u8> {
        self.bytes@
    }
}

impl CString {
    #[verifier::type_invariant]
    spec fn holds_no_nul(&self) -> bool {
        nul_free(self.bytes@)
    }

    /// The bytes of the argument.
    pub fn as_bytes(&self) -> (bytes: &[u8])
        ensures
            bytes@ == self@,
            nul_free(bytes@),
    {
        proof {
            use_type_invariant(self);
        }
        self.bytes.as_slice()
    }

    /// The bytes of the argument, given up by it.
    pub fn into_bytes(self) -> (bytes: Vec<u8>)
        ensures
            bytes@ == self@,
            nul_free(bytes@),
    {
        proof {
            use_type_invariant(&self);
        }
        self.bytes
    }
}

impl Clone for CString {
    fn clone(&self) -> (copy: Self)
        ensures
            copy@ == self@,
    {
        proof {
            use_type_invariant(self);
        }
        let bytes = self.bytes.clone();
        CString { bytes }
    }
}

/// The bytes of each of `args`.
pub open spec fn arg_bytes(args: Seq<CString>) -> Seq<Seq<u8>> {
    args.map_values(|arg: CString| arg@)
}

/// Each of `texts` written as UTF-8.
pub open spec fn encoded(texts: Seq<Seq<char>>) -> Seq<Seq<u8>> {
    texts.map_values(|text: Seq<char>| encode_utf8(text))
}

/// None of `texts` holds the NUL character.
pub open spec fn texts_nul_free(texts: Seq<Seq<char>>) -> bool {
    forall|i: int| 0 <= i < texts.len() ==> text_nul_free(#[trigger] texts[i])
}

/// Whether no byte of `bytes` is NUL.
pub fn is_nul_free(bytes: &[u8]) -> (free: bool)
    ensures
        free == nul_free(bytes@),
{
    let n = bytes.len();
    let mut i: usize = 0;
    while i < n
        invariant
            n == bytes@.len(),
            i <= n,
            forall|j: int| 0 <= j < i ==> bytes@[j] != 0,
        decreases n - i,
    {
        if bytes[i] == 0 {
            return false;
        }
        i += 1;
    }
    true
}

/// Whether no character of `text` is NUL.
pub fn is_text_nul_free(text: &str) -> (free: bool)
    ensures
        free == text_nul_free(text@),
{
    proof {
        lemma_encode_utf8_nul(text@);
    }
    is_nul_free(text.as_bytes())
}

/// Whether none of `strings` holds the NUL character.
pub fn are_texts_nul_free(strings: &[String]) -> (free: bool)
    ensures
        free == texts_nul_free(texts(strings@)),
{
    let n = strings.len();
    let mut i: usize = 0;
    while i < n
        invariant
            n == strings@.len(),
            i <= n,
            forall|j: int| 0 <= j < i ==> text_nul_free(#[trigger] texts(strings@)[j]),
        decreases n - i,
    {
        if !is_text_nul_free(strings[i].as_str()) {
            assert(!text_nul_free(texts(strings@)[i as int]));
            return false;
        }
        i += 1;
    }
    true
}

/// The argument made of the bytes `src`, which must hold no NUL.
pub fn to_cstring(src: Vec<u8>) -> (arg: CString)
    requires
        nul_free(src@),
    ensures
        arg@ == src@,
{
    CString { bytes: src }
}

/// The argument made of `text` written as UTF-8; the text must hold no NUL character.
pub fn str_to_cstring(text: &str) -> (arg: CString)
    requires
        text_nul_free(text@),
    ensures
        arg@ == encode_utf8(text@),
{
    proof {
        lemma_encode_utf8_nul(text@);
    }
    to_cstring(text.as_bytes_vec())
}

} // verus!
