//! Shader source text as the driver takes it: terminated by a NUL, and so
//! without one inside.

use vstd::prelude::*;
use vstd::string::StringSliceAdditionalSpecFns;
use vstd::utf8::encode_scalar;
use vstd::utf8::encode_utf8;

verus! {

/// Whether `text` holds no NUL character.
pub open spec fn nul_free(text: Seq<char>) -> bool {
    forall|i: int| 0 <= i < text.len() ==> text[i] != '\0'
}

/// Whether `bytes` holds no zero byte.
pub open spec fn zero_free(bytes: Seq<u8>) -> bool {
    forall|i: int| 0 <= i < bytes.len() ==> bytes[i] != 0u8
}

/// Source text that can be handed to the driver: text without a NUL character.
#[derive(Debug)]
pub struct SourceText {
    text: String,
}

/// Only the scalar zero has a zero byte in its UTF-8 encoding.
proof fn lemma_scalar_zero_bytes(scalar: u32)
    requires
        vstd::utf8::is_scalar(scalar),
    ensures
        zero_free(encode_scalar(scalar)) <==> scalar != 0,
{
    let bytes = encode_scalar(scalar);
    if vstd::utf8::has_width_1_encoding(scalar) {
        assert(((scalar & 0x7F) as u8 == 0u8) <==> scalar == 0) by (bit_vector)
            requires
                scalar <= 0x7F,
        ;
        if scalar != 0 {
            assert(bytes[0] != 0u8);
        } else {
            assert(bytes[0] == 0u8);
        }
    } else {
        assert(0xC0u8 | ((scalar >> 6) & 0x1F) as u8 != 0u8) by (bit_vector);
        assert(0xE0u8 | ((scalar >> 12) & 0x0F) as u8 != 0u8) by (bit_vector);
        assert(0xF0u8 | ((scalar >> 18) & 0x7) as u8 != 0u8) by (bit_vector);
        assert(0x80u8 | (scalar & 0x3F) as u8 != 0u8) by (bit_vector);
        assert(0x80u8 | ((scalar >> 6) & 0x3F) as u8 != 0u8) by (bit_vector);
        assert(0x80u8 | ((scalar >> 12) & 0x3F) as u8 != 0u8) by (bit_vector);
    }
}

/// Text holds a NUL character exactly where its UTF-8 encoding holds a zero
/// byte: no character but NUL is encoded with one.
pub proof fn lemma_nul_free_bytes(text: Seq<char>)
    ensures
        zero_free(encode_utf8(text)) <==> nul_free(text),
    decreases text.len(),
{
    if text.len() > 0 {
        let first = encode_scalar(text[0] as u32);
        let rest = encode_utf8(text.drop_first());
        let all = encode_utf8(text);
        assert(all == first + rest);
        vstd::utf8::char_is_scalar(text[0]);
        lemma_scalar_zero_bytes(text[0] as u32);
        assert((text[0] as u32 == 0) <==> text[0] == '\0') by {
            vstd::utf8::char_u32_cast(text[0], text[0] as u32);
            vstd::utf8::char_u32_cast('\0', 0u32);
        }
        lemma_nul_free_bytes(text.drop_first());
        if nul_free(text) {
            assert(text[0] != '\0');
            assert(nul_free(text.drop_first())) by {
                assert forall|i: int| 0 <= i < text.drop_first().len() implies text.drop_first()[i]
                    != '\0' by {
                    assert(text.drop_first()[i] == text[i + 1]);
                }
            }
            assert forall|i: int| 0 <= i < all.len() implies all[i] != 0u8 by {
                if i < first.len() {
                    assert(all[i] == first[i]);
                } else {
                    assert(all[i] == rest[i - first.len()]);
                }
            }
        }
        if zero_free(all) {
            assert forall|i: int| 0 <= i < first.len() implies first[i] != 0u8 by {
                assert(all[i] == first[i]);
            }
            assert forall|i: int| 0 <= i < rest.len() implies rest[i] != 0u8 by {
                assert(all[i + first.len()] == rest[i]);
            }
            assert forall|i: int| 0 <= i < text.len() implies text[i] != '\0' by {
                if i > 0 {
                    assert(text.drop_first()[i - 1] == text[i]);
                }
            }
        }
    }
}

impl View for SourceText {
    type V = Seq<char>;

    closed spec fn view(&self) -> Seq<char> {
        self.text@
    }
}

impl SourceText {
    #[verifier::type_invariant]
    spec fn well_formed(self) -> bool {
        nul_free(self.text@)
    }

    /// Takes `text` as source text, unless it holds a NUL character.
    pub fn new(text: &str) -> (source: Option<SourceText>)
        ensures
            source is Some <==> nul_free(text@),
            source matches Some(taken) ==> taken@ == text@,
    {
        let bytes = text.as_bytes();
        proof {
            lemma_nul_free_bytes(text@);
        }
        let mut i: usize = 0;
        while i < bytes.len()
            invariant
                i <= bytes@.len(),
                forall|j: int| 0 <= j < i ==> bytes@[j] != 0u8,
                zero_free(bytes@) <==> nul_free(text@),
            decreases bytes@.len() - i,
        {
            if bytes[i] == 0 {
                assert(!zero_free(bytes@));
                return None;
            }
            i += 1;
        }
        Some(SourceText { text: text.to_owned() })
    }

    /// The text, as it was taken.
    pub fn as_str(&self) -> (text: &str)
        ensures
            text@ == self@,
            nul_free(text@),
    {
        proof {
            use_type_invariant(self);
        }
        self.text.as_str()
    }
}

} // verus!
