use vstd::prelude::*;

verus! {

/// Bounds and arithmetic meanings of masks and shifts on bytes.
pub proof fn lemma_byte_bits()
    by (bit_vector)
    ensures
        forall|x: u8, m: u8| #[trigger] (x & m) <= m && (x & m) <= x,
        forall|x: u8, m: u8| #[trigger] (x | m) >= m && (x | m) >= x,
        forall|x: u8, k: u8| #[trigger] (x >> k) <= x,
        forall|x: u8, m: u8| #[trigger] ((x & m) & m) == x & m,
        forall|x: u8| #[trigger] (x | 0u8) == x,
        forall|x: u8| #[trigger] (x & 0xF0) == (x / 16) * 16,
        (1u8 << 0u8) == 1 && (1u8 << 1u8) == 2 && (1u8 << 2u8) == 4 && (1u8 << 3u8) == 8,
        (1u8 << 4u8) == 0x10 && (1u8 << 5u8) == 0x20 && (1u8 << 6u8) == 0x40 && (1u8 << 7u8) == 0x80,
        forall|x: u8| #[trigger] (x >> 4u8) <= 15,
        forall|x: u8| #[trigger] (x >> 5u8) <= 7,
        forall|x: u8| #[trigger] (x >> 6u8) <= 3,
        forall|x: u8| #[trigger] (x >> 7u8) <= 1,
        forall|x: u8| #[trigger] (x & 0x01) == x % 2,
        forall|x: u8| #[trigger] (x & 0x03) == x % 4,
        forall|x: u8| #[trigger] (x & 0x07) == x % 8,
        forall|x: u8| #[trigger] (x & 0x0F) == x % 16,
        forall|x: u8| #[trigger] (x & 0x1F) == x % 32,
        forall|x: u8| #[trigger] (x & 0x3F) == x % 64,
        forall|x: u8| #[trigger] (x & 0x7F) == x % 128,
        forall|x: u8| #[trigger] (x >> 1u8) == x / 2,
        forall|x: u8| #[trigger] (x >> 3u8) == x / 8,
        forall|x: u8, t: u8| x <= 0x1F && 5 <= t ==> #[trigger] ((x >> t) & 1u8) == 0u8,
        forall|x: u8| #[trigger] (x >> 4u8) == x / 16,
        forall|a: u8, b: u8| a <= 0x0F && b <= 0x0F ==> #[trigger] (a | b) <= 0x0F,
        forall|a: u8, b: u8| a <= 0x1F && b <= 0x1F ==> #[trigger] (a | b) <= 0x1F,
        forall|a: u8, b: u8| a <= 0x03 && b <= 0x03 ==> #[trigger] (a | b) <= 0x03,
{
}

/// Bounds of masks, shifts and unions on 16-bit words.
pub proof fn lemma_word_bits()
    by (bit_vector)
    ensures
        forall|x: u16, m: u16| #[trigger] (x & m) <= m && (x & m) <= x,
        forall|a: u16, b: u16| a <= 0x7FF && b <= 0x7FF ==> #[trigger] (a | b) <= 0x7FF,
        forall|a: u16, b: u16| a <= 0x1FF && b <= 0x1FF ==> #[trigger] (a | b) <= 0x1FF,
        forall|x: u16| x <= 7 ==> #[trigger] (x << 8u16) <= 0x700,
        forall|x: u16| x <= 1 ==> #[trigger] (x << 8u16) <= 0x100,
        forall|x: u16| #[trigger] (x >> 8u16) == x / 256,
        forall|x: u16| #[trigger] (x & 0xFF) == x % 256,
        0x200u16 & 0x1FF == 0,
        forall|h: u16, l: u16| h <= 0xFF && l <= 0xFF ==> #[trigger] ((h << 8u16) | l) == h * 256 + l,
{
}

} // verus!
