//! Small ambient facts about bit masking, used throughout the decoders.

use vstd::prelude::*;

verus! {

/// Masking never exceeds the mask.
pub broadcast proof fn lemma_u8_and_bound(x: u8, m: u8)
    by (bit_vector)
    ensures
        #[trigger] (x & m) <= m,
{
}

/// Masking never exceeds the mask.
pub broadcast proof fn lemma_u16_and_bound(x: u16, m: u16)
    by (bit_vector)
    ensures
        #[trigger] (x & m) <= m,
{
}

/// Masking never exceeds the mask.
pub broadcast proof fn lemma_u32_and_bound(x: u32, m: u32)
    by (bit_vector)
    ensures
        #[trigger] (x & m) <= m,
{
}

/// Masking never increases the value.
pub broadcast proof fn lemma_u32_and_le_self(x: u32, m: u32)
    by (bit_vector)
    ensures
        #[trigger] (x & m) <= x,
{
}

/// Stepping to the next byte steps the masked address, while the masked
/// address stays inside the bus range.
pub broadcast proof fn lemma_mask_adjacent(x: u32)
    by (bit_vector)
    ensures
        (x & 0x0FFFFFFFu32) < 0x0FFFFFFFu32 && x < 0xFFFFFFFFu32 ==> #[trigger] (((x
            + 1) as u32) & 0x0FFFFFFFu32) == (x & 0x0FFFFFFFu32) + 1,
{
}

/// Masking an address that already fits the bus width changes nothing.
pub broadcast proof fn lemma_mask_small(a: u32)
    by (bit_vector)
    ensures
        a <= 0x0FFFFFFFu32 ==> #[trigger] (a & 0x0FFFFFFFu32) == a,
{
}

} // verus!
