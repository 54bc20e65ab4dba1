use vstd::prelude::*;

verus! {

/// One shift step of the CRC-16/CCITT table computation: shift left once,
/// folding in the polynomial 0x1021 when the top bit falls out.
pub open spec fn spec_crc_shift(c: u16) -> u16 {
    if c & 0x8000 != 0 {
        (c << 1) ^ 0x1021
    } else {
        c << 1
    }
}

/// `n` shift steps applied to `c`.
pub open spec fn spec_crc_shifts(c: u16, n: nat) -> u16
    decreases n,
{
    if n == 0 {
        c
    } else {
        spec_crc_shift(spec_crc_shifts(c, (n - 1) as nat))
    }
}

/// Entry `i` of the CRC-16/CCITT table: the slot seed `i << 8` shifted
/// eight times.
pub open spec fn spec_crc_table_entry(i: int) -> u16 {
    spec_crc_shifts((i as u16) << 8, 8)
}

/// The full 256-entry CRC-16/CCITT table.
pub open spec fn spec_crc_table() -> Seq<u16> {
    Seq::new(256, |i: int| spec_crc_table_entry(i))
}

/// One byte folded into a running CRC with table `t`.
pub open spec fn spec_crc_step(t: Seq<u16>, c: u16, b: u8) -> u16 {
    t[(c >> 8) as int] ^ (c << 8) ^ (b as u16)
}

/// The bytes of `s` folded left to right into the running CRC `c`.
pub open spec fn spec_crc_fold(t: Seq<u16>, s: Seq<u8>, c: u16) -> u16
    decreases s.len(),
{
    if s.len() == 0 {
        c
    } else {
        spec_crc_fold(t, s.drop_first(), spec_crc_step(t, c, s[0]))
    }
}

/// The two bytes of `c` exchanged.
pub open spec fn spec_swap_bytes(c: u16) -> u16 {
    (c >> 8) | (c << 8)
}

/// The checksum of `s` under table `t`: the fold from 0, byte-swapped.
pub open spec fn spec_crc_compute(t: Seq<u16>, s: Seq<u8>) -> u16 {
    spec_swap_bytes(spec_crc_fold(t, s, 0))
}

/// A 16-bit big-endian quantity assembled from two bytes.
pub open spec fn spec_be16(hi: u8, lo: u8) -> int {
    hi * 256 + lo
}

/// Builds the 256-entry CRC-16/CCITT lookup table, polynomial 0x1021.
/// Computed once; safe to share read-only across all callers.
pub fn crc_init() -> (table: Vec<u16>)
    ensures
        table@ == spec_crc_table(),
{
    let mut crc_table: Vec<u16> = Vec::new();
    let mut i: usize = 0;
    while i < 256
        invariant
            i <= 256,
            crc_table@.len() == i,
            forall|j: int| 0 <= j < i ==> crc_table@[j] == spec_crc_table_entry(j),
        decreases 256 - i,
    {
        let mut crc: u16 = (i as u16) << 8;
        let mut k: usize = 0;
        while k < 8
            invariant
                k <= 8,
                crc == spec_crc_shifts((i as u16) << 8, k as nat),
            decreases 8 - k,
        {
            crc = if (crc & 0x8000) > 0 {
                (crc << 1) ^ 0x1021
            } else {
                crc << 1
            };
            k += 1;
        }
        crc_table.push(crc);
        i += 1;
    }
    proof {
        assert(crc_table@ =~= spec_crc_table());
    }
    crc_table
}

/// Folds every byte of `buf` into a CRC starting from 0, then byte-swaps
/// the result: the exact update rule of the GDL-90 wire contract.
pub fn crc_compute(crc_table: &[u16], buf: &[u8]) -> (r: u16)
    requires
        crc_table@.len() == 256,
    ensures
        r == spec_crc_compute(crc_table@, buf@),
{
    let mut crc: u16 = 0;
    let mut i: usize = 0;
    proof {
        assert(buf@.skip(0) =~= buf@);
    }
    while i < buf.len()
        invariant
            crc_table@.len() == 256,
            i <= buf@.len(),
            spec_crc_fold(crc_table@, buf@.skip(i as int), crc) == spec_crc_fold(
                crc_table@,
                buf@,
                0,
            ),
        decreases buf@.len() - i,
    {
        proof {
            assert(buf@.skip(i as int)[0] == buf@[i as int]);
            assert(buf@.skip(i as int).drop_first() =~= buf@.skip(i + 1));
        }
        assert(crc >> 8 < 256) by (bit_vector);
        let idx = (crc >> 8) as usize;
        crc = crc_table[idx] ^ (crc << 8) ^ (buf[i] as u16);
        i += 1;
    }
    proof {
        assert(buf@.skip(buf@.len() as int) =~= Seq::<u8>::empty());
    }
    (crc >> 8) | (crc << 8)
}

/// True exactly when the last two bytes of `buf` hold, big-endian, the
/// checksum of everything before them.
pub open spec fn spec_crc_ok(t: Seq<u16>, s: Seq<u8>) -> bool {
    spec_be16(s[s.len() - 2], s[s.len() - 1]) == spec_crc_compute(t, s.take(s.len() - 2))
}

/// Recomputes the checksum over all of `buf` but its trailing two CRC bytes
/// and compares it against that big-endian CRC field.
pub fn crc_verify(crc_table: &[u16], buf: &[u8]) -> (r: bool)
    requires
        crc_table@.len() == 256,
        buf@.len() >= 2,
    ensures
        r == spec_crc_ok(crc_table@, buf@),
{
    let n = buf.len();
    let wire: u16 = (buf[n - 2] as u16) * 256 + (buf[n - 1] as u16);
    let body = vstd::slice::slice_subrange(buf, 0, n - 2);
    let comp = crc_compute(crc_table, body);
    wire == comp
}

} // verus!
