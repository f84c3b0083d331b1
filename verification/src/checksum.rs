//! The boot checksum: what the console's boot code computes over the first
//! mebibyte of the payload before it hands control to it.
//!
//! The algorithm reads that window as big-endian 32-bit words and keeps six
//! 32-bit sums, all of them modulo 2^32. Which seed the sums start from, how
//! one of them is fed, and how the six are folded into 64 bits depends on the
//! boot stage, which is recognised by its CRC-32.

use crate::buffer::{bytes_from_vec, get_u32, has_remaining, unread};
use crate::codec::be_u32;
use vstd::prelude::*;
use vstd::slice::{slice_subrange, slice_to_vec};

verus! {

/// Bytes of the payload that the checksum covers.
pub const WINDOW_BYTES: usize = 0x10_0000;

/// Words of the payload that the checksum covers.
pub const WINDOW_WORDS: usize = 0x4_0000;

/// Where in the boot stage the table of the 6105 variant starts.
pub const TABLE_START: usize = 0x710;

/// Where in the boot stage the table of the 6105 variant ends.
pub const TABLE_END: usize = 0x750;

/// Words in that table.
pub const TABLE_WORDS: usize = 16;

/// The families of boot stage that the checksum tells apart.
#[derive(Clone, Copy, Debug, PartialEq, Eq, Structural)]
pub enum Variant {
    /// 6103 and 7103.
    X103,
    /// 6105 and 7105.
    X105,
    /// 6106 and 7106.
    X106,
    /// 6101, 6102, 7101 and 7102.
    Others,
}

/// The six running sums.
#[derive(Clone, Copy, Debug, PartialEq, Eq, Structural)]
pub struct Sums {
    pub t1: u32,
    pub t2: u32,
    pub t3: u32,
    pub t4: u32,
    pub t5: u32,
    pub t6: u32,
}

/// The seed of a boot chip times the multiplier of its boot stage, plus one,
/// cut to 32 bits.
pub open spec fn seed_value(seed: int, multiplier: int) -> u32 {
    ((seed * multiplier + 1) % 0x1_0000_0000) as u32
}

/// The variant and the initial value of the sums for a boot stage with the
/// given CRC-32, or `None` for a boot stage that is not one of the known six.
pub open spec fn variant_of(fingerprint: u32) -> Option<(u32, Variant)> {
    if fingerprint == 0x6170_A4A1 || fingerprint == 0x90BB_6CB5 || fingerprint == 0x009E_9EA3 {
        Some((seed_value(0x3F, 0x5D58_8B65), Variant::Others))
    } else if fingerprint == 0x0B05_0EE0 {
        Some((seed_value(0x78, 0x6C07_8965), Variant::X103))
    } else if fingerprint == 0x98BC_2C86 {
        Some((seed_value(0x91, 0x5D58_8B65), Variant::X105))
    } else if fingerprint == 0xACC8_580A {
        Some((seed_value(0x85, 0x6C07_8965), Variant::X106))
    } else {
        None
    }
}

/// `w` with its bits moved left by `r` places, those that leave at the top
/// coming back in at the bottom.
pub open spec fn rotated(w: u32, r: u32) -> u32
    recommends
        r < 32,
{
    if r == 0 {
        w
    } else {
        (w << r) | (w >> ((32 - r) as u32))
    }
}

/// Word `k` of a byte string read as big-endian 32-bit words.
pub open spec fn word_at(bytes: Seq<u8>, k: int) -> u32 {
    be_u32(bytes.subrange(4 * k, 4 * k + 4))
}

/// The table word that goes with word `k` of the payload: the 64 bytes of the
/// boot stage from `TABLE_START` on, read as 16 words, over and over.
pub open spec fn table_word(ipl3: Seq<u8>, k: int) -> u32 {
    word_at(ipl3.subrange(TABLE_START as int, TABLE_END as int), k % (TABLE_WORDS as int))
}

/// The sums after one more word `w` of the payload. `table` is the table
/// word that goes with it; only the 6105 variant reads it.
pub open spec fn step(s: Sums, w: u32, table: u32, variant: Variant) -> Sums {
    let rot = rotated(w, w & 0x1F);
    let t6 = s.t6.wrapping_add(w);
    let t5 = s.t5.wrapping_add(rot);
    Sums {
        t1: if variant == Variant::X105 {
            s.t1.wrapping_add(table ^ w)
        } else {
            s.t1.wrapping_add(t5 ^ w)
        },
        t2: if s.t2 > w {
            s.t2 ^ rot
        } else {
            s.t2 ^ (t6 ^ w)
        },
        t3: s.t3 ^ w,
        t4: if s.t6 + w > u32::MAX {
            s.t4.wrapping_add(1)
        } else {
            s.t4
        },
        t5,
        t6,
    }
}

/// The sums after the first `n` words of the payload.
pub open spec fn sums_after(
    binary: Seq<u8>,
    ipl3: Seq<u8>,
    variant: Variant,
    initial: u32,
    n: nat,
) -> Sums
    decreases n,
{
    if n == 0 {
        Sums { t1: initial, t2: initial, t3: initial, t4: initial, t5: initial, t6: initial }
    } else {
        step(
            sums_after(binary, ipl3, variant, initial, (n - 1) as nat),
            word_at(binary, n - 1),
            table_word(ipl3, n - 1),
            variant,
        )
    }
}

/// Two 32-bit halves as one 64-bit value.
pub open spec fn joined(high: u32, low: u32) -> u64 {
    (high as int * 0x1_0000_0000 + low as int) as u64
}

/// The 64-bit checksum that the final sums fold into.
pub open spec fn folded(s: Sums, variant: Variant) -> u64 {
    match variant {
        Variant::X103 => joined(
            (s.t6 ^ s.t4).wrapping_add(s.t3),
            (s.t5 ^ s.t2).wrapping_add(s.t1),
        ),
        Variant::X106 => joined(
            s.t6.wrapping_mul(s.t4).wrapping_add(s.t3),
            s.t5.wrapping_mul(s.t2).wrapping_add(s.t1),
        ),
        _ => joined((s.t6 ^ s.t4) ^ s.t3, (s.t5 ^ s.t2) ^ s.t1),
    }
}

/// The boot checksum of a payload under a boot stage with the given CRC-32:
/// zero for a boot stage that is not known, else the fold of the sums over
/// the first `WINDOW_WORDS` words of the payload.
pub open spec fn boot_checksum(binary: Seq<u8>, ipl3: Seq<u8>, fingerprint: u32) -> u64 {
    match variant_of(fingerprint) {
        None => 0,
        Some((initial, variant)) => folded(
            sums_after(binary, ipl3, variant, initial, WINDOW_WORDS as nat),
            variant,
        ),
    }
}

/// The sums over the first `n` words are the same for two payloads that
/// agree on the window.
pub proof fn lemma_sums_read_window(
    a: Seq<u8>,
    b: Seq<u8>,
    ipl3: Seq<u8>,
    variant: Variant,
    initial: u32,
    n: nat,
)
    requires
        a.len() >= WINDOW_BYTES,
        b.len() >= WINDOW_BYTES,
        a.subrange(0, WINDOW_BYTES as int) == b.subrange(0, WINDOW_BYTES as int),
        n <= WINDOW_WORDS,
    ensures
        sums_after(a, ipl3, variant, initial, n) == sums_after(b, ipl3, variant, initial, n),
    decreases n,
{
    if n > 0 {
        lemma_sums_read_window(a, b, ipl3, variant, initial, (n - 1) as nat);
        let k = n - 1;
        assert forall|j: int| 0 <= j < WINDOW_BYTES implies a[j] == b[j] by {
            assert(a[j] == a.subrange(0, WINDOW_BYTES as int)[j]);
            assert(b[j] == b.subrange(0, WINDOW_BYTES as int)[j]);
        }
        assert(a.subrange(4 * k, 4 * k + 4) =~= b.subrange(4 * k, 4 * k + 4));
    }
}

/// The checksum reads the first `WINDOW_BYTES` bytes of the payload and
/// nothing after them.
pub proof fn lemma_checksum_reads_window(a: Seq<u8>, b: Seq<u8>, ipl3: Seq<u8>, fingerprint: u32)
    requires
        a.len() >= WINDOW_BYTES,
        b.len() >= WINDOW_BYTES,
        a.subrange(0, WINDOW_BYTES as int) == b.subrange(0, WINDOW_BYTES as int),
    ensures
        boot_checksum(a, ipl3, fingerprint) == boot_checksum(b, ipl3, fingerprint),
{
    match variant_of(fingerprint) {
        Some((initial, variant)) => {
            lemma_sums_read_window(a, b, ipl3, variant, initial, WINDOW_WORDS as nat);
        },
        None => {},
    }
}

/// Bytes appended to a payload that fills the window leave its checksum as
/// it was.
pub proof fn lemma_append_keeps_checksum(
    binary: Seq<u8>,
    extra: Seq<u8>,
    ipl3: Seq<u8>,
    fingerprint: u32,
)
    requires
        binary.len() >= WINDOW_BYTES,
    ensures
        boot_checksum(binary + extra, ipl3, fingerprint) == boot_checksum(
            binary,
            ipl3,
            fingerprint,
        ),
{
    assert((binary + extra).subrange(0, WINDOW_BYTES as int) =~= binary.subrange(
        0,
        WINDOW_BYTES as int,
    ));
    lemma_checksum_reads_window(binary + extra, binary, ipl3, fingerprint);
}

/// Picks the variant and the initial value of the sums for a fingerprint.
pub fn select_variant(fingerprint: u32) -> (r: Option<(u32, Variant)>)
    ensures
        r == variant_of(fingerprint),
{
    if fingerprint == 0x6170_A4A1 || fingerprint == 0x90BB_6CB5 || fingerprint == 0x009E_9EA3 {
        Some((initial_value(0x3F, 0x5D58_8B65), Variant::Others))
    } else if fingerprint == 0x0B05_0EE0 {
        Some((initial_value(0x78, 0x6C07_8965), Variant::X103))
    } else if fingerprint == 0x98BC_2C86 {
        Some((initial_value(0x91, 0x5D58_8B65), Variant::X105))
    } else if fingerprint == 0xACC8_580A {
        Some((initial_value(0x85, 0x6C07_8965), Variant::X106))
    } else {
        None
    }
}

/// `seed * multiplier + 1`, cut to 32 bits.
pub fn initial_value(seed: u8, multiplier: u32) -> (r: u32)
    ensures
        r == seed_value(seed as int, multiplier as int),
{
    assert(seed as u64 * multiplier as u64 + 1 <= 0xFF * 0xFFFF_FFFF + 1) by (nonlinear_arith)
        requires
            seed <= 0xFF,
            multiplier <= 0xFFFF_FFFF,
    ;
    let wide: u64 = seed as u64 * multiplier as u64 + 1;
    (wide % 0x1_0000_0000) as u32
}

/// Rotates `w` left by `r` places.
pub fn rotate_left(w: u32, r: u32) -> (out: u32)
    requires
        r < 32,
    ensures
        out == rotated(w, r),
{
    if r == 0 {
        w
    } else {
        (w << r) | (w >> (32 - r))
    }
}

/// Feeds one word of the payload to the sums.
pub fn advance(s: Sums, w: u32, table: u32, variant: Variant) -> (out: Sums)
    ensures
        out == step(s, w, table, variant),
{
    assert(w & 0x1F < 32) by (bit_vector);
    let rot = rotate_left(w, w & 0x1F);
    let t6 = s.t6.wrapping_add(w);
    let t4 = if t6 < s.t6 {
        s.t4.wrapping_add(1)
    } else {
        s.t4
    };
    let t3 = s.t3 ^ w;
    let t5 = s.t5.wrapping_add(rot);
    let t2 = if s.t2 > w {
        s.t2 ^ rot
    } else {
        s.t2 ^ (t6 ^ w)
    };
    let t1 = if variant == Variant::X105 {
        s.t1.wrapping_add(table ^ w)
    } else {
        s.t1.wrapping_add(t5 ^ w)
    };
    Sums { t1, t2, t3, t4, t5, t6 }
}

/// Joins two 32-bit halves into one 64-bit value.
pub fn join(high: u32, low: u32) -> (r: u64)
    ensures
        r == joined(high, low),
{
    assert(((high as u64) << 32) | (low as u64) == high as u64 * 0x1_0000_0000 + low as u64)
        by (bit_vector);
    ((high as u64) << 32) | (low as u64)
}

/// Folds the final sums into the checksum.
pub fn fold(s: Sums, variant: Variant) -> (r: u64)
    ensures
        r == folded(s, variant),
{
    match variant {
        Variant::X103 => join((s.t6 ^ s.t4).wrapping_add(s.t3), (s.t5 ^ s.t2).wrapping_add(s.t1)),
        Variant::X106 => join(
            s.t6.wrapping_mul(s.t4).wrapping_add(s.t3),
            s.t5.wrapping_mul(s.t2).wrapping_add(s.t1),
        ),
        _ => join((s.t6 ^ s.t4) ^ s.t3, (s.t5 ^ s.t2) ^ s.t1),
    }
}

/// Whether `table` holds the table of the 6105 variant of a boot stage.
pub open spec fn is_table_of(table: Seq<u32>, ipl3: Seq<u8>) -> bool {
    &&& table.len() == TABLE_WORDS
    &&& forall|k: int| 0 <= k < TABLE_WORDS ==> table[k] == table_word(ipl3, k)
}

/// In a run of bytes at least as long as the window, the bytes of the
/// window from word `n` on start with word `n`, and go on with those from
/// word `n + 1` on.
proof fn lemma_next_word(binary: Seq<u8>, n: int)
    requires
        binary.len() >= WINDOW_BYTES,
        0 <= n < WINDOW_WORDS,
    ensures
        binary.subrange(0, WINDOW_BYTES as int).skip(4 * n).len() >= 4,
        binary.subrange(0, WINDOW_BYTES as int).skip(4 * n).take(4) == binary.subrange(
            4 * n,
            4 * n + 4,
        ),
        binary.subrange(0, WINDOW_BYTES as int).skip(4 * n).skip(4) == binary.subrange(
            0,
            WINDOW_BYTES as int,
        ).skip(4 * (n + 1)),
{
    let window = binary.subrange(0, WINDOW_BYTES as int);
    assert(window.skip(4 * n).take(4) =~= binary.subrange(4 * n, 4 * n + 4));
    assert(window.skip(4 * n).skip(4) =~= window.skip(4 * (n + 1)));
}

/// The table word that goes with word `n` of the payload stands in the
/// table at `n` modulo the length of the table.
proof fn lemma_table_entry(table: Seq<u32>, ipl3: Seq<u8>, n: int, slot: int)
    requires
        is_table_of(table, ipl3),
        0 <= n,
        slot == n % (TABLE_WORDS as int),
    ensures
        0 <= slot < TABLE_WORDS,
        table[slot] == table_word(ipl3, n),
        (n + 1) % (TABLE_WORDS as int) == if slot + 1 == TABLE_WORDS {
            0
        } else {
            slot + 1
        },
{
    assert(table[slot] == table_word(ipl3, slot));
}

/// Reads the table of the 6105 variant out of a boot stage.
pub fn read_table(ipl3: &[u8; 4032]) -> (table: Vec<u32>)
    ensures
        is_table_of(table@, ipl3@),
{
    let window = slice_to_vec(slice_subrange(ipl3.as_slice(), TABLE_START, TABLE_END));
    let ghost bytes = window@;
    let mut data = bytes_from_vec(window);
    let mut table: Vec<u32> = Vec::new();
    while has_remaining(&data)
        invariant
            bytes == ipl3@.subrange(TABLE_START as int, TABLE_END as int),
            table@.len() <= TABLE_WORDS,
            unread(data) == bytes.skip(4 * (table@.len() as int)),
            forall|k: int| 0 <= k < table@.len() ==> table@[k] == table_word(ipl3@, k),
        decreases TABLE_WORDS - table@.len(),
    {
        let ghost k = table@.len() as int;
        assert(unread(data).take(4) =~= bytes.subrange(4 * k, 4 * k + 4));
        let word = get_u32(&mut data);
        assert(unread(data) =~= bytes.skip(4 * (k + 1)));
        table.push(word);
    }
    table
}

/// Computes the boot checksum of `binary` under the boot stage `ipl3`, whose
/// CRC-32 is `fingerprint`.
///
/// A fingerprint that is not one of the known six gives zero: such a boot
/// stage takes no checksum, and that is no error.
pub fn checksum_with_fingerprint(binary: &[u8], ipl3: &[u8; 4032], fingerprint: u32) -> (r: u64)
    requires
        binary@.len() >= WINDOW_BYTES,
    ensures
        r == boot_checksum(binary@, ipl3@, fingerprint),
        variant_of(fingerprint) is None ==> r == 0,
{
    let (initial, variant) = match select_variant(fingerprint) {
        Some(found) => found,
        None => {
            return 0;
        },
    };
    let table = if variant == Variant::X105 {
        read_table(ipl3)
    } else {
        Vec::new()
    };
    let window = slice_to_vec(slice_subrange(binary, 0, WINDOW_BYTES));
    let mut data = bytes_from_vec(window);
    let mut sums = Sums {
        t1: initial,
        t2: initial,
        t3: initial,
        t4: initial,
        t5: initial,
        t6: initial,
    };
    let mut slot: usize = 0;
    let ghost mut n: int = 0;
    while has_remaining(&data)
        invariant
            binary@.len() >= WINDOW_BYTES,
            0 <= n <= WINDOW_WORDS,
            unread(data) == binary@.subrange(0, WINDOW_BYTES as int).skip(4 * n),
            slot == n % (TABLE_WORDS as int),
            variant == Variant::X105 ==> is_table_of(table@, ipl3@),
            sums == sums_after(binary@, ipl3@, variant, initial, n as nat),
        decreases WINDOW_WORDS - n,
    {
        proof {
            lemma_next_word(binary@, n);
        }
        let word = get_u32(&mut data);
        let entry = if variant == Variant::X105 {
            proof {
                lemma_table_entry(table@, ipl3@, n, slot as int);
            }
            table[slot]
        } else {
            0
        };
        sums = advance(sums, word, entry, variant);
        slot = if slot + 1 == TABLE_WORDS {
            0
        } else {
            slot + 1
        };
        proof {
            n = n + 1;
        }
    }
    fold(sums, variant)
}

} // verus!
