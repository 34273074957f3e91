use vstd::prelude::*;

verus! {

/// One bit step of the reflected CRC-16 register with polynomial 0xA001
/// (0x8005 bit-reversed), as used by Modbus and by Daly battery frames.
pub open spec fn crc_bit(c: u16) -> u16 {
    if c & 1u16 != 0 {
        (c >> 1u16) ^ 0xA001u16
    } else {
        c >> 1u16
    }
}

/// `n` bit steps of the register, starting from `c`.
pub open spec fn crc_bits(c: u16, n: nat) -> u16
    decreases n,
{
    if n == 0 {
        c
    } else {
        crc_bit(crc_bits(c, (n - 1) as nat))
    }
}

/// The register after absorbing one byte.
pub open spec fn crc_byte(c: u16, b: u8) -> u16 {
    crc_bits(c ^ (b as u16), 8)
}

/// CRC-16 (reflected, polynomial 0xA001, no final xor) of `data`,
/// starting from the register value `init`.
pub open spec fn crc16(data: Seq<u8>, init: u16) -> u16
    decreases data.len(),
{
    if data.len() == 0 {
        init
    } else {
        crc_byte(crc16(data.drop_last(), init), data.last())
    }
}

/// Low byte of a 16-bit value.
pub open spec fn lo_byte(c: u16) -> u8 {
    (c & 0xffu16) as u8
}

/// High byte of a 16-bit value.
pub open spec fn hi_byte(c: u16) -> u8 {
    (c >> 8u16) as u8
}

/// `data` followed by its checksum, low byte first.
pub open spec fn with_checksum(data: Seq<u8>, init: u16) -> Seq<u8> {
    let c = crc16(data, init);
    data + seq![lo_byte(c), hi_byte(c)]
}

/// Computes the CRC-16 of `data` (reflected polynomial 0xA001, as in Modbus),
/// starting from the register value `init`.
pub fn crc16_ibm_with_init(data: &[u8], init: u16) -> (crc: u16)
    ensures
        crc == crc16(data@, init),
{
    let mut crc: u16 = init;
    let n: usize = data.len();
    for i in 0..n
        invariant
            n == data@.len(),
            crc == crc16(data@.take(i as int), init),
    {
        let start: u16 = crc ^ (data[i] as u16);
        crc = start;
        for k in 0..8u32
            invariant
                crc == crc_bits(start, k as nat),
        {
            crc = if (crc & 0x0001) != 0 {
                (crc >> 1) ^ 0xA001
            } else {
                crc >> 1
            };
        }
        assert(data@.take(i + 1).drop_last() =~= data@.take(i as int));
    }
    assert(data@.take(n as int) =~= data@);
    crc
}

/// Feeding data piece by piece gives the same checksum as feeding it at once:
/// the checksum of `a + b` from `init` is the checksum of `b` started from
/// the register left by `a`.
pub proof fn lemma_crc16_concat(a: Seq<u8>, b: Seq<u8>, init: u16)
    ensures
        crc16(a + b, init) == crc16(b, crc16(a, init)),
    decreases b.len(),
{
    if b.len() == 0 {
        assert(a + b =~= a);
    } else {
        lemma_crc16_concat(a, b.drop_last(), init);
        assert((a + b).drop_last() =~= a + b.drop_last());
        assert((a + b).last() == b.last());
    }
}

proof fn lemma_crc_bit_clean(x: u16, n: u16)
    by (bit_vector)
    requires
        1 <= n <= 16,
        x & (((1u32 << n) - 1) as u16) == 0,
    ensures
        (x >> (n - 1) as u16) & 1u16 == 0,
        ((x >> (n - 1) as u16) >> 1u16) == x >> n,
        x & (((1u32 << (n - 1) as u16) - 1) as u16) == 0,
{
}

/// Shifting a register whose low `n` bits are clear never folds in the polynomial.
proof fn lemma_crc_bits_clean(x: u16, n: nat)
    requires
        n <= 16,
        x & (((1u32 << n as u16) - 1) as u16) == 0,
    ensures
        crc_bits(x, n) == x >> n as u16,
    decreases n,
{
    if n == 0 {
        assert(x >> 0u16 == x) by (bit_vector);
    } else {
        lemma_crc_bit_clean(x, n as u16);
        lemma_crc_bits_clean(x, (n - 1) as nat);
    }
}

proof fn lemma_crc_bits_zero(n: nat)
    ensures
        crc_bits(0, n) == 0,
    decreases n,
{
    if n > 0 {
        lemma_crc_bits_zero((n - 1) as nat);
        assert(0u16 & 1u16 == 0 && 0u16 >> 1u16 == 0) by (bit_vector);
    }
}

/// Absorbing a register's own value, low byte first, clears the register.
proof fn lemma_crc_absorbs_itself(c: u16)
    ensures
        crc_byte(crc_byte(c, lo_byte(c)), hi_byte(c)) == 0,
{
    assert(c ^ (((c & 0xffu16) as u8) as u16) == (c >> 8u16) << 8u16) by (bit_vector);
    let x = c ^ (lo_byte(c) as u16);
    assert(x & (((1u32 << 8u16) - 1) as u16) == 0) by (bit_vector)
        requires
            x == (c >> 8u16) << 8u16,
    ;
    lemma_crc_bits_clean(x, 8);
    assert(x >> 8u16 == c >> 8u16) by (bit_vector)
        requires
            x == (c >> 8u16) << 8u16,
    ;
    assert((c >> 8u16) ^ (((c >> 8u16) as u8) as u16) == 0) by (bit_vector);
    lemma_crc_bits_zero(8);
}

/// Byte-wise exclusive or of two equally long byte strings.
pub open spec fn xor_bytes(a: Seq<u8>, b: Seq<u8>) -> Seq<u8> {
    Seq::new(a.len(), |k: int| a[k] ^ b[k])
}

proof fn lemma_crc_bit_linear(x: u16, y: u16)
    by (bit_vector)
    ensures
        crc_bit(x ^ y) == crc_bit(x) ^ crc_bit(y),
{
}

proof fn lemma_crc_bits_linear(x: u16, y: u16, n: nat)
    ensures
        crc_bits(x ^ y, n) == crc_bits(x, n) ^ crc_bits(y, n),
    decreases n,
{
    if n > 0 {
        lemma_crc_bits_linear(x, y, (n - 1) as nat);
        lemma_crc_bit_linear(crc_bits(x, (n - 1) as nat), crc_bits(y, (n - 1) as nat));
    }
}

proof fn lemma_crc_byte_linear(c: u16, d: u16, a: u8, b: u8)
    ensures
        crc_byte(c ^ d, a ^ b) == crc_byte(c, a) ^ crc_byte(d, b),
{
    assert((c ^ d) ^ ((a ^ b) as u16) == (c ^ (a as u16)) ^ (d ^ (b as u16))) by (bit_vector);
    lemma_crc_bits_linear(c ^ (a as u16), d ^ (b as u16), 8);
}

/// The checksum is linear over GF(2) in the data and the initial register
/// together: the checksum of the byte-wise xor of two equally long messages,
/// started from the xor of two registers, is the xor of their checksums.
pub proof fn lemma_crc16_linear(a: Seq<u8>, b: Seq<u8>, i: u16, j: u16)
    requires
        a.len() == b.len(),
    ensures
        crc16(xor_bytes(a, b), i ^ j) == crc16(a, i) ^ crc16(b, j),
    decreases a.len(),
{
    let x = xor_bytes(a, b);
    if a.len() > 0 {
        assert(x.drop_last() =~= xor_bytes(a.drop_last(), b.drop_last()));
        lemma_crc16_linear(a.drop_last(), b.drop_last(), i, j);
        lemma_crc_byte_linear(crc16(a.drop_last(), i), crc16(b.drop_last(), j), a.last(), b.last());
    }
}

/// A message followed by its own checksum (low byte first) has checksum zero,
/// whatever the message and the initial register value.
pub proof fn lemma_crc16_residue(data: Seq<u8>, init: u16)
    ensures
        crc16(with_checksum(data, init), init) == 0,
{
    let c = crc16(data, init);
    let framed = with_checksum(data, init);
    assert(framed.drop_last().drop_last() =~= data);
    assert(framed.drop_last().last() == lo_byte(c));
    assert(framed.last() == hi_byte(c));
    assert(crc16(framed.drop_last(), init) == crc_byte(c, lo_byte(c)));
    assert(crc16(framed, init) == crc_byte(crc16(framed.drop_last(), init), hi_byte(c)));
    lemma_crc_absorbs_itself(c);
}

} // verus!
