//! The CRC that closes every frame of the protocol (the Modbus CRC-16:
//! reflected polynomial `0xA001`, register preset to `0xFFFF`).

use vstd::prelude::*;

verus! {

/// The reflected generator polynomial.
pub const POLY: u16 = 0xA001;

/// The value the CRC register starts from.
pub const CRC_INIT: u16 = 0xFFFF;

/// One step of the register: shift right by one bit, and fold the
/// polynomial in when the bit shifted out was set.
pub open spec fn crc_shift(crc: u16) -> u16 {
    if crc & 1u16 != 0 {
        (crc >> 1u16) ^ POLY
    } else {
        crc >> 1u16
    }
}

/// `n` steps of the register.
pub open spec fn crc_shift_n(crc: u16, n: nat) -> u16
    decreases n,
{
    if n == 0 {
        crc
    } else {
        crc_shift_n(crc_shift(crc), (n - 1) as nat)
    }
}

/// The register after it has taken in the byte `b`.
pub open spec fn crc_byte(crc: u16, b: u8) -> u16 {
    crc_shift_n(crc ^ (b as u16), 8)
}

/// The register after it has taken in every byte of `data`, in order.
pub open spec fn crc_register(data: Seq<u8>) -> u16
    decreases data.len(),
{
    if data.len() == 0 {
        CRC_INIT
    } else {
        crc_byte(crc_register(data.drop_last()), data.last())
    }
}

/// The two bytes of `x` exchanged.
pub open spec fn swap_bytes(x: u16) -> u16 {
    (x << 8u16) | (x >> 8u16)
}

/// What `calc_crc` returns: the register over `data`, high and low byte
/// exchanged, so that writing it big-endian puts the low byte of the
/// register first, as the wire format wants.
pub open spec fn spec_crc(data: Seq<u8>) -> u16 {
    swap_bytes(crc_register(data))
}

/// Computes the CRC of `data`, bytes exchanged (see [`spec_crc`]).
pub fn calc_crc(data: &[u8]) -> (r: u16)
    ensures
        r == spec_crc(data@),
{
    let mut crc: u16 = 0xFFFF;
    let n = data.len();
    let mut i: usize = 0;
    while i < n
        invariant
            n == data@.len(),
            i <= n,
            crc == crc_register(data@.take(i as int)),
        decreases n - i,
    {
        let x = data[i];
        proof {
            assert(data@.take(i + 1).drop_last() =~= data@.take(i as int));
        }
        crc ^= x as u16;
        let ghost start = crc;
        let mut k: u32 = 0;
        while k < 8
            invariant
                k <= 8,
                crc_shift_n(crc, (8 - k) as nat) == crc_shift_n(start, 8),
            decreases 8 - k,
        {
            let crc_odd = (crc & 0x0001) != 0;
            crc >>= 1;
            if crc_odd {
                crc ^= 0xA001;
            }
            k += 1;
        }
        i += 1;
    }
    proof {
        assert(data@.take(n as int) =~= data@);
    }
    (crc << 8) | (crc >> 8)
}

/// The big-endian bytes of `x`, as `BufMut::put_u16` writes them.
pub open spec fn be_bytes(x: u16) -> Seq<u8> {
    seq![(x >> 8u16) as u8, (x & 0xffu16) as u8]
}

/// `msg` closed by its CRC: `msg` followed by the big-endian bytes of
/// `calc_crc(msg)`, which is how every request frame ends.
pub open spec fn with_crc(msg: Seq<u8>) -> Seq<u8> {
    msg + be_bytes(spec_crc(msg))
}

/// Eight steps of the register, written out.
pub open spec fn crc_shift8(x: u16) -> u16 {
    crc_shift(crc_shift(crc_shift(crc_shift(crc_shift(crc_shift(crc_shift(crc_shift(x))))))))
}

proof fn lemma_crc_byte_unfold(crc: u16, b: u8)
    ensures
        crc_byte(crc, b) == crc_shift8(crc ^ (b as u16)),
{
    reveal_with_fuel(crc_shift_n, 9);
}

/// The register after `data` followed by the bytes `a` and `b`.
proof fn lemma_crc_register_push2(data: Seq<u8>, a: u8, b: u8)
    ensures
        crc_register(data.push(a).push(b)) == crc_byte(crc_byte(crc_register(data), a), b),
{
    let d1 = data.push(a);
    assert(d1.push(b).drop_last() =~= d1);
    assert(d1.drop_last() =~= data);
    assert(crc_register(d1.push(b)) == crc_byte(crc_register(d1), d1.push(b).last()));
    assert(crc_register(d1) == crc_byte(crc_register(data), d1.last()));
}

/// Eight steps of the register on a value whose low byte is zero only
/// shift it: no set bit leaves the register on the way.
proof fn lemma_crc_shift8_low_byte_clear(y: u16)
    requires
        y & 0xffu16 == 0,
    ensures
        crc_shift8(y) == y >> 8u16,
{
    let y1 = y >> 1u16;
    let y2 = y1 >> 1u16;
    let y3 = y2 >> 1u16;
    let y4 = y3 >> 1u16;
    let y5 = y4 >> 1u16;
    let y6 = y5 >> 1u16;
    let y7 = y6 >> 1u16;
    let y8 = y7 >> 1u16;
    assert(y & 1u16 == 0 && y1 & 1u16 == 0 && y2 & 1u16 == 0 && y3 & 1u16 == 0 && y4 & 1u16
        == 0 && y5 & 1u16 == 0 && y6 & 1u16 == 0 && y7 & 1u16 == 0 && y8 == y >> 8u16)
        by (bit_vector)
        requires
            y & 0xffu16 == 0,
            y1 == y >> 1u16,
            y2 == y1 >> 1u16,
            y3 == y2 >> 1u16,
            y4 == y3 >> 1u16,
            y5 == y4 >> 1u16,
            y6 == y5 >> 1u16,
            y7 == y6 >> 1u16,
            y8 == y7 >> 1u16,
    ;
    assert(crc_shift(y) == y1);
    assert(crc_shift(y1) == y2);
    assert(crc_shift(y2) == y3);
    assert(crc_shift(y3) == y4);
    assert(crc_shift(y4) == y5);
    assert(crc_shift(y5) == y6);
    assert(crc_shift(y6) == y7);
    assert(crc_shift(y7) == y8);
}

/// A message closed by its CRC checks: the register run over the whole
/// frame, CRC bytes included, ends at zero, and so does `calc_crc`.
pub proof fn lemma_crc_residue(msg: Seq<u8>)
    ensures
        crc_register(with_crc(msg)) == 0,
        spec_crc(with_crc(msg)) == 0,
{
    let r = crc_register(msg);
    let s = spec_crc(msg);
    let a = (s >> 8u16) as u8;
    let b = (s & 0xffu16) as u8;
    assert(with_crc(msg) =~= msg.push(a).push(b));
    lemma_crc_register_push2(msg, a, b);
    lemma_crc_byte_unfold(r, a);
    let y = r ^ (a as u16);
    assert(y & 0xffu16 == 0 && y >> 8u16 == b as u16) by (bit_vector)
        requires
            s == (r << 8u16) | (r >> 8u16),
            a == (s >> 8u16) as u8,
            b == (s & 0xffu16) as u8,
            y == r ^ (a as u16),
    ;
    lemma_crc_shift8_low_byte_clear(y);
    let x = crc_byte(r, a);
    assert(x == b as u16);
    lemma_crc_byte_unfold(x, b);
    let z = x ^ (b as u16);
    assert(z == 0u16 && z & 0xffu16 == 0) by (bit_vector)
        requires
            x == b as u16,
            z == x ^ (b as u16),
    ;
    lemma_crc_shift8_low_byte_clear(z);
    assert(0u16 >> 8u16 == 0u16 && swap_bytes(0u16) == 0u16) by (bit_vector);
}

/// One register step is linear over XOR.
proof fn lemma_crc_shift_xor(x: u16, y: u16)
    ensures
        crc_shift(x) ^ crc_shift(y) == crc_shift(x ^ y),
        crc_shift(x) == 0 <==> x == 0,
{
    assert(crc_shift(x) ^ crc_shift(y) == crc_shift(x ^ y)) by (bit_vector);
    assert(crc_shift(x) == 0 <==> x == 0) by (bit_vector);
}

/// `n` register steps are linear over XOR, and only zero maps to zero.
proof fn lemma_crc_shift_n_xor(x: u16, y: u16, n: nat)
    ensures
        crc_shift_n(x, n) ^ crc_shift_n(y, n) == crc_shift_n(x ^ y, n),
        crc_shift_n(x, n) == 0 <==> x == 0,
    decreases n,
{
    if n > 0 {
        lemma_crc_shift_xor(x, y);
        lemma_crc_shift_n_xor(crc_shift(x), crc_shift(y), (n - 1) as nat);
        assert(x ^ y == y ^ x) by (bit_vector);
    } else {
        assert(x ^ y == x ^ y);
    }
}

/// Eight register steps move any nonzero byte into the high byte: a
/// nonzero difference confined to one byte never cancels against the
/// next byte.
proof fn lemma_crc_shift8_of_byte(d: u16)
    requires
        0 < d < 256,
    ensures
        crc_shift_n(d, 8) & 0xff00u16 != 0,
{
    reveal_with_fuel(crc_shift_n, 9);
    let y1 = crc_shift(d);
    let y2 = crc_shift(y1);
    let y3 = crc_shift(y2);
    let y4 = crc_shift(y3);
    let y5 = crc_shift(y4);
    let y6 = crc_shift(y5);
    let y7 = crc_shift(y6);
    let y8 = crc_shift(y7);
    assert(y8 & 0xff00u16 != 0) by (bit_vector)
        requires
            0 < d < 256,
            y1 == crc_shift(d),
            y2 == crc_shift(y1),
            y3 == crc_shift(y2),
            y4 == crc_shift(y3),
            y5 == crc_shift(y4),
            y6 == crc_shift(y5),
            y7 == crc_shift(y6),
            y8 == crc_shift(y7),
    ;
}

/// The XOR of the registers over the first `k` bytes of `a` and of `b`.
spec fn crc_diff(a: Seq<u8>, b: Seq<u8>, k: int) -> u16 {
    crc_register(a.take(k)) ^ crc_register(b.take(k))
}

/// How the register difference moves on by one byte.
proof fn lemma_crc_diff_step(a: Seq<u8>, b: Seq<u8>, k: int)
    requires
        0 <= k < a.len(),
        a.len() == b.len(),
    ensures
        crc_diff(a, b, k + 1) == crc_shift_n(crc_diff(a, b, k) ^ ((a[k] ^ b[k]) as u16), 8),
        crc_diff(a, b, k) == 0 ==> (crc_diff(a, b, k) ^ ((a[k] ^ b[k]) as u16) == 0 <==> a[k]
            == b[k]),
        a[k] == b[k] ==> crc_diff(a, b, k) ^ ((a[k] ^ b[k]) as u16) == crc_diff(a, b, k),
{
    assert(a.take(k + 1).drop_last() =~= a.take(k));
    assert(b.take(k + 1).drop_last() =~= b.take(k));
    let ra = crc_register(a.take(k));
    let rb = crc_register(b.take(k));
    let ak = a[k];
    let bk = b[k];
    assert(crc_register(a.take(k + 1)) == crc_byte(ra, a.take(k + 1).last()));
    assert(crc_register(b.take(k + 1)) == crc_byte(rb, b.take(k + 1).last()));
    lemma_crc_shift_n_xor(ra ^ (ak as u16), rb ^ (bk as u16), 8);
    assert((ra ^ (ak as u16)) ^ (rb ^ (bk as u16)) == (ra ^ rb) ^ ((ak ^ bk) as u16)
        && (ra ^ rb == 0 ==> ((ra ^ rb) ^ ((ak ^ bk) as u16) == 0 <==> ak == bk)) && (ak == bk
        ==> (ra ^ rb) ^ ((ak ^ bk) as u16) == ra ^ rb)) by (bit_vector);
}

/// Over inputs that may differ only at `j` and `j + 1`, the registers
/// after `k` bytes differ exactly when the first `k` bytes do.
proof fn lemma_crc_diff_prefix(a: Seq<u8>, b: Seq<u8>, j: int, k: int)
    requires
        a.len() == b.len(),
        forall|i: int| 0 <= i < a.len() && i != j && i != j + 1 ==> a[i] == b[i],
        0 <= k <= a.len(),
    ensures
        crc_diff(a, b, k) == 0 <==> a.take(k) == b.take(k),
    decreases k,
{
    if k == 0 {
        assert(a.take(0) =~= b.take(0));
        assert(CRC_INIT ^ CRC_INIT == 0u16) by (bit_vector);
    } else {
        let m = k - 1;
        lemma_crc_diff_prefix(a, b, j, m);
        lemma_crc_diff_step(a, b, m);
        let x = crc_diff(a, b, m) ^ ((a[m] ^ b[m]) as u16);
        lemma_crc_shift_n_xor(x, x, 8);
        if a.take(m) == b.take(m) && a[m] == b[m] {
            assert(a.take(k) =~= b.take(k));
        } else {
            if a.take(k) == b.take(k) {
                assert(a.take(m) =~= a.take(k).take(m));
                assert(b.take(m) =~= b.take(k).take(m));
                assert(a.take(k)[m] == a[m]);
            }
            if a.take(m) != b.take(m) && a[m] != b[m] {
                // The earlier difference is at `j`, this one at `j + 1`.
                if m == j {
                    assert(a.take(m) =~= b.take(m));
                }
                assert(m == j + 1);
                if m == 0 {
                    assert(a.take(m) =~= b.take(m));
                }
                assert(a.take(j) =~= b.take(j));
                lemma_crc_diff_prefix(a, b, j, j);
                lemma_crc_diff_step(a, b, j);
                let aj = a[j];
                let bj = b[j];
                let am = a[m];
                let bm = b[m];
                let dj = (aj ^ bj) as u16;
                let dm = (am ^ bm) as u16;
                if aj == bj {
                    assert(a.take(m) =~= b.take(m));
                }
                assert(0 < dj < 256 && dm < 256) by (bit_vector)
                    requires
                        dj == (aj ^ bj) as u16,
                        dm == (am ^ bm) as u16,
                        aj != bj,
                ;
                let dd = crc_diff(a, b, j);
                assert(dd ^ dj == dj) by (bit_vector)
                    requires
                        dd == 0,
                ;
                lemma_crc_shift8_of_byte(dj);
                let y = crc_shift_n(dj, 8);
                assert(y ^ dm != 0) by (bit_vector)
                    requires
                        y & 0xff00u16 != 0,
                        dm < 256,
                ;
            }
        }
    }
}

/// The CRC detects every error burst of at most 16 bits: two inputs of
/// the same length that differ, and differ only within two adjacent
/// bytes `j` and `j + 1`, have different CRCs.
pub proof fn lemma_crc_detects_bursts(a: Seq<u8>, b: Seq<u8>, j: int)
    requires
        a.len() == b.len(),
        a != b,
        forall|i: int| 0 <= i < a.len() && i != j && i != j + 1 ==> a[i] == b[i],
    ensures
        spec_crc(a) != spec_crc(b),
{
    lemma_crc_diff_prefix(a, b, j, a.len() as int);
    assert(a.take(a.len() as int) =~= a);
    assert(b.take(b.len() as int) =~= b);
    let ra = crc_register(a);
    let rb = crc_register(b);
    assert(ra ^ rb != 0 ==> swap_bytes(ra) != swap_bytes(rb)) by (bit_vector);
}

} // verus!
