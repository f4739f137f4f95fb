//! The mathematical model of the wire format: LEB128 variable-length
//! integers, and the scanner shared by both varint readers.

use vstd::prelude::*;
use vstd::arithmetic::power2::{pow2, lemma_pow2_adds, lemma_pow2_pos, lemma2_to64, lemma2_to64_rest};
use vstd::bits::lemma_u64_shl_is_mul;

verus! {

/// The number that a run of varint bytes stands for: the low seven bits of
/// each byte, least significant group first.
pub open spec fn varint_value(bytes: Seq<u8>) -> nat
    decreases bytes.len(),
{
    if bytes.len() == 0 {
        0
    } else {
        varint_value(bytes.drop_last()) + ((bytes.last() % 128) as nat) * pow2(
            (7 * (bytes.len() - 1)) as nat,
        )
    }
}

/// The LEB128 encoding of `v`: seven bits per byte, least significant group
/// first, the high bit set on every byte but the last.
pub open spec fn varint_encode(v: nat) -> Seq<u8>
    decreases v,
{
    if v < 128 {
        seq![v as u8]
    } else {
        seq![(v % 128 + 128) as u8] + varint_encode(v / 128)
    }
}

/// The position just past the first byte at or after `pos` whose high bit is
/// clear, if there is one in `s`.
pub open spec fn varint_end(s: Seq<u8>, pos: int) -> Option<int>
    decreases s.len() - pos,
{
    if pos < 0 || pos >= s.len() {
        None
    } else if s[pos] < 128 {
        Some(pos + 1)
    } else {
        varint_end(s, pos + 1)
    }
}

/// Ten bytes with the high bit set, followed by an eleventh byte: a varint too
/// long for a 64-bit shift, on which both varint readers panic.
pub open spec fn varint_overlong(s: Seq<u8>, off: int) -> bool {
    &&& 0 <= off
    &&& off + 10 < s.len()
    &&& forall|k: int| 0 <= k < 10 ==> #[trigger] s[off + k] >= 128
}

/// The varint at `off`: its value reduced to 64 bits and its size in bytes,
/// or `None` when `s` ends before a terminating byte.
pub open spec fn varint_at(s: Seq<u8>, off: int) -> Option<(u64, u64)> {
    match varint_end(s, off) {
        Some(e) => Some(
            ((varint_value(s.subrange(off, e)) % pow2(64)) as u64, (e - off) as u64),
        ),
        None => None,
    }
}

pub proof fn lemma_varint_end_bounds(s: Seq<u8>, pos: int)
    ensures
        varint_end(s, pos) matches Some(e) ==> 0 <= pos < e <= s.len(),
    decreases s.len() - pos,
{
    if 0 <= pos < s.len() && s[pos] >= 128 {
        lemma_varint_end_bounds(s, pos + 1);
    }
}

proof fn lemma_varint_value_push(s: Seq<u8>, off: int, c: int)
    requires
        0 <= off <= c < s.len(),
    ensures
        varint_value(s.subrange(off, c + 1)) == varint_value(s.subrange(off, c)) + ((s[c] % 128) as nat)
            * pow2((7 * (c - off)) as nat),
{
    assert(s.subrange(off, c + 1).drop_last() =~= s.subrange(off, c));
}

/// One step of accumulating a varint byte below the top group.
proof fn lemma_or_step(r: u64, b: u8, k: u64)
    requires
        k <= 8,
        r < pow2((7 * k) as nat),
    ensures
        ({
            let sh = (7 * k) as u64;
            &&& r | (((b as u64) & 0x7f) << sh) == r + ((b % 128) as nat) * pow2(sh as nat)
            &&& r + ((b % 128) as nat) * pow2(sh as nat) < pow2((7 * (k + 1)) as nat)
        }),
{
    let sh = (7 * k) as u64;
    let t = (b as u64) & 0x7f;
    assert(t == b % 128 && t < 128) by (bit_vector)
        requires
            t == (b as u64) & 0x7f,
    ;
    lemma_pow2_pos(sh as nat);
    lemma_pow2_adds(sh as nat, 7);
    lemma2_to64();
    lemma2_to64_rest();
    assert(pow2(56) * 128 == pow2(63)) by {
        lemma_pow2_adds(56, 7);
    }
    assert(pow2(sh as nat) <= pow2(56)) by {
        if sh < 56 {
            vstd::arithmetic::power2::lemma_pow2_strictly_increases(sh as nat, 56);
        }
    }
    assert(t * pow2(sh as nat) <= 127 * pow2(56)) by (nonlinear_arith)
        requires
            t < 128,
            pow2(sh as nat) <= pow2(56),
    ;
    assert(127 * pow2(56) <= u64::MAX) by {
        assert(pow2(63) == 0x8000000000000000);
    }
    lemma_u64_shl_is_mul(t, sh);
    lemma_u64_shl_is_mul(1, sh);
    assert(1u64 << sh == pow2(sh as nat));
    assert(r | (t << sh) == r + (t << sh)) by (bit_vector)
        requires
            r < (1u64 << sh),
            t < 128,
            sh <= 56,
    ;
    assert(r + t * pow2(sh as nat) < 128 * pow2(sh as nat)) by (nonlinear_arith)
        requires
            r < pow2(sh as nat),
            t < 128,
    ;
    assert(pow2((7 * (k + 1)) as nat) == pow2(sh as nat) * pow2(7));
}

/// The step that adds the top group: the result wraps at 64 bits.
proof fn lemma_or_last(r: u64, b: u8, v: nat)
    requires
        r < 0x8000000000000000,
        v == r as nat,
    ensures
        (r | (((b as u64) & 0x7f) << 63u64)) as nat == (v + ((b % 128) as nat) * pow2(63)) % pow2(64),
{
    lemma2_to64();
    lemma2_to64_rest();
    let t = (b as u64) & 0x7f;
    assert(t == b % 128) by (bit_vector)
        requires
            t == (b as u64) & 0x7f,
    ;
    assert(r | (t << 63u64) == r + (t % 2) * 0x8000000000000000) by (bit_vector)
        requires
            r < 0x8000000000000000,
            t < 128,
    ;
    let q = t / 2;
    assert(t * 0x8000000000000000 == (t % 2) * 0x8000000000000000 + q * 0x10000000000000000);
    let x: int = r + (t % 2) * 0x8000000000000000;
    assert(0 <= x < 0x10000000000000000);
    vstd::arithmetic::div_mod::lemma_mod_multiples_vanish(q as int, x, 0x10000000000000000);
    assert((x + q * 0x10000000000000000) % 0x10000000000000000 == x) by {
        vstd::arithmetic::div_mod::lemma_small_mod(x as nat, 0x10000000000000000);
        assert(q * 0x10000000000000000 + x == x + q * 0x10000000000000000);
    }
}

proof fn lemma_varint_end_continuation(s: Seq<u8>, pos: int)
    ensures
        varint_end(s, pos) matches Some(e) ==> forall|k: int|
            pos <= k < e - 1 ==> #[trigger] s[k] >= 128,
    decreases s.len() - pos,
{
    if 0 <= pos < s.len() && s[pos] >= 128 {
        lemma_varint_end_continuation(s, pos + 1);
    }
}

/// A varint that can be read takes between one and ten bytes, all within
/// the slice.
pub proof fn lemma_varint_size(s: Seq<u8>, off: int)
    requires
        !varint_overlong(s, off),
    ensures
        varint_at(s, off) matches Some((v, n)) ==> 1 <= n <= 10 && off + n <= s.len(),
{
    lemma_varint_end_bounds(s, off);
    lemma_varint_end_continuation(s, off);
    if let Some(e) = varint_end(s, off) {
        if e - off > 10 {
            assert forall|k: int| 0 <= k < 10 implies #[trigger] s[off + k] >= 128 by {
                assert(off <= off + k < e - 1);
            }
            assert(varint_overlong(s, off));
        }
    }
}

/// Reads the varint at `offset` the way both varint readers do: a
/// byte at a time, or-ing seven bits at a growing shift, until a byte with the
/// high bit clear. `None` when the slice ends first.
pub(crate) fn scan_varint(buf: &[u8], offset: u64) -> (r: Option<(u64, u64)>)
    requires
        !varint_overlong(buf@, offset as int),
    ensures
        r == varint_at(buf@, offset as int),
{
    let len = buf.len() as u64;
    let mut result: u64 = 0;
    let mut shift: u64 = 0;
    let mut cursor: u64 = offset;
    if offset >= len {
        return None;
    }
    proof {
        lemma2_to64();
        lemma2_to64_rest();
        assert(buf@.subrange(offset as int, offset as int) =~= Seq::<u8>::empty());
    }
    loop
        invariant
            len == buf@.len(),
            !varint_overlong(buf@, offset as int),
            offset <= cursor <= offset + 10,
            offset < len,
            cursor <= len,
            shift == 7 * (cursor - offset),
            forall|k: int| offset <= k < cursor ==> #[trigger] buf@[k] >= 128,
            varint_end(buf@, offset as int) == varint_end(buf@, cursor as int),
            result as nat == varint_value(buf@.subrange(offset as int, cursor as int)) % pow2(64),
            cursor - offset <= 9 ==> varint_value(buf@.subrange(offset as int, cursor as int))
                < pow2(shift as nat),
            cursor - offset == 10 ==> cursor >= len,
        decreases 11 - (cursor - offset),
    {
        if cursor >= len {
            return None;
        }
        let b = buf[cursor as usize];
        let ghost old_value = varint_value(buf@.subrange(offset as int, cursor as int));
        let k: u64 = cursor - offset;
        proof {
            lemma_varint_value_push(buf@, offset as int, cursor as int);
            lemma_pow2_pos(shift as nat);
            assert(old_value < pow2(shift as nat));
            vstd::arithmetic::power2::lemma_pow2_strictly_increases(shift as nat, 64);
            vstd::arithmetic::div_mod::lemma_small_mod(old_value, pow2(64));
            assert(result == old_value);
        }
        if k <= 8 {
            proof {
                lemma_or_step(result, b, k as u64);
                let nv = old_value + ((b % 128) as nat) * pow2(shift as nat);
                if k < 8 {
                    vstd::arithmetic::power2::lemma_pow2_strictly_increases(
                        (7 * (k + 1)) as nat,
                        64,
                    );
                } else {
                    assert(pow2(63) < pow2(64)) by {
                        vstd::arithmetic::power2::lemma_pow2_strictly_increases(63, 64);
                    }
                }
                vstd::arithmetic::div_mod::lemma_small_mod(nv, pow2(64));
            }
        } else {
            proof {
                assert(shift == 63);
                lemma2_to64();
                lemma2_to64_rest();
                assert(pow2(63) == 0x8000000000000000);
                lemma_or_last(result, b, old_value);
            }
        }
        result = result | (((b as u64) & 0x7f) << shift);
        cursor = cursor + 1;
        if ((b as u64) & 0x80) == 0 {
            proof {
                assert(((b as u64) & 0x80) == 0 ==> b < 128) by (bit_vector);
            }
            return Some((result, cursor - offset));
        }
        proof {
            assert(((b as u64) & 0x80) != 0 ==> b >= 128) by (bit_vector);
            if k == 9 {
                assert forall|j: int| 0 <= j < 10 implies #[trigger] buf@[offset + j] >= 128 by {
                    assert(buf@[offset + j] >= 128);
                }
            }
        }
        shift = shift + 7;
    }
}


proof fn lemma_varint_value_front(b: u8, t: Seq<u8>)
    ensures
        varint_value(seq![b] + t) == (b % 128) as nat + 128 * varint_value(t),
    decreases t.len(),
{
    let s = seq![b] + t;
    if t.len() == 0 {
        assert(s.drop_last() =~= Seq::<u8>::empty());
        assert(pow2(0) == 1) by {
            lemma2_to64();
        }
        assert(s.last() == b);
        assert(varint_value(s) == varint_value(s.drop_last()) + ((b % 128) as nat) * pow2(0));
        assert(varint_value(t) == 0);
    } else {
        assert(s.drop_last() =~= seq![b] + t.drop_last());
        lemma_varint_value_front(b, t.drop_last());
        let n = t.len() as nat;
        lemma_pow2_adds((7 * (n - 1)) as nat, 7);
        assert(pow2(7) == 128) by {
            lemma2_to64();
        }
        let p = pow2((7 * (n - 1)) as nat);
        let c = (t.last() % 128) as nat;
        assert(pow2((7 * n) as nat) == p * 128);
        assert(c * (p * 128) == 128 * (c * p)) by (nonlinear_arith);
        assert(128 * (varint_value(t.drop_last()) + c * p) == 128 * varint_value(t.drop_last()) + 128
            * (c * p)) by (nonlinear_arith);
        assert(s.last() == t.last());
        assert(s.len() - 1 == n);
        assert(varint_value(t) == varint_value(t.drop_last()) + c * p);
        assert(varint_value(s) == varint_value(s.drop_last()) + c * pow2((7 * n) as nat));
    }
}

/// The encoding decodes to the number it encodes.
proof fn lemma_varint_value_encode(v: nat)
    ensures
        varint_value(varint_encode(v)) == v,
    decreases v,
{
    if v < 128 {
        lemma_varint_value_front(v as u8, Seq::<u8>::empty());
        assert(seq![v as u8] + Seq::<u8>::empty() =~= seq![v as u8]);
        assert(varint_value(Seq::<u8>::empty()) == 0);
    } else {
        lemma_varint_value_encode(v / 128);
        lemma_varint_value_front((v % 128 + 128) as u8, varint_encode(v / 128));
    }
}

/// Every byte of an encoding but the last has its high bit set.
proof fn lemma_varint_encode_shape(v: nat)
    ensures
        varint_encode(v).len() >= 1,
        forall|i: int|
            0 <= i < varint_encode(v).len() - 1 ==> #[trigger] varint_encode(v)[i] >= 128,
        varint_encode(v)[varint_encode(v).len() - 1] < 128,
    decreases v,
{
    if v >= 128 {
        lemma_varint_encode_shape(v / 128);
        let t = varint_encode(v / 128);
        assert forall|i: int| 0 <= i < varint_encode(v).len() - 1 implies #[trigger] varint_encode(
            v,
        )[i] >= 128 by {
            if i > 0 {
                assert(varint_encode(v)[i] == t[i - 1]);
            }
        }
    }
}

/// A number below `2^(7k)` takes at most `k` bytes.
proof fn lemma_varint_encode_len(v: nat, k: nat)
    requires
        k >= 1,
        v < pow2(7 * k),
    ensures
        varint_encode(v).len() <= k,
    decreases v,
{
    if v >= 128 {
        lemma_pow2_adds((7 * (k - 1)) as nat, 7);
        assert(pow2(7) == 128) by {
            lemma2_to64();
        }
        if k == 1 {
            assert(false);
        }
        let p = pow2((7 * (k - 1)) as nat);
        assert(v / 128 < p) by (nonlinear_arith)
            requires
                v < p * 128,
        ;
        lemma_varint_encode_len(v / 128, (k - 1) as nat);
    }
}

/// Where the bytes at `off` are the encoding of `v`, the varint there ends
/// with them.
proof fn lemma_varint_end_encoding(s: Seq<u8>, off: int, v: nat)
    requires
        0 <= off,
        off + varint_encode(v).len() <= s.len(),
        s.subrange(off, off + varint_encode(v).len()) == varint_encode(v),
    ensures
        varint_end(s, off) == Some(off + varint_encode(v).len()),
    decreases v,
{
    let e = varint_encode(v);
    assert(s[off] == s.subrange(off, off + e.len())[0]);
    if v >= 128 {
        let t = varint_encode(v / 128);
        assert(s.subrange(off + 1, off + 1 + t.len()) =~= s.subrange(off, off + e.len()).subrange(
            1,
            e.len() as int,
        ));
        assert(e.subrange(1, e.len() as int) =~= t);
        lemma_varint_end_encoding(s, off + 1, v / 128);
    }
}

/// Reading back what was written: where the bytes at `off` are the encoding
/// of a 64-bit `v`, the varint read there is `v`, it takes as many bytes as
/// the encoding (at most ten), and it is not too long to read.
pub proof fn lemma_varint_decodes(s: Seq<u8>, off: int, v: u64)
    requires
        0 <= off,
        off + varint_encode(v as nat).len() <= s.len(),
        s.subrange(off, off + varint_encode(v as nat).len()) == varint_encode(v as nat),
    ensures
        varint_encode(v as nat).len() <= 10,
        !varint_overlong(s, off),
        varint_end(s, off) == Some(off + varint_encode(v as nat).len()),
        varint_at(s, off) == Some((v, varint_encode(v as nat).len() as u64)),
{
    let e = varint_encode(v as nat);
    lemma2_to64();
    lemma2_to64_rest();
    assert(pow2(64) <= pow2(70)) by {
        vstd::arithmetic::power2::lemma_pow2_strictly_increases(64, 70);
    }
    lemma_varint_encode_len(v as nat, 10);
    lemma_varint_end_encoding(s, off, v as nat);
    lemma_varint_value_encode(v as nat);
    lemma_varint_encode_shape(v as nat);
    assert(s[off + e.len() - 1] == e[e.len() - 1]);
    if varint_overlong(s, off) {
        assert(s[off + (e.len() - 1)] >= 128);
    }
    vstd::arithmetic::div_mod::lemma_small_mod(v as nat, pow2(64));
}

/// The varint law: what is written as a varint reads back as the same number,
/// whatever follows it.
pub proof fn lemma_varint_roundtrip(v: u64, rest: Seq<u8>)
    ensures
        varint_encode(v as nat).len() <= 10,
        !varint_overlong(varint_encode(v as nat) + rest, 0),
        varint_at(varint_encode(v as nat) + rest, 0) == Some(
            (v, varint_encode(v as nat).len() as u64),
        ),
{
    let e = varint_encode(v as nat);
    assert((e + rest).subrange(0, e.len() as int) =~= e);
    lemma_varint_decodes(e + rest, 0, v);
}

/// Appends the varint encoding of `value` to `buf` the way both varint
/// writers do, and returns the number of bytes written.
pub(crate) fn push_varint(buf: &mut Vec<u8>, value: u64) -> (n: u64)
    ensures
        final(buf)@ == old(buf)@ + varint_encode(value as nat),
        n == varint_encode(value as nat).len(),
        1 <= n <= 10,
{
    let ghost start = buf@;
    let mut cursor: u64 = 0;
    let mut v: u64 = value;
    proof {
        lemma2_to64();
        lemma2_to64_rest();
        assert(pow2(64) <= pow2(70)) by {
            vstd::arithmetic::power2::lemma_pow2_strictly_increases(64, 70);
        }
        lemma_varint_encode_len(value as nat, 10);
        assert(buf@ =~= start + Seq::<u8>::empty());
    }
    while (v & !0x7f) != 0
        invariant
            buf@ + varint_encode(v as nat) == start + varint_encode(value as nat),
            buf@.len() == start.len() + cursor,
            varint_encode(value as nat).len() == cursor + varint_encode(v as nat).len(),
            varint_encode(value as nat).len() <= 10,
        decreases v,
    {
        proof {
            assert((v & !0x7f) != 0 ==> v >= 128) by (bit_vector);
            lemma_varint_encode_shape((v / 128) as nat);
        }
        let ghost prev = buf@;
        let byte = (#[verifier::truncate] (((v & 0xff) | 0x80) as u8));
        proof {
            assert(((v & 0xff) | 0x80) as u8 == (v % 128 + 128) as u8) by (bit_vector);
        }
        let _ = crate::protodef::endian::vec_write_u8(buf, byte);
        cursor = cursor + 1;
        proof {
            assert(v >> 7 == v / 128) by (bit_vector);
            assert(varint_encode(v as nat) == seq![byte] + varint_encode((v / 128) as nat));
            assert(buf@ + varint_encode((v / 128) as nat) =~= prev + varint_encode(v as nat));
        }
        v = v >> 7;
    }
    proof {
        assert((v & !0x7f) == 0 ==> v < 128) by (bit_vector);
    }
    let _ = crate::protodef::endian::vec_write_u8(buf, v as u8);
    proof {
        assert(varint_encode(v as nat) == seq![v as u8]);
        assert(buf@ =~= start + varint_encode(value as nat));
    }
    cursor + 1
}

/// Whether the varint at `offset` is too long to read (see
/// `varint_overlong`).
pub(crate) fn check_varint_overlong(buf: &[u8], offset: u64) -> (r: bool)
    ensures
        r == varint_overlong(buf@, offset as int),
{
    let len = buf.len() as u64;
    if offset >= len || len - offset <= 10 {
        return false;
    }
    let mut k: u64 = 0;
    while k < 10
        invariant
            offset + 10 < len,
            len == buf@.len(),
            k <= 10,
            forall|j: int| 0 <= j < k ==> #[trigger] buf@[offset + j] >= 128,
        decreases 10 - k,
    {
        if buf[(offset + k) as usize] < 128 {
            return false;
        }
        k = k + 1;
    }
    true
}

} // verus!
