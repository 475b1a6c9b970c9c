//! Big-endian integers on the wire.

use vstd::prelude::*;

verus! {

/// The number that a byte string spells in network order.
pub open spec fn be_value(s: Seq<u8>) -> nat
    decreases s.len(),
{
    if s.len() == 0 {
        0
    } else {
        be_value(s.drop_last()) * 256 + s.last() as nat
    }
}

/// The `n` low-order bytes of `v` in network order.
pub open spec fn be_bytes(v: nat, n: nat) -> Seq<u8>
    decreases n,
{
    if n == 0 {
        Seq::empty()
    } else {
        be_bytes(v / 256, (n - 1) as nat).push((v % 256) as u8)
    }
}

/// How many values `n` bytes can spell.
pub open spec fn byte_range(n: nat) -> nat
    decreases n,
{
    if n == 0 {
        1
    } else {
        256 * byte_range((n - 1) as nat)
    }
}

pub proof fn lemma_be_bytes_len(v: nat, n: nat)
    ensures
        be_bytes(v, n).len() == n,
    decreases n,
{
    if n > 0 {
        lemma_be_bytes_len(v / 256, (n - 1) as nat);
    }
}

/// Encoding a number that fits and reading it back gives the number.
pub proof fn lemma_be_roundtrip(v: nat, n: nat)
    requires
        v < byte_range(n),
    ensures
        be_bytes(v, n).len() == n,
        be_value(be_bytes(v, n)) == v,
    decreases n,
{
    if n > 0 {
        let head = be_bytes(v / 256, (n - 1) as nat);
        lemma_be_roundtrip(v / 256, (n - 1) as nat);
        assert(be_bytes(v, n).drop_last() =~= head);
        assert(be_bytes(v, n).last() == (v % 256) as u8);
    }
}

/// The two bytes of a 16-bit number, spelled out.
pub proof fn lemma_be_bytes_2(v: nat)
    ensures
        be_bytes(v, 2) == seq![((v / 256) % 256) as u8, (v % 256) as u8],
{
    reveal_with_fuel(be_bytes, 3);
    assert(be_bytes(v, 2) =~= seq![((v / 256) % 256) as u8, (v % 256) as u8]);
}

/// The four bytes of a 32-bit number, spelled out.
pub proof fn lemma_be_bytes_4(v: nat)
    ensures
        be_bytes(v, 4) == be_bytes(v / 65536, 2) + be_bytes(v, 2),
{
    reveal_with_fuel(be_bytes, 5);
    assert(v / 256 / 256 == v / 65536);
    assert(be_bytes(v, 4) =~= be_bytes(v / 65536, 2) + be_bytes(v, 2));
}

/// The eight bytes of a 64-bit number, as two halves.
pub proof fn lemma_be_bytes_8(v: nat)
    ensures
        be_bytes(v, 8) == be_bytes(v / 0x1_0000_0000, 4) + be_bytes(v, 4),
{
    reveal_with_fuel(be_bytes, 9);
    assert(v / 256 / 256 / 256 / 256 == v / 0x1_0000_0000);
    assert(be_bytes(v, 8) =~= be_bytes(v / 0x1_0000_0000, 4) + be_bytes(v, 4));
}

/// Only the low 32 bits decide the four low-order bytes.
proof fn lemma_be_bytes_low_4(v: nat)
    ensures
        be_bytes(v % 0x1_0000_0000, 4) == be_bytes(v, 4),
{
    let low = v % 0x1_0000_0000;
    let high = v / 0x1_0000_0000;
    assert(v == high * 0x1_0000_0000 + low);
    lemma_be_bytes_4(v);
    lemma_be_bytes_4(low);
    assert(v / 65536 == high * 65536 + low / 65536);
    lemma_be_bytes_low_2(low, high * 65536);
    lemma_be_bytes_low_2(low / 65536, high);
}

/// Adding a multiple of 2^16 leaves the two low-order bytes alone.
proof fn lemma_be_bytes_low_2(low: nat, k: nat)
    ensures
        be_bytes(k * 65536 + low, 2) == be_bytes(low, 2),
{
    let v = k * 65536 + low;
    lemma_be_bytes_2(v);
    lemma_be_bytes_2(low);
    assert(v / 256 == k * 256 + low / 256);
    assert((k * 256 + low / 256) % 256 == (low / 256) % 256) by {
        vstd::arithmetic::div_mod::lemma_mod_multiples_vanish(k as int, (low / 256) as int, 256);
    }
    assert(v % 256 == low % 256);
}

/// Only the low 16 bits decide the two low-order bytes.
pub proof fn lemma_be_bytes_mod_2(v: nat)
    ensures
        be_bytes(v % 0x1_0000, 2) == be_bytes(v, 2),
{
    lemma_be_bytes_low_2(v % 0x1_0000, v / 0x1_0000);
    assert(v == (v / 0x1_0000) * 65536 + v % 0x1_0000);
}

pub proof fn lemma_be_value_2(s: Seq<u8>)
    requires
        s.len() == 2,
    ensures
        be_value(s) == s[0] as nat * 256 + s[1] as nat,
        be_value(s) < 0x1_0000,
{
    reveal_with_fuel(be_value, 3);
}

pub proof fn lemma_be_value_4(s: Seq<u8>)
    requires
        s.len() == 4,
    ensures
        be_value(s) == be_value(s.subrange(0, 2)) * 0x1_0000 + be_value(s.subrange(2, 4)),
        be_value(s) < 0x1_0000_0000,
{
    reveal_with_fuel(be_value, 5);
    lemma_be_value_2(s.subrange(0, 2));
    lemma_be_value_2(s.subrange(2, 4));
    assert(s.drop_last().drop_last() =~= s.subrange(0, 2));
}

pub proof fn lemma_be_value_8(s: Seq<u8>)
    requires
        s.len() == 8,
    ensures
        be_value(s) == be_value(s.subrange(0, 4)) * 0x1_0000_0000 + be_value(s.subrange(4, 8)),
        be_value(s) < 0x1_0000_0000_0000_0000,
{
    reveal_with_fuel(be_value, 9);
    lemma_be_value_4(s.subrange(0, 4));
    lemma_be_value_4(s.subrange(4, 8));
    lemma_be_value_2(s.subrange(4, 8).subrange(0, 2));
    lemma_be_value_2(s.subrange(4, 8).subrange(2, 4));
    assert(s.drop_last().drop_last().drop_last().drop_last() =~= s.subrange(0, 4));
}

/// Read the 16-bit number at offset `at`.
pub fn read_u16(buf: &[u8], at: usize) -> (v: u16)
    requires
        at + 2 <= buf@.len(),
    ensures
        v == be_value(buf@.subrange(at as int, at + 2)),
{
    proof {
        lemma_be_value_2(buf@.subrange(at as int, at + 2));
    }
    buf[at] as u16 * 256 + buf[at + 1] as u16
}

/// Read the 32-bit number at offset `at`.
pub fn read_u32(buf: &[u8], at: usize) -> (v: u32)
    requires
        at + 4 <= buf@.len(),
    ensures
        v == be_value(buf@.subrange(at as int, at + 4)),
{
    proof {
        let s = buf@.subrange(at as int, at + 4);
        assert(buf@.len() == buf.len());
        lemma_be_value_4(s);
        assert(s.subrange(0, 2) =~= buf@.subrange(at as int, at + 2));
        assert(s.subrange(2, 4) =~= buf@.subrange(at + 2, at + 4));
    }
    read_u16(buf, at) as u32 * 0x1_0000 + read_u16(buf, at + 2) as u32
}

/// Read the 64-bit number at offset `at`.
pub fn read_u64(buf: &[u8], at: usize) -> (v: u64)
    requires
        at + 8 <= buf@.len(),
    ensures
        v == be_value(buf@.subrange(at as int, at + 8)),
{
    proof {
        let s = buf@.subrange(at as int, at + 8);
        assert(buf@.len() == buf.len());
        lemma_be_value_8(s);
        assert(s.subrange(0, 4) =~= buf@.subrange(at as int, at + 4));
        assert(s.subrange(4, 8) =~= buf@.subrange(at + 4, at + 8));
    }
    read_u32(buf, at) as u64 * 0x1_0000_0000 + read_u32(buf, at + 4) as u64
}

/// Append a 16-bit number.
pub fn push_u16(out: &mut Vec<u8>, v: u16)
    ensures
        final(out)@ == old(out)@ + be_bytes(v as nat, 2),
{
    proof {
        lemma_be_bytes_2(v as nat);
    }
    out.push((v / 256) as u8);
    out.push((v % 256) as u8);
    assert(out@ =~= old(out)@ + be_bytes(v as nat, 2));
}

/// Append a 32-bit number.
pub fn push_u32(out: &mut Vec<u8>, v: u32)
    ensures
        final(out)@ == old(out)@ + be_bytes(v as nat, 4),
{
    proof {
        lemma_be_bytes_4(v as nat);
        lemma_be_bytes_2(v as nat);
        lemma_be_bytes_2((v % 0x1_0000) as nat);
    }
    push_u16(out, (v / 0x1_0000) as u16);
    push_u16(out, (v % 0x1_0000) as u16);
    assert(out@ =~= old(out)@ + be_bytes(v as nat, 4));
}

/// Append a 64-bit number.
pub fn push_u64(out: &mut Vec<u8>, v: u64)
    ensures
        final(out)@ == old(out)@ + be_bytes(v as nat, 8),
{
    proof {
        lemma_be_bytes_8(v as nat);
        lemma_be_bytes_low_4(v as nat);
    }
    push_u32(out, (v / 0x1_0000_0000) as u32);
    push_u32(out, (v % 0x1_0000_0000) as u32);
    assert(out@ =~= old(out)@ + be_bytes(v as nat, 8));
}

/// Append a byte string.
pub fn push_bytes(out: &mut Vec<u8>, bytes: &[u8])
    ensures
        final(out)@ == old(out)@ + bytes@,
{
    out.extend_from_slice(bytes);
    assert(out@ =~= old(out)@ + bytes@);
}

/// Whether two byte strings are the same.
pub fn same_bytes(a: &[u8], b: &[u8]) -> (same: bool)
    ensures
        same == (a@ == b@),
{
    if a.len() != b.len() {
        return false;
    }
    let mut i: usize = 0;
    while i < a.len()
        invariant
            a@.len() == b@.len(),
            i <= a@.len(),
            forall|k: int| 0 <= k < i ==> a@[k] == b@[k],
        decreases a@.len() - i,
    {
        if a[i] != b[i] {
            return false;
        }
        i = i + 1;
    }
    assert(a@ =~= b@);
    true
}

/// Numbers travel in network order, most significant byte first, and are read
/// the same way.
pub proof fn law_network_order(a: u16, b: u32, c: u64, s: Seq<u8>, t: Seq<u8>, u: Seq<u8>)
    requires
        s.len() == 2,
        t.len() == 4,
        u.len() == 8,
    ensures
        be_bytes(a as nat, 2) == seq![(a / 0x100) as u8, (a % 0x100) as u8],
        be_bytes(b as nat, 4) == seq![
            (b / 0x100_0000) as u8,
            (b / 0x1_0000 % 0x100) as u8,
            (b / 0x100 % 0x100) as u8,
            (b % 0x100) as u8,
        ],
        be_bytes(c as nat, 8) == seq![
            (c / 0x100_0000_0000_0000) as u8,
            (c / 0x1_0000_0000_0000 % 0x100) as u8,
            (c / 0x100_0000_0000 % 0x100) as u8,
            (c / 0x1_0000_0000 % 0x100) as u8,
            (c / 0x100_0000 % 0x100) as u8,
            (c / 0x1_0000 % 0x100) as u8,
            (c / 0x100 % 0x100) as u8,
            (c % 0x100) as u8,
        ],
        be_value(s) == s[0] * 0x100 + s[1],
        be_value(t) == t[0] * 0x100_0000 + t[1] * 0x1_0000 + t[2] * 0x100 + t[3],
        be_value(u) == u[0] * 0x100_0000_0000_0000 + u[1] * 0x1_0000_0000_0000 + u[2]
            * 0x100_0000_0000 + u[3] * 0x1_0000_0000 + u[4] * 0x100_0000 + u[5] * 0x1_0000 + u[6]
            * 0x100 + u[7],
{
    reveal_with_fuel(be_bytes, 9);
    reveal_with_fuel(be_value, 9);
    let n = c as nat;
    assert(n / 256 / 256 == n / 0x1_0000);
    assert(n / 256 / 256 / 256 == n / 0x100_0000);
    assert(n / 256 / 256 / 256 / 256 == n / 0x1_0000_0000);
    assert(n / 256 / 256 / 256 / 256 / 256 == n / 0x100_0000_0000);
    assert(n / 256 / 256 / 256 / 256 / 256 / 256 == n / 0x1_0000_0000_0000);
    assert(n / 256 / 256 / 256 / 256 / 256 / 256 / 256 == n / 0x100_0000_0000_0000);
    assert(be_bytes(a as nat, 2) =~= seq![(a / 0x100) as u8, (a % 0x100) as u8]);
    assert(be_bytes(b as nat, 4) =~= seq![
        (b / 0x100_0000) as u8,
        (b / 0x1_0000 % 0x100) as u8,
        (b / 0x100 % 0x100) as u8,
        (b % 0x100) as u8,
    ]);
    assert(be_bytes(c as nat, 8) =~= seq![
        (c / 0x100_0000_0000_0000) as u8,
        (c / 0x1_0000_0000_0000 % 0x100) as u8,
        (c / 0x100_0000_0000 % 0x100) as u8,
        (c / 0x1_0000_0000 % 0x100) as u8,
        (c / 0x100_0000 % 0x100) as u8,
        (c / 0x1_0000 % 0x100) as u8,
        (c / 0x100 % 0x100) as u8,
        (c % 0x100) as u8,
    ]);
}

} // verus!
