use vstd::prelude::*;

verus! {

/// The `n` low-order bytes of `x`, least significant first.
pub open spec fn le_bytes(x: nat, n: nat) -> Seq<u8>
    decreases n,
{
    if n == 0 {
        Seq::empty()
    } else {
        seq![(x % 256) as u8] + le_bytes(x / 256, (n - 1) as nat)
    }
}

/// The number whose little-endian byte encoding is `s`.
pub open spec fn le_value(s: Seq<u8>) -> nat
    decreases s.len(),
{
    if s.len() == 0 {
        0
    } else {
        s[0] as nat + 256 * le_value(s.drop_first())
    }
}

/// Fixed-width little-endian encoding of a `u64`.
pub fn u64_to_le_bytes(x: u64) -> (r: Vec<u8>)
    ensures
        r@ == le_bytes(x as nat, 8),
{
    let mut r: Vec<u8> = Vec::new();
    let mut v: u64 = x;
    let mut i: usize = 0;
    while i < 8
        invariant
            i <= 8,
            r@ + le_bytes(v as nat, (8 - i) as nat) == le_bytes(x as nat, 8),
        decreases 8 - i,
    {
        let ghost rest = le_bytes(v as nat / 256, (8 - i - 1) as nat);
        assert(le_bytes(v as nat, (8 - i) as nat) == seq![(v as nat % 256) as u8] + rest);
        r.push((v % 256) as u8);
        assert(r@ + rest =~= (r@.drop_last() + le_bytes(v as nat, (8 - i) as nat)));
        v = v / 256;
        i = i + 1;
    }
    assert(r@ =~= r@ + le_bytes(v as nat, 0));
    r
}

/// Reads a `u64` from the first eight bytes of `s`, least significant first.
pub fn u64_from_le_bytes(s: &[u8]) -> (r: u64)
    requires
        s@.len() >= 8,
    ensures
        r as nat == le_value(s@.take(8)),
{
    let ghost t = s@.take(8);
    proof {
        reveal_with_fuel(le_value, 9);
        assert(t.drop_first().drop_first().drop_first().drop_first().drop_first().drop_first().drop_first().drop_first()
            =~= Seq::<u8>::empty());
    }
    let v7 = s[7] as u64;
    let v6 = s[6] as u64 + 256 * v7;
    let v5 = s[5] as u64 + 256 * v6;
    let v4 = s[4] as u64 + 256 * v5;
    let v3 = s[3] as u64 + 256 * v4;
    let v2 = s[2] as u64 + 256 * v3;
    let v1 = s[1] as u64 + 256 * v2;
    let v0 = s[0] as u64 + 256 * v1;
    v0
}

} // verus!
