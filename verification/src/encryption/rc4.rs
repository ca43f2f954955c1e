//! The RC4 stream cipher, used by encryption revisions 2 to 4.
//!
//! RC4 is symmetric: the same call encrypts and decrypts.
use vstd::prelude::*;

verus! {

/// Byte addition modulo 256.
pub open spec fn add8(a: u8, b: u8) -> u8 {
    if a + b > 255 {
        (a + b - 256) as u8
    } else {
        (a + b) as u8
    }
}

/// `s` with the entries at `a` and `b` exchanged.
pub open spec fn swap_at(s: Seq<u8>, a: int, b: int) -> Seq<u8> {
    s.update(a, s[b]).update(b, s[a])
}

/// The identity permutation of the 256 byte values.
pub open spec fn identity_state() -> Seq<u8> {
    Seq::new(256, |i: int| i as u8)
}

/// The permutation and index `j` after the first `n` rounds of the key
/// schedule.
pub open spec fn ksa(key: Seq<u8>, n: nat) -> (Seq<u8>, u8)
    decreases n,
{
    if n == 0 {
        (identity_state(), 0u8)
    } else {
        let prev = ksa(key, (n - 1) as nat);
        let i = n - 1;
        let j = add8(add8(prev.1, prev.0[i]), key[i % (key.len() as int)]);
        (swap_at(prev.0, i, j as int), j)
    }
}

/// The generator state `(s, i, j)` after `n` output bytes.
pub open spec fn prga(key: Seq<u8>, n: nat) -> (Seq<u8>, u8, u8)
    decreases n,
{
    if n == 0 {
        (ksa(key, 256).0, 0u8, 0u8)
    } else {
        let prev = prga(key, (n - 1) as nat);
        let i = add8(prev.1, 1);
        let j = add8(prev.2, prev.0[i as int]);
        (swap_at(prev.0, i as int, j as int), i, j)
    }
}

/// Keystream byte `n` of the key.
pub open spec fn keystream(key: Seq<u8>, n: nat) -> u8 {
    let st = prga(key, n + 1);
    st.0[add8(st.0[st.1 as int], st.0[st.2 as int]) as int]
}

/// RC4 of `data` under `key`: each byte exclusive-or'ed with the
/// keystream; an empty key leaves the data unchanged.
pub open spec fn rc4_spec(key: Seq<u8>, data: Seq<u8>) -> Seq<u8> {
    if key.len() == 0 {
        data
    } else {
        Seq::new(data.len(), |n: int| data[n] ^ keystream(key, n as nat))
    }
}

fn swap_vec(s: &mut Vec<u8>, a: usize, b: usize)
    requires
        a < old(s)@.len(),
        b < old(s)@.len(),
    ensures
        final(s)@ == swap_at(old(s)@, a as int, b as int),
{
    let x = s[a];
    let y = s[b];
    s.set(a, y);
    s.set(b, x);
}

/// Encrypts or decrypts `data` with the RC4 stream cipher.
pub fn rc4(key: &[u8], data: &[u8]) -> (r: Vec<u8>)
    ensures
        r@ == rc4_spec(key@, data@),
{
    if key.len() == 0 {
        let v = crate::content::lexer::copy_bytes(data, 0, data.len());
        assert(v@ =~= data@);
        return v;
    }
    let mut s: Vec<u8> = Vec::new();
    let mut k: usize = 0;
    while k < 256
        invariant
            k <= 256,
            s@.len() == k,
            forall|m: int| 0 <= m < k ==> s@[m] == m as u8,
        decreases 256 - k,
    {
        s.push(k as u8);
        k = k + 1;
    }
    assert(s@ =~= identity_state());
    let mut j: u8 = 0;
    let mut i: usize = 0;
    while i < 256
        invariant
            key@.len() > 0,
            i <= 256,
            s@.len() == 256,
            (s@, j) == ksa(key@, i as nat),
        decreases 256 - i,
    {
        let t = j.wrapping_add(s[i]);
        j = t.wrapping_add(key[i % key.len()]);
        swap_vec(&mut s, i, j as usize);
        i = i + 1;
    }
    let mut out: Vec<u8> = Vec::new();
    let mut a: u8 = 0;
    let mut b: u8 = 0;
    let mut n: usize = 0;
    while n < data.len()
        invariant
            key@.len() > 0,
            n <= data@.len(),
            s@.len() == 256,
            (s@, a, b) == prga(key@, n as nat),
            out@.len() == n,
            forall|m: int| 0 <= m < n ==> out@[m] == data@[m] ^ keystream(key@, m as nat),
        decreases data@.len() - n,
    {
        a = a.wrapping_add(1);
        b = b.wrapping_add(s[a as usize]);
        swap_vec(&mut s, a as usize, b as usize);
        let idx = s[a as usize].wrapping_add(s[b as usize]);
        let ks = s[idx as usize];
        out.push(data[n] ^ ks);
        n = n + 1;
    }
    assert(out@ =~= rc4_spec(key@, data@));
    out
}

proof fn lemma_xor_twice(x: u8, k: u8)
    ensures
        (x ^ k) ^ k == x,
{
    assert((x ^ k) ^ k == x) by (bit_vector);
}

/// RC4 undoes itself: applying it twice with the same key gives the data
/// back.
pub proof fn lemma_rc4_involution(key: Seq<u8>, data: Seq<u8>)
    ensures
        rc4_spec(key, rc4_spec(key, data)) == data,
{
    if key.len() > 0 {
        let once = rc4_spec(key, data);
        assert forall|n: int| 0 <= n < data.len() implies #[trigger] rc4_spec(key, once)[n] == data[n] by {
            lemma_xor_twice(data[n], keystream(key, n as nat));
        }
        assert(rc4_spec(key, once) =~= data);
    }
}

/// The output has the length of the input.
pub proof fn lemma_rc4_length(key: Seq<u8>, data: Seq<u8>)
    ensures
        rc4_spec(key, data).len() == data.len(),
{
}

} // verus!
